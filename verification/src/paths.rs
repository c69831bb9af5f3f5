//! File-system path operations of `std::path`, used to build socket, cache
//! and configuration locations. They are trusted wrappers: each names what
//! the std operation returns as a function of its arguments.
use vstd::prelude::*;

verus! {

/// What `Path::new(base).join(tail)` gives, as text.
pub uninterp spec fn path_join(base: Seq<char>, tail: Seq<char>) -> Seq<char>;

/// What `Path::new(path).parent()` gives, as text.
pub uninterp spec fn path_parent(path: Seq<char>) -> Option<Seq<char>>;

/// What `Path::new(path).file_name()` gives, as text.
pub uninterp spec fn path_file_name(path: Seq<char>) -> Option<Seq<char>>;

/// `Path::join`: the path `tail` appended to `base`. The contract claims
/// only that the result is a function of the two arguments (`path_join`);
/// what that function is, is left to std.
#[verifier::external_body]
pub(crate) fn join_path(base: &str, tail: &str) -> (r: String)
    ensures
        r@ == path_join(base@, tail@),
{
    std::path::Path::new(base).join(tail).to_string_lossy().into_owned()
}

/// `Path::parent` of a path given as text. The contract claims only that
/// the result is a function of the argument (`path_parent`).
#[verifier::external_body]
pub(crate) fn parent_of(path: &str) -> (r: Option<String>)
    ensures
        match r {
            Some(p) => path_parent(path@) == Some(p@),
            None => path_parent(path@) is None,
        },
{
    std::path::Path::new(path).parent().map(|p| p.to_string_lossy().into_owned())
}

/// `Path::file_name` of a path given as text. The contract claims only
/// that the result is a function of the argument (`path_file_name`).
#[verifier::external_body]
pub(crate) fn file_name_of(path: &str) -> (r: Option<String>)
    ensures
        match r {
            Some(p) => path_file_name(path@) == Some(p@),
            None => path_file_name(path@) is None,
        },
{
    std::path::Path::new(path).file_name().map(|n| n.to_string_lossy().into_owned())
}


/// The directory `$XDG_RUNTIME_DIR`, or `/run/user/1000` when it is unset.
pub open spec fn runtime_dir_or_default(runtime_dir: Option<String>) -> Seq<char> {
    match runtime_dir {
        Some(d) => d@,
        None => "/run/user/1000"@,
    }
}

/// A socket named `name` in the runtime directory (`$XDG_RUNTIME_DIR`,
/// else `/run/user/1000`), where `current` and `lsp-broker` listen.
pub fn runtime_socket_path(runtime_dir: &Option<String>, name: &str) -> (r: String)
    ensures
        r@ == path_join(runtime_dir_or_default(*runtime_dir), name@),
{
    match runtime_dir {
        Some(d) => join_path(d.as_str(), name),
        None => join_path("/run/user/1000", name),
    }
}

} // verus!
