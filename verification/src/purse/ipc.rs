//! What arrives on a Purse's socket: one message per line, either a file
//! path (optionally `path:line` or `path:line:col`) or a JSON object
//! describing a transient snippet.
use vstd::prelude::*;
use crate::paths::path_join;
use crate::niri::purse_socket_name;
use crate::text::{
    chars_of, trim_chars, string_of, starts_with_in, ends_with_in, starts_with, ends_with, trim,
    rfind_char, rfind_char_in, slice_chars, parse_u32, parse_u32_chars, dec, dec_string, own, lemma_dec_digits, lemma_parse_dec,
    lemma_rfind_char_skip, is_digit,
};
use vstd::string::StringExecFns;

verus! {

/// A transient snippet as sent over IPC; empty `content` deletes it.
#[derive(Debug)]
pub struct TransientPayload {
    pub uuid: String,
    pub label: String,
    pub content: String,
}

/// One message received on the socket.
#[derive(Debug)]
pub enum IpcMessage {
    File(String),
    Transient(TransientPayload),
}

/// Whether a trimmed line looks like a JSON object: `{ ... }`.
pub open spec fn looks_like_object(t: Seq<char>) -> bool {
    starts_with(t, seq!['{']) && ends_with(t, seq!['}'])
}

/// Reads one socket line. A line that, trimmed, looks like a JSON object
/// and parses (`parse_payload`) as a snippet is a snippet; any other line
/// is a file path, trimmed.
pub fn classify_line<F: Fn(&str) -> Option<TransientPayload>>(line: &str, parse_payload: F) -> (r: IpcMessage)
    requires
        forall|t: &str| parse_payload.requires((t,)),
    ensures
        match r {
            IpcMessage::Transient(p) => looks_like_object(trim(line@)) && exists|t: &str|
                t@ == trim(line@) && parse_payload.ensures((t,), Some(p)),
            IpcMessage::File(f) => f@ == trim(line@) && (looks_like_object(trim(line@)) ==> exists|t: &str|
                t@ == trim(line@) && parse_payload.ensures((t,), None::<TransientPayload>)),
        },
{
    let v = chars_of(line);
    let t = trim_chars(&v);
    let trimmed = string_of(&t);
    let open_brace = vec!['{'];
    let close_brace = vec!['}'];
    assert(open_brace@ =~= seq!['{']);
    assert(close_brace@ =~= seq!['}']);
    if starts_with_in(&t, &open_brace) && ends_with_in(&t, &close_brace) {
        let ts = trimmed.as_str();
        let parsed = parse_payload(ts);
        assert(ts@ == trim(line@));
        match parsed {
            Some(p) => {
                assert(parse_payload.ensures((ts,), Some(p)));
                return IpcMessage::Transient(p);
            },
            None => {
                assert(parse_payload.ensures((ts,), None::<TransientPayload>));
            },
        }
    }
    IpcMessage::File(trimmed)
}

/// The path, line and column of a path sent as `path`, `path:line` or
/// `path:line:col`. A trailing number after the last `:` is the line; when
/// the piece before it is a number too, they are line and column.
pub open spec fn location_parts(s: Seq<char>) -> (Seq<char>, Option<u32>, Option<u32>) {
    match rfind_char(s, ':') {
        None => (s, None, None),
        Some(k1) => match parse_u32(s.subrange(k1 + 1, s.len() as int)) {
            None => (s, None, None),
            Some(n1) => {
                let head = s.subrange(0, k1);
                match rfind_char(head, ':') {
                    Some(k2) => match parse_u32(head.subrange(k2 + 1, k1)) {
                        Some(l) => (head.subrange(0, k2), Some(l), Some(n1)),
                        None => (head, Some(n1), None),
                    },
                    None => (head, Some(n1), None),
                }
            },
        },
    }
}

/// Splits a received path into path, line and column (see
/// `location_parts`).
pub fn split_location(raw: &str) -> (r: (String, Option<u32>, Option<u32>))
    ensures
        (r.0@, r.1, r.2) == location_parts(raw@),
{
    let s = chars_of(raw);
    match rfind_char_in(&s, ':') {
        None => (own(raw), None, None),
        Some(k1) => {
            let last = slice_chars(&s, k1 + 1, s.len());
            match parse_u32_chars(&last) {
                None => (own(raw), None, None),
                Some(n1) => {
                    let head = slice_chars(&s, 0, k1);
                    match rfind_char_in(&head, ':') {
                        Some(k2) => {
                            let mid = slice_chars(&head, k2 + 1, k1);
                            match parse_u32_chars(&mid) {
                                Some(l) => {
                                    let path = slice_chars(&head, 0, k2);
                                    (string_of(&path), Some(l), Some(n1))
                                },
                                None => (string_of(&head), Some(n1), None),
                            }
                        },
                        None => (string_of(&head), Some(n1), None),
                    }
                },
            }
        },
    }
}

/// The runtime directory as `purse` sees it: `$XDG_RUNTIME_DIR`, or
/// `/run/user/<uid>` when it is unset.
pub open spec fn purse_runtime_dir(runtime_dir: Option<String>, uid: u32) -> Seq<char> {
    match runtime_dir {
        Some(d) => d@,
        None => "/run/user/"@ + dec(uid as nat),
    }
}

/// Where the Purse of process `pid` binds its socket:
/// `purse-<pid>.sock` in the runtime directory.
pub fn socket_path(runtime_dir: &Option<String>, uid: u32, pid: u32) -> (r: String)
    ensures
        r@ == path_join(purse_runtime_dir(*runtime_dir, uid), purse_socket_name(pid)),
{
    crate::niri::purse_socket_path(pid, uid, runtime_dir)
}

/// The title of the window of the Purse of process `pid`: `purse-<pid>`,
/// by which `purse-niri` finds it.
pub fn window_title(pid: u32) -> (r: String)
    ensures
        r@ == "purse-"@ + dec(pid as nat),
{
    let mut r = own("purse-");
    r.append(dec_string(pid as u64).as_str());
    r
}

/// `purse-niri` reads back, from the title a Purse gives its window, the
/// process id of that Purse.
pub proof fn law_window_title_roundtrip(pid: u32)
    ensures
        crate::niri::title_pid("purse-"@ + dec(pid as nat)) == Some(pid),
{
    reveal_strlit("purse-");
    let t = "purse-"@ + dec(pid as nat);
    assert(t.subrange(0, 6) =~= "purse-"@);
    assert(t.subrange(6, t.len() as int) =~= dec(pid as nat));
    lemma_parse_dec(pid as nat, u32::MAX as nat);
}

/// A path sent as `path:line:col` comes back apart as the path, line and
/// column, whatever the path holds (colons included).
pub proof fn law_location_roundtrip(path: Seq<char>, line: u32, col: u32)
    ensures
        location_parts(path + seq![':'] + dec(line as nat) + seq![':'] + dec(col as nat)) == (
            path,
            Some(line),
            Some(col),
        ),
{
    let dl = dec(line as nat);
    let dc = dec(col as nat);
    let s = path + seq![':'] + dl + seq![':'] + dc;
    let k1: int = (path.len() + 1 + dl.len()) as int;
    let k2 = path.len() as int;
    lemma_dec_digits(line as nat);
    lemma_dec_digits(col as nat);
    assert forall|i: int| k1 + 1 <= i < s.len() implies s[i] != ':' by {
        assert(s[i] == dc[i - k1 - 1]);
        assert(is_digit(dc[i - k1 - 1]));
    }
    lemma_rfind_char_skip(s, ':', k1 + 1, s.len() as int);
    assert(s[k1] == ':');
    assert(rfind_char(s, ':') == Some(k1));
    assert(s.subrange(k1 + 1, s.len() as int) =~= dc);
    lemma_parse_dec(col as nat, u32::MAX as nat);
    let head = s.subrange(0, k1);
    assert(head =~= path + seq![':'] + dl);
    assert forall|i: int| k2 + 1 <= i < head.len() implies head[i] != ':' by {
        assert(head[i] == dl[i - k2 - 1]);
        assert(is_digit(dl[i - k2 - 1]));
    }
    lemma_rfind_char_skip(head, ':', k2 + 1, head.len() as int);
    assert(head[k2] == ':');
    assert(rfind_char(head, ':') == Some(k2));
    assert(head.subrange(k2 + 1, k1) =~= dl);
    lemma_parse_dec(line as nat, u32::MAX as nat);
    assert(head.subrange(0, k2) =~= path);
}

/// The socket `purse-niri` connects to for process `pid` is the one that
/// process' Purse binds, in the same environment, whether or not
/// `$XDG_RUNTIME_DIR` is set.
pub proof fn law_socket_paths_agree(
    runtime_dir: Option<String>,
    uid: u32,
    pid: u32,
    niri_side: String,
    purse_side: String,
)
    requires
        niri_side@ == path_join(purse_runtime_dir(runtime_dir, uid), purse_socket_name(pid)),
        purse_side@ == path_join(purse_runtime_dir(runtime_dir, uid), purse_socket_name(pid)),
    ensures
        niri_side@ == purse_side@,
{
}

} // verus!
