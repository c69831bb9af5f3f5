//! The FreeDesktop thumbnail cache: where a file's thumbnail lives
//! (`$XDG_CACHE_HOME/thumbnails/large/<md5 of its file URI>.png`), and
//! asking the thumbnailer service for one.
use vstd::prelude::*;
use vstd::utf8::encode_utf8;
use crate::paths::{path_join, join_path};
use crate::text::{concat, push_char};
use vstd::string::StringExecFns;

verus! {

/// What `md5::compute` gives for `data`: the 16 bytes of its MD5 digest.
pub uninterp spec fn md5_digest(data: Seq<u8>) -> Seq<u8>;

/// `md5::compute`: the MD5 digest of `data`, as its 16 bytes. The contract
/// claims that the result is a function of the input (`md5_digest`) and
/// has 16 bytes; MD5 itself is left unstated.
#[verifier::external_body]
fn md5_compute(data: &[u8]) -> (r: Vec<u8>)
    ensures
        r@ == md5_digest(data@),
        r@.len() == 16,
{
    md5::compute(data).0.to_vec()
}

/// The lower-case hex digit of `d < 16`.
pub open spec fn hex_digit(d: nat) -> char {
    if d < 10 {
        ((d + 48) as u8) as char
    } else {
        ((d + 87) as u8) as char
    }
}

/// Lower-case hex of bytes, two digits each (`{:x}` of an MD5 digest).
pub open spec fn hex_lower(bytes: Seq<u8>) -> Seq<char>
    decreases bytes.len(),
{
    if bytes.len() == 0 {
        Seq::empty()
    } else {
        hex_lower(bytes.drop_last()) + seq![
            hex_digit((bytes.last() / 16) as nat),
            hex_digit((bytes.last() % 16) as nat),
        ]
    }
}

fn hex_char(d: u8) -> (c: char)
    requires
        d < 16,
    ensures
        c == hex_digit(d as nat),
{
    if d < 10 {
        ((d + 48) as u8) as char
    } else {
        ((d + 87) as u8) as char
    }
}

/// Writes bytes as lower-case hex.
pub fn to_hex_lower(bytes: &Vec<u8>) -> (r: String)
    ensures
        r@ == hex_lower(bytes@),
{
    let mut r = String::new();
    let n = bytes.len();
    for i in 0..n
        invariant
            n == bytes.len(),
            r@ == hex_lower(bytes@.take(i as int)),
    {
        let b = bytes[i];
        assert(bytes@.take(i + 1).drop_last() =~= bytes@.take(i as int));
        push_char(&mut r, hex_char(b / 16));
        push_char(&mut r, hex_char(b % 16));
        assert(r@ =~= hex_lower(bytes@.take(i as int)) + seq![
            hex_digit((b / 16) as nat),
            hex_digit((b % 16) as nat),
        ]);
    }
    assert(bytes@.take(n as int) =~= bytes@);
    r
}

/// The base of the thumbnail cache: `$XDG_CACHE_HOME`, else `.cache` in
/// `$HOME` (empty when unset).
pub open spec fn cache_base(xdg_cache_home: Option<String>, home: Option<String>) -> Seq<char> {
    match xdg_cache_home {
        Some(c) => c@,
        None => path_join(
            match home {
                Some(h) => h@,
                None => Seq::empty(),
            },
            ".cache"@,
        ),
    }
}

/// The directory of large thumbnails: `<base>/thumbnails/large`.
pub open spec fn cache_dir_spec(xdg_cache_home: Option<String>, home: Option<String>) -> Seq<char> {
    path_join(path_join(cache_base(xdg_cache_home, home), "thumbnails"@), "large"@)
}

/// The directory that holds large thumbnails.
pub fn cache_dir(xdg_cache_home: &Option<String>, home: &Option<String>) -> (r: String)
    ensures
        r@ == cache_dir_spec(*xdg_cache_home, *home),
{
    let base = match xdg_cache_home {
        Some(c) => c.clone(),
        None => match home {
            Some(h) => join_path(h.as_str(), ".cache"),
            None => {
                proof {
                    reveal_strlit("");
                    assert(""@ =~= Seq::<char>::empty());
                }
                join_path("", ".cache")
            },
        },
    };
    assert(base@ == cache_base(*xdg_cache_home, *home));
    let t = join_path(base.as_str(), "thumbnails");
    join_path(t.as_str(), "large")
}

/// The `file://` URI of a path.
pub open spec fn file_uri(path: Seq<char>) -> Seq<char> {
    "file://"@ + path
}

/// Where the thumbnail of `path` is cached: `<dir>/<md5 of its URI>.png`.
pub open spec fn cache_path_spec(path: Seq<char>, dir: Seq<char>) -> Seq<char> {
    path_join(dir, hex_lower(md5_digest(encode_utf8(file_uri(path)))) + ".png"@)
}

/// The `file://` URI of a path.
pub fn file_uri_of(path: &str) -> (r: String)
    ensures
        r@ == file_uri(path@),
{
    concat("file://", path)
}

/// The cache path of the thumbnail of `path` in cache directory `dir`.
pub fn cache_path(path: &str, dir: &str) -> (r: String)
    ensures
        r@ == cache_path_spec(path@, dir@),
{
    let uri = file_uri_of(path);
    let digest = md5_compute(uri.as_str().as_bytes());
    let mut name = to_hex_lower(&digest);
    name.append(".png");
    join_path(dir, name.as_str())
}

/// The cached thumbnail of `path`, if it is already there (`is_on_disk`
/// reports whether a file exists).
pub fn cached<E: Fn(&str) -> bool>(path: &str, dir: &str, is_on_disk: &E) -> (r: Option<String>)
    requires
        forall|p: &str| is_on_disk.requires((p,)),
    ensures
        match r {
            Some(t) => t@ == cache_path_spec(path@, dir@) && exists|x: &str|
                x@ == t@ && is_on_disk.ensures((x,), true),
            None => exists|x: &str|
                x@ == cache_path_spec(path@, dir@) && is_on_disk.ensures((x,), false),
        },
{
    let thumb = cache_path(path, dir);
    let ts = thumb.as_str();
    let present = is_on_disk(ts);
    if present {
        assert(is_on_disk.ensures((ts,), true));
        Some(thumb)
    } else {
        assert(is_on_disk.ensures((ts,), false));
        None
    }
}


/// Poll `k` found no thumbnail: `is_on_disk` reported the cache path of
/// `path` absent when asked at that poll.
pub open spec fn absent_at<E: Fn(&str, u32) -> bool>(path: Seq<char>, dir: Seq<char>, k: u32, is_on_disk: E) -> bool {
    exists|x: &str| x@ == cache_path_spec(path, dir) && is_on_disk.ensures((x, k), false)
}

/// Poll `k` was made and found nothing: the deadline, asked before it,
/// reported the wait could go on; the poll found no thumbnail (see
/// `absent_at`); and the pause after it was taken.
pub open spec fn poll_missed<E, D, S>(
    path: Seq<char>,
    dir: Seq<char>,
    k: u32,
    is_on_disk: E,
    before_deadline: D,
    pause: S,
) -> bool where E: Fn(&str, u32) -> bool, D: Fn(u32) -> bool, S: Fn(u32) {
    &&& before_deadline.ensures((k,), true)
    &&& absent_at(path, dir, k, is_on_disk)
    &&& pause.ensures((k,), ())
}

/// The first `n` polls were all made and found nothing (see
/// `poll_missed`).
pub open spec fn polled_absent<E, D, S>(
    path: Seq<char>,
    dir: Seq<char>,
    n: u32,
    is_on_disk: E,
    before_deadline: D,
    pause: S,
) -> bool where E: Fn(&str, u32) -> bool, D: Fn(u32) -> bool, S: Fn(u32) {
    forall|k: u32| k < n ==> #[trigger] poll_missed(path, dir, k, is_on_disk, before_deadline, pause)
}

/// Why waiting for a thumbnail may end without one: the thumbnailer
/// refused the request for the file's URI and MIME type; or some `n` first
/// polls were all made and found nothing (see `polled_absent`), and then
/// either all `max_polls` polls were made or the deadline, asked before
/// poll `n`, reported the wait over.
pub open spec fn gave_up<Q, E, D, S>(
    path: Seq<char>,
    mime: &str,
    dir: Seq<char>,
    max_polls: u32,
    queue: Q,
    is_on_disk: E,
    before_deadline: D,
    pause: S,
) -> bool where Q: Fn(&str, &str) -> bool, E: Fn(&str, u32) -> bool, D: Fn(u32) -> bool, S: Fn(u32) {
    ||| exists|u: &str| u@ == file_uri(path) && queue.ensures((u, mime), false)
    ||| exists|n: u32|
        n <= max_polls && #[trigger] polled_absent(path, dir, n, is_on_disk, before_deadline, pause) && (n
            == max_polls || before_deadline.ensures((n,), false))
}

/// Asks the thumbnailer for a thumbnail of `path` and waits for it to
/// appear in the cache. `queue` sends the D-Bus `Queue` request for the
/// file's URI and MIME type and reports whether it was accepted. Then, for
/// each poll `k` (counted from 0): `before_deadline(k)` reports whether the
/// wait may go on; `is_on_disk(p, k)` reports whether the thumbnail is at
/// `p`; `pause(k)` sleeps one poll interval. `max_polls` bounds the polls:
/// with `pause` sleeping the poll interval, the deadline ends the wait
/// before that many polls.
/// A thumbnail is returned only when the request was accepted and a poll
/// saw the thumbnail on disk; nothing is returned only when the wait gave
/// up (see `gave_up`): after an accepted request, only once every poll
/// made found nothing and either all polls were made or the deadline
/// passed.
pub fn request<Q, E, D, S>(
    path: &str,
    mime: &str,
    dir: &str,
    queue: Q,
    is_on_disk: &E,
    before_deadline: D,
    pause: S,
    max_polls: u32,
) -> (r: Option<String>) where
    Q: Fn(&str, &str) -> bool,
    E: Fn(&str, u32) -> bool,
    D: Fn(u32) -> bool,
    S: Fn(u32),

    requires
        forall|u: &str, m: &str| queue.requires((u, m)),
        forall|p: &str, k: u32| is_on_disk.requires((p, k)),
        forall|k: u32| before_deadline.requires((k,)),
        forall|k: u32| pause.requires((k,)),
    ensures
        r matches Some(t) ==> {
            &&& t@ == cache_path_spec(path@, dir@)
            &&& exists|u: &str| u@ == file_uri(path@) && queue.ensures((u, mime), true)
            &&& exists|x: &str, k: u32| x@ == t@ && k < max_polls && is_on_disk.ensures((x, k), true)
        },
        r is None ==> gave_up(path@, mime, dir@, max_polls, queue, *is_on_disk, before_deadline, pause),
{
    let uri = file_uri_of(path);
    let thumb = cache_path(path, dir);
    let us = uri.as_str();
    let accepted = queue(us, mime);
    if !accepted {
        assert(queue.ensures((us, mime), false));
        return None;
    }
    let mut polls: u32 = 0;
    while polls < max_polls
        invariant
            forall|p: &str, k: u32| is_on_disk.requires((p, k)),
            thumb@ == cache_path_spec(path@, dir@),
            us@ == file_uri(path@),
            queue.ensures((us, mime), true),
            forall|k: u32| before_deadline.requires((k,)),
            forall|k: u32| pause.requires((k,)),
            polls <= max_polls,
            polled_absent(path@, dir@, polls, *is_on_disk, before_deadline, pause),
        decreases max_polls - polls,
    {
        let go_on = before_deadline(polls);
        if !go_on {
            assert(before_deadline.ensures((polls,), false));
            assert(polled_absent(path@, dir@, polls, *is_on_disk, before_deadline, pause));
            return None;
        }
        let ts = thumb.as_str();
        if is_on_disk(ts, polls) {
            assert(is_on_disk.ensures((ts, polls), true));
            return Some(thumb);
        }
        assert(is_on_disk.ensures((ts, polls), false));
        pause(polls);
        assert(pause.ensures((polls,), ()));
        assert(absent_at(path@, dir@, polls, *is_on_disk));
        assert(before_deadline.ensures((polls,), true));
        let ghost next: u32 = (polls + 1) as u32;
        assert(poll_missed(path@, dir@, polls, *is_on_disk, before_deadline, pause));
        assert forall|k: u32| k < next implies #[trigger] poll_missed(
            path@,
            dir@,
            k,
            *is_on_disk,
            before_deadline,
            pause,
        ) by {
            if k < polls {
            } else {
                assert(k == polls);
            }
        }
        assert(polled_absent(path@, dir@, next, *is_on_disk, before_deadline, pause));
        polls = polls + 1;
    }
    assert(polled_absent(path@, dir@, polls, *is_on_disk, before_deadline, pause));
    None
}

} // verus!
