//! The `current` context daemon: editors publish what they attend to, keyed
//! by process id; queries resolve the focused window and answer with what
//! its process last published. Dead processes are pruned from the cache.
use std::collections::HashMap;
use vstd::prelude::*;
use vstd::std_specs::hash::spec_keys_iter;
use vstd::std_specs::iter::IteratorSpec;
use crate::context::{Attention, ContextResponse, Selection, opt_text, opt_attention, copy_opt_string};
use crate::text::{chars_of, slice_chars, trim_chars, parse_u32_chars, rfind_in, find_char_in, rfind, find_char, parse_u32, trim, occurs_at, dec, dec_string, str_eq, own, concat, lemma_dec_digits, lemma_rfind_below_skip, lemma_find_char_skip, lemma_parse_dec, is_digit, is_ws, trim_start, trim_end};
use crate::paths::{path_parent, parent_of};
use vstd::string::StringExecFns;

verus! {

/// The focused window as the compositor reports it.
#[derive(Debug)]
pub struct NiriWindow {
    pub pid: Option<u32>,
    pub app_id: Option<String>,
    pub title: Option<String>,
}

/// A request on the daemon's socket.
#[derive(Debug)]
pub enum Request {
    /// An editor publishes what the window of process `pid` attends to.
    Publish { pid: u32, attention: Attention },
    /// A tool asks for the context of the focused window.
    Query,
}

/// The marker an editor appends to its window title: `[PID: <pid>]`.
pub open spec fn pid_marker() -> Seq<char> {
    seq!['[', 'P', 'I', 'D', ':', ' ']
}

/// The process id that a window title carries in its last `[PID: ...]`
/// marker: the trimmed text up to the next `]`, parsed as a `u32`.
pub open spec fn title_pid(title: Seq<char>) -> Option<u32> {
    match rfind(title, pid_marker()) {
        Some(i) => {
            let rest = title.subrange(i + 6, title.len() as int);
            match find_char(rest, ']') {
                Some(j) => parse_u32(trim(rest.subrange(0, j))),
                None => None,
            }
        },
        None => None,
    }
}

/// Reads the process id out of a window title such as
/// `main.rs - lite-xl [PID: 550405]`. An XWayland proxy reports its own pid
/// for the window; the title carries the editor's.
pub fn extract_pid_from_title(title: &str) -> (r: Option<u32>)
    ensures
        r == title_pid(title@),
{
    let t = chars_of(title);
    let marker = vec!['[', 'P', 'I', 'D', ':', ' '];
    assert(marker@ =~= pid_marker());
    match rfind_in(&t, &marker) {
        Some(i) => {
            assert(rfind(t@, marker@) == Some(i as int));
            assert(occurs_at(t@, marker@, i as int));
            assert(i + 6 <= t@.len());
            assert(t@.len() == t.len());
            let rest = slice_chars(&t, i + 6, t.len());
            match find_char_in(&rest, ']') {
                Some(j) => {
                    let pid_text = slice_chars(&rest, 0, j);
                    let trimmed = trim_chars(&pid_text);
                    parse_u32_chars(&trimmed)
                },
                None => None,
            }
        },
        None => None,
    }
}

/// The cache after pruning: entries whose process `is_live` reported dead
/// are gone, every other entry is kept unchanged.
pub open spec fn pruned<F: Fn(u32) -> bool>(
    before: Map<u32, Attention>,
    after: Map<u32, Attention>,
    is_live: F,
) -> bool {
    &&& forall|p: u32| #[trigger]
        after.contains_key(p) ==> before.contains_key(p) && after[p] == before[p]
            && is_live.ensures((p,), true)
    &&& forall|p: u32| #[trigger]
        before.contains_key(p) && !after.contains_key(p) ==> is_live.ensures((p,), false)
}

/// Drops the entries of processes that `is_live` reports dead (the daemon
/// checks `/proc/<pid>`), so the cache does not hold dead processes.
pub fn prune_cache<F: Fn(u32) -> bool>(cache: &mut HashMap<u32, Attention>, is_live: &F)
    requires
        forall|p: u32| is_live.requires((p,)),
    ensures
        pruned(old(cache)@, final(cache)@, *is_live),
{
    broadcast use vstd::std_specs::hash::group_hash_axioms;

    let mut keys: Vec<u32> = Vec::new();
    let ghost before = cache@;
    let ghost all_keys = spec_keys_iter(&*cache).remaining().unref();
    assert(all_keys.to_set() == before.dom());
    for k in it: cache.keys()
        invariant
            keys.len() == it.index(),
            it.seq().len() == all_keys.len(),
            forall|m: int| 0 <= m < it.seq().len() ==> *it.seq()[m] == all_keys[m],
            forall|m: int| 0 <= m < keys.len() ==> keys@[m] == *it.seq()[m],
    {
        keys.push(*k);
    }
    assert(keys.len() == all_keys.len());
    assert forall|p: u32| before.contains_key(p) implies keys@.contains(p) by {
        assert(all_keys.to_set().contains(p));
        assert(all_keys.contains(p));
        let m = choose|m: int| 0 <= m < all_keys.len() && all_keys[m] == p;
        assert(keys@[m] == p);
    }
    let n = keys.len();
    for i in 0..n
        invariant
            n == keys.len(),
            forall|p: u32| before.contains_key(p) ==> keys@.contains(p),
            forall|p: u32| #[trigger]
                cache@.contains_key(p) ==> before.contains_key(p) && cache@[p] == before[p],
            forall|p: u32|
                before.contains_key(p) && !keys@.take(i as int).contains(p) ==> #[trigger] cache@.contains_key(p),
            forall|p: u32|
                keys@.take(i as int).contains(p) && #[trigger] cache@.contains_key(p) ==> is_live.ensures((p,), true),
            forall|p: u32|
                before.contains_key(p) && !#[trigger] cache@.contains_key(p) ==> is_live.ensures((p,), false),
            forall|p: u32| is_live.requires((p,)),
    {
        let k = keys[i];
        let live = is_live(k);
        let ghost mid = cache@;
        if !live {
            cache.remove(&k);
        }
        assert(keys@.take(i + 1) =~= keys@.take(i as int).push(k));
        assert forall|p: u32|
            before.contains_key(p) && !keys@.take(i + 1).contains(p) implies #[trigger] cache@.contains_key(p) by {
            assert(p != k) by {
                if p == k {
                    assert(keys@.take(i + 1)[i as int] == k);
                }
            }
            assert(mid.contains_key(p));
        }
    }
    assert(keys@.take(n as int) =~= keys@);
}


/// The process whose context a query answers for: the pid in the window
/// title's `[PID: ...]` marker when there is one, else the window's pid.
pub open spec fn resolved_pid(window: Option<NiriWindow>) -> Option<u32> {
    match window {
        None => None,
        Some(w) => match w.title {
            Some(t) => match title_pid(t@) {
                Some(p) => Some(p),
                None => w.pid,
            },
            None => w.pid,
        },
    }
}

/// The cache after a publish of `att` for `pid`: pruned, then `pid` maps to
/// `att`.
pub open spec fn published<F: Fn(u32) -> bool>(
    before: Map<u32, Attention>,
    after: Map<u32, Attention>,
    pid: u32,
    att: Attention,
    is_live: F,
) -> bool {
    &&& after.contains_key(pid)
    &&& after[pid] == att
    &&& forall|p: u32| #[trigger]
        after.contains_key(p) && p != pid ==> before.contains_key(p) && after[p] == before[p]
            && is_live.ensures((p,), true)
    &&& forall|p: u32| #[trigger]
        before.contains_key(p) && !after.contains_key(p) ==> is_live.ensures((p,), false)
}

/// What the cache answers for a process: its attention, when it has one.
pub open spec fn cached_attention(cache: Map<u32, Attention>, pid: u32) -> Option<(Seq<char>, Seq<Selection>)> {
    if cache.contains_key(pid) {
        Some(cache[pid]@)
    } else {
        None
    }
}

/// Handles a publish: prunes dead processes, then records what `pid`
/// attends to, replacing what it published before.
pub fn publish<F: Fn(u32) -> bool>(
    cache: &mut HashMap<u32, Attention>,
    pid: u32,
    attention: Attention,
    is_live: &F,
)
    requires
        forall|p: u32| is_live.requires((p,)),
    ensures
        published(old(cache)@, final(cache)@, pid, attention, *is_live),
{
    broadcast use vstd::std_specs::hash::group_hash_axioms;

    prune_cache(cache, is_live);
    cache.insert(pid, attention);
}

/// Handles a query: answers with the focused window's app id and pid and
/// with what its process (see `resolved_pid`) last published. The cache is
/// pruned first when a process could be resolved.
pub fn query<F: Fn(u32) -> bool>(
    cache: &mut HashMap<u32, Attention>,
    window: &Option<NiriWindow>,
    is_live: &F,
) -> (r: ContextResponse)
    requires
        forall|p: u32| is_live.requires((p,)),
    ensures
        r.pid == (match *window {
            Some(w) => w.pid,
            None => None,
        }),
        opt_text(r.app_id) == (match *window {
            Some(w) => opt_text(w.app_id),
            None => None,
        }),
        match resolved_pid(*window) {
            Some(p) => pruned(old(cache)@, final(cache)@, *is_live) && opt_attention(r.attention)
                == cached_attention(final(cache)@, p),
            None => final(cache)@ == old(cache)@ && r.attention is None,
        },
{
    broadcast use vstd::std_specs::hash::group_hash_axioms;

    let mut attention: Option<Attention> = None;
    match window {
        Some(win) => {
            let mut resolved = win.pid;
            match &win.title {
                Some(title) => {
                    match extract_pid_from_title(title.as_str()) {
                        Some(p) => {
                            resolved = Some(p);
                        },
                        None => {},
                    }
                },
                None => {},
            }
            match resolved {
                Some(pid) => {
                    prune_cache(cache, is_live);
                    match cache.get(&pid) {
                        Some(att) => {
                            attention = Some(att.clone());
                        },
                        None => {},
                    }
                },
                None => {},
            }
        },
        None => {},
    }
    let (app_id, pid) = match window {
        Some(w) => (copy_opt_string(&w.app_id), w.pid),
        None => (None, None),
    };
    ContextResponse { app_id, pid, attention }
}

/// What the `current` command line prints and how it exits.
#[derive(Debug)]
pub struct ClientOutcome {
    pub stdout: Option<String>,
    pub stderr: Option<String>,
    pub exit_code: i32,
}

/// The `file:line:column` of the primary caret, when there is one.
pub open spec fn attention_line(att: Option<Attention>) -> Option<Seq<char>> {
    match att {
        Some(a) => if a.selections@.len() > 0 {
            Some(a.file@ + ":"@ + dec(a.selections@[0].line as nat) + ":"@ + dec(
                a.selections@[0].column as nat,
            ))
        } else {
            None
        },
        None => None,
    }
}

/// The directory of the attended file, when it has one.
pub open spec fn attention_dir(att: Option<Attention>) -> Option<Seq<char>> {
    match att {
        Some(a) => path_parent(a.file@),
        None => None,
    }
}

/// `$HOME`, or `/home/tau` when it is unset.
pub open spec fn home_or_default(home: Option<String>) -> Seq<char> {
    match home {
        Some(h) => h@,
        None => "/home/tau"@,
    }
}

/// What `current <command>` prints and how it exits, given what the
/// focused editor attends to: `attention` prints `file:line:column` of the
/// primary caret, or nothing with exit status 1; `location` prints the
/// attended file's directory, or `$HOME` ("home is the floor"), with exit
/// status 0; any other command is reported on stderr with exit status 1.
pub open spec fn client_outcome_spec(
    command: Seq<char>,
    attention: Option<Attention>,
    home: Option<String>,
    r: ClientOutcome,
) -> bool {
    if command == "attention"@ {
        opt_text(r.stdout) == attention_line(attention) && r.stderr is None && r.exit_code == (
        if attention_line(attention) is Some {
            0i32
        } else {
            1i32
        })
    } else if command == "location"@ {
        r.stderr is None && r.exit_code == 0 && opt_text(r.stdout) == Some(
            match attention_dir(attention) {
                Some(d) => d,
                None => home_or_default(home),
            },
        )
    } else {
        r.stdout is None && opt_text(r.stderr) == Some("Unknown command: "@ + command) && r.exit_code
            == 1
    }
}

/// `current attention` prints the primary caret: the file, the caret's
/// line and its column (never the selection's anchor), and exits with 0.
pub proof fn law_attention_prints_caret(a: Attention, home: Option<String>, r: ClientOutcome)
    requires
        client_outcome_spec("attention"@, Some(a), home, r),
        a.selections@.len() > 0,
    ensures
        opt_text(r.stdout) == Some(
            a.file@ + ":"@ + dec(a.selections@[0].line as nat) + ":"@ + dec(a.selections@[0].column as nat),
        ),
        r.stderr is None,
        r.exit_code == 0,
{
}

/// `current attention` without a caret (no attention, or no selection)
/// prints nothing and exits with 1.
pub proof fn law_attention_without_caret(att: Option<Attention>, home: Option<String>, r: ClientOutcome)
    requires
        client_outcome_spec("attention"@, att, home, r),
        match att {
            Some(a) => a.selections@.len() == 0,
            None => true,
        },
    ensures
        r.stdout is None,
        r.stderr is None,
        r.exit_code == 1,
{
}

/// What `current <command>` prints for a context answer (see
/// `client_outcome_spec`).
pub fn client_outcome(command: &str, context: &ContextResponse, home: &Option<String>) -> (r: ClientOutcome)
    ensures
        client_outcome_spec(command@, context.attention, *home, r),
        command@ == "attention"@ ==> match context.attention {
            Some(a) => a.selections@.len() > 0 ==> opt_text(r.stdout) == Some(
                a.file@ + ":"@ + dec(a.selections@[0].line as nat) + ":"@ + dec(a.selections@[0].column as nat),
            ),
            None => r.stdout is None,
        },
{
    if str_eq(command, "attention") {
        match &context.attention {
            Some(att) => {
                if att.selections.len() > 0 {
                    let sel = att.selections[0];
                    let mut line = concat(att.file.as_str(), ":");
                    line.append(dec_string(sel.line as u64).as_str());
                    line.append(":");
                    line.append(dec_string(sel.column as u64).as_str());
                    return ClientOutcome { stdout: Some(line), stderr: None, exit_code: 0 };
                }
            },
            None => {},
        }
        ClientOutcome { stdout: None, stderr: None, exit_code: 1 }
    } else if str_eq(command, "location") {
        let dir = match &context.attention {
            Some(att) => parent_of(att.file.as_str()),
            None => None,
        };
        let out = match dir {
            Some(d) => d,
            None => match home {
                Some(h) => h.clone(),
                None => own("/home/tau"),
            },
        };
        ClientOutcome { stdout: Some(out), stderr: None, exit_code: 0 }
    } else {
        ClientOutcome { stdout: None, stderr: Some(concat("Unknown command: ", command)), exit_code: 1 }
    }
}


/// What `current <command>` prints when the daemon answered with
/// `answer`, or could not be reached, read or understood (`None`): without
/// an answer nothing is attended to, so `location` still prints `$HOME`
/// with exit status 0 and `attention` prints nothing with exit status 1.
pub fn client_outcome_of(command: &str, answer: &Option<ContextResponse>, home: &Option<String>) -> (r: ClientOutcome)
    ensures
        client_outcome_spec(
            command@,
            match *answer {
                Some(c) => c.attention,
                None => None,
            },
            *home,
            r,
        ),
{
    match answer {
        Some(c) => client_outcome(command, c, home),
        None => client_outcome(command, &ContextResponse { app_id: None, pid: None, attention: None }, home),
    }
}

/// A read gives back a write: once `pid` has published `att`, the cache
/// that a later query consults (after its own pruning) answers `att` for
/// `pid`, unless that query's liveness check found `pid` dead.
pub proof fn law_query_returns_published<F: Fn(u32) -> bool, G: Fn(u32) -> bool>(
    c0: Map<u32, Attention>,
    c1: Map<u32, Attention>,
    c2: Map<u32, Attention>,
    pid: u32,
    att: Attention,
    is_live: F,
    is_live_at_query: G,
)
    requires
        published(c0, c1, pid, att, is_live),
        pruned(c1, c2, is_live_at_query),
    ensures
        cached_attention(c2, pid) == Some(att@) || is_live_at_query.ensures((pid,), false),
{
    if c2.contains_key(pid) {
        assert(c2[pid] == c1[pid]);
    } else {
        assert(c1.contains_key(pid));
    }
}

/// A title that ends in the editor's marker `[PID: <pid>]` resolves to that
/// pid, whatever precedes the marker.
pub proof fn law_title_marker_roundtrip(prefix: Seq<char>, pid: u32)
    ensures
        title_pid(prefix + pid_marker() + dec(pid as nat) + seq![']']) == Some(pid),
{
    let d = dec(pid as nat);
    let m = pid_marker();
    let s = prefix + m + d + seq![']'];
    let p = prefix.len() as int;
    lemma_dec_digits(pid as nat);
    assert(s.subrange(p, p + 6) =~= m);
    assert(occurs_at(s, m, p));
    assert forall|i: int| p + 1 <= i < s.len() + 1 implies !occurs_at(s, m, i) by {
        if occurs_at(s, m, i) {
            assert(s.subrange(i, i + 6)[0] == m[0]);
            assert(s[i] == '[');
            if i < p + 6 {
                assert(s[i] == m[i - p]);
            } else if i < p + 6 + d.len() {
                assert(s[i] == d[i - p - 6]);
                assert(is_digit(d[i - p - 6]));
            } else {
                assert(s[i] == ']');
            }
        }
    }
    lemma_rfind_below_skip(s, m, p + 1, s.len() + 1int);
    assert(rfind(s, m) == Some(p));
    let rest = s.subrange(p + 6, s.len() as int);
    assert(rest =~= d + seq![']']);
    assert forall|k: int| 0 <= k < d.len() implies rest[k] != ']' by {
        assert(rest[k] == d[k]);
        assert(is_digit(d[k]));
    }
    lemma_find_char_skip(rest, ']', 0, d.len() as int);
    assert(find_char(rest, ']') == Some(d.len() as int));
    assert(rest.subrange(0, d.len() as int) =~= d);
    assert(!is_ws(d[0])) by {
        assert(is_digit(d[0]));
    }
    assert(!is_ws(d.last())) by {
        assert(is_digit(d[d.len() - 1]));
    }
    assert(trim_start(d) == d);
    assert(trim_end(d) == d);
    lemma_parse_dec(pid as nat, u32::MAX as nat);
}

} // verus!
