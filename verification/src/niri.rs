//! `purse-niri`: finds the Purse window on the focused niri workspace (or
//! decides to spawn one) from what niri's IPC socket reports.
use vstd::prelude::*;
use crate::json::{Json, JsonNumber, json_get, opt_json_get, json_parse, parse_json};
use crate::purse::ipc::purse_runtime_dir;
use crate::paths::{path_join, join_path};
use crate::text::{trim, trim_str, chars_of, starts_with_in, slice_chars, parse_u32_chars, starts_with, parse_u32, str_eq, dec, dec_string, own};
use vstd::string::StringExecFns;

verus! {

/// A workspace in niri's `Workspaces` reply.
#[derive(Debug, Clone, Copy)]
pub struct NiriWorkspace {
    pub id: u64,
    pub is_focused: bool,
}

/// A window in niri's `Windows` reply.
#[derive(Debug)]
pub struct NiriWindow {
    pub app_id: Option<String>,
    pub workspace_id: Option<u64>,
    pub title: Option<String>,
}

/// A Purse window: the workspace it is on and its process id.
#[derive(Debug, Clone, Copy, PartialEq, Eq)]
pub struct PurseWindow {
    pub workspace_id: u64,
    pub pid: u32,
}

/// What niri reports that matters here.
#[derive(Debug)]
pub struct NiriState {
    pub focused_workspace_id: Option<u64>,
    pub purse_windows: Vec<PurseWindow>,
}

/// Whether to hand the files to a running Purse or start a new one.
#[derive(Debug, Clone, Copy, PartialEq, Eq)]
pub enum Resolution {
    Forward { pid: u32 },
    Spawn,
}

/// The pid in a Purse window title `purse-<pid>`.
pub open spec fn title_pid(title: Seq<char>) -> Option<u32> {
    if starts_with(title, "purse-"@) {
        parse_u32(title.subrange("purse-"@.len() as int, title.len() as int))
    } else {
        None
    }
}

/// Reads the pid out of a Purse window title, which Purse sets to
/// `purse-<pid>`.
pub fn pid_from_title(title: &str) -> (r: Option<u32>)
    ensures
        r == title_pid(title@),
{
    let t = chars_of(title);
    let prefix = chars_of("purse-");
    if starts_with_in(&t, &prefix) {
        let rest = slice_chars(&t, prefix.len(), t.len());
        parse_u32_chars(&rest)
    } else {
        None
    }
}

/// The id of the first focused workspace at or after `i`.
pub open spec fn focused_from(ws: Seq<NiriWorkspace>, i: int) -> Option<u64>
    decreases ws.len() - i,
{
    if i < 0 || i >= ws.len() {
        None
    } else if ws[i].is_focused {
        Some(ws[i].id)
    } else {
        focused_from(ws, i + 1)
    }
}

/// The Purse window a niri window is, if it is one: app id `dev.purse`, on
/// a workspace, with a `purse-<pid>` title.
pub open spec fn as_purse_window(w: NiriWindow) -> Option<PurseWindow> {
    match (w.app_id, w.workspace_id, w.title) {
        (Some(a), Some(ws), Some(t)) => if a@ == "dev.purse"@ {
            match title_pid(t@) {
                Some(pid) => Some(PurseWindow { workspace_id: ws, pid }),
                None => None,
            }
        } else {
            None
        },
        _ => None,
    }
}

/// The Purse windows among `windows`, in order.
pub open spec fn purse_windows_of(windows: Seq<NiriWindow>) -> Seq<PurseWindow>
    decreases windows.len(),
{
    if windows.len() == 0 {
        Seq::empty()
    } else {
        let front = purse_windows_of(windows.drop_last());
        match as_purse_window(windows.last()) {
            Some(p) => front.push(p),
            None => front,
        }
    }
}

/// The Purse window of a niri window, if it is one.
pub fn purse_window(w: &NiriWindow) -> (r: Option<PurseWindow>)
    ensures
        r == as_purse_window(*w),
{
    match (&w.app_id, w.workspace_id, &w.title) {
        (Some(a), Some(ws), Some(t)) => {
            if str_eq(a.as_str(), "dev.purse") {
                match pid_from_title(t.as_str()) {
                    Some(pid) => Some(PurseWindow { workspace_id: ws, pid }),
                    None => None,
                }
            } else {
                None
            }
        },
        _ => None,
    }
}

/// The id of the first workspace marked focused.
pub fn focused_workspace(workspaces: &Vec<NiriWorkspace>) -> (r: Option<u64>)
    ensures
        r == focused_from(workspaces@, 0),
{
    let mut i: usize = 0;
    while i < workspaces.len()
        invariant
            i <= workspaces.len(),
            focused_from(workspaces@, 0) == focused_from(workspaces@, i as int),
        decreases workspaces.len() - i,
    {
        if workspaces[i].is_focused {
            return Some(workspaces[i].id);
        }
        i = i + 1;
    }
    None
}

/// Assembles what niri reported: the focused workspace (the first marked
/// focused) and the Purse windows, in niri's order.
pub fn collect_state(workspaces: &Vec<NiriWorkspace>, windows: &Vec<NiriWindow>) -> (r: NiriState)
    ensures
        r.focused_workspace_id == focused_from(workspaces@, 0),
        r.purse_windows@ == purse_windows_of(windows@),
{
    let focused = focused_workspace(workspaces);
    let mut found: Vec<PurseWindow> = Vec::new();
    let n = windows.len();
    for j in 0..n
        invariant
            n == windows.len(),
            found@ == purse_windows_of(windows@.take(j as int)),
    {
        assert(windows@.take(j + 1).drop_last() =~= windows@.take(j as int));
        match purse_window(&windows[j]) {
            Some(p) => found.push(p),
            None => {},
        }
    }
    assert(windows@.take(n as int) =~= windows@);
    NiriState { focused_workspace_id: focused, purse_windows: found }
}

/// The first Purse window at or after `i` that is on workspace `ws`.
pub open spec fn window_on_from(windows: Seq<PurseWindow>, ws: u64, i: int) -> Option<PurseWindow>
    decreases windows.len() - i,
{
    if i < 0 || i >= windows.len() {
        None
    } else if windows[i].workspace_id == ws {
        Some(windows[i])
    } else {
        window_on_from(windows, ws, i + 1)
    }
}

/// The Purse window to forward to, if any: the first one on the focused
/// workspace.
pub open spec fn candidate(niri: NiriState) -> Option<PurseWindow> {
    match niri.focused_workspace_id {
        Some(ws) => window_on_from(niri.purse_windows@, ws, 0),
        None => None,
    }
}

proof fn lemma_window_on_from(windows: Seq<PurseWindow>, ws: u64, i: int)
    requires
        0 <= i,
    ensures
        match window_on_from(windows, ws, i) {
            Some(w) => exists|k: int|
                i <= k < windows.len() && windows[k] == w && w.workspace_id == ws && forall|j: int|
                    i <= j < k ==> (#[trigger] windows[j]).workspace_id != ws,
            None => forall|k: int| i <= k < windows.len() ==> (#[trigger] windows[k]).workspace_id != ws,
        },
    decreases windows.len() - i,
{
    if i < windows.len() && windows[i].workspace_id != ws {
        lemma_window_on_from(windows, ws, i + 1);
        match window_on_from(windows, ws, i + 1) {
            Some(w) => {
                let k = choose|k: int|
                    i + 1 <= k < windows.len() && windows[k] == w && w.workspace_id == ws && forall|j: int|
                        i + 1 <= j < k ==> (#[trigger] windows[j]).workspace_id != ws;
                assert forall|j: int| i <= j < k implies (#[trigger] windows[j]).workspace_id != ws by {
                    if j > i {
                    }
                }
            },
            None => {},
        }
    } else if i < windows.len() {
        assert(windows[i] == windows[i]);
    }
}

/// Files go to a Purse on the focused workspace or to none: the Purse
/// chosen is the first Purse window whose workspace is the focused one,
/// and when no Purse window is on the focused workspace (or none is known
/// to be focused) none is chosen.
pub proof fn law_candidate_on_focused_workspace(niri: NiriState)
    ensures
        match candidate(niri) {
            Some(w) => exists|i: int|
                0 <= i < niri.purse_windows@.len() && niri.purse_windows@[i] == w
                    && niri.focused_workspace_id == Some(w.workspace_id) && forall|j: int|
                    0 <= j < i ==> Some((#[trigger] niri.purse_windows@[j]).workspace_id)
                        != niri.focused_workspace_id,
            None => forall|i: int|
                0 <= i < niri.purse_windows@.len() ==> Some((#[trigger] niri.purse_windows@[i]).workspace_id)
                    != niri.focused_workspace_id,
        },
{
    match niri.focused_workspace_id {
        Some(ws) => {
            lemma_window_on_from(niri.purse_windows@, ws, 0);
        },
        None => {},
    }
}

/// Decides where files go: to the first Purse window on the focused
/// workspace when its socket is live, else to a newly spawned Purse. With
/// no focused workspace known (niri unreachable), always spawn.
pub fn resolve<F: Fn(u32) -> bool>(niri: &NiriState, socket_is_live: F) -> (r: Resolution)
    requires
        forall|p: u32| socket_is_live.requires((p,)),
    ensures
        match candidate(*niri) {
            None => r == Resolution::Spawn,
            Some(w) => (r == Resolution::Forward { pid: w.pid } && socket_is_live.ensures(
                (w.pid,),
                true,
            )) || (r == Resolution::Spawn && socket_is_live.ensures((w.pid,), false)),
        },
        r matches Resolution::Forward { pid } ==> exists|i: int|
            0 <= i < niri.purse_windows@.len() && niri.purse_windows@[i].pid == pid
                && niri.focused_workspace_id == Some(niri.purse_windows@[i].workspace_id) && forall|j: int|
                0 <= j < i ==> Some((#[trigger] niri.purse_windows@[j]).workspace_id)
                    != niri.focused_workspace_id,
        (forall|i: int|
            0 <= i < niri.purse_windows@.len() ==> Some((#[trigger] niri.purse_windows@[i]).workspace_id)
                != niri.focused_workspace_id) ==> r == Resolution::Spawn,
{
    proof {
        law_candidate_on_focused_workspace(*niri);
    }
    let focused_ws = match niri.focused_workspace_id {
        Some(id) => id,
        None => {
            return Resolution::Spawn;
        },
    };
    let mut i: usize = 0;
    while i < niri.purse_windows.len()
        invariant
            i <= niri.purse_windows.len(),
            niri.focused_workspace_id == Some(focused_ws),
            candidate(*niri) == window_on_from(niri.purse_windows@, focused_ws, i as int),
            forall|p: u32| socket_is_live.requires((p,)),
        decreases niri.purse_windows.len() - i,
    {
        let w = niri.purse_windows[i];
        if w.workspace_id == focused_ws {
            if socket_is_live(w.pid) {
                proof {
                    assert(candidate(*niri) == Some(w));
                    law_candidate_on_focused_workspace(*niri);
                }
                return Resolution::Forward { pid: w.pid };
            } else {
                return Resolution::Spawn;
            }
        }
        i = i + 1;
    }
    Resolution::Spawn
}

/// The runtime directory as `purse-niri` sees it: `$XDG_RUNTIME_DIR`, or
/// `/tmp` when it is unset.
pub open spec fn niri_runtime_dir(runtime_dir: Option<String>) -> Seq<char> {
    match runtime_dir {
        Some(d) => d@,
        None => "/tmp"@,
    }
}

/// The file name of a Purse socket: `purse-<pid>.sock`.
pub open spec fn purse_socket_name(pid: u32) -> Seq<char> {
    "purse-"@ + dec(pid as nat) + ".sock"@
}

/// `purse-<pid>.sock`.
pub fn purse_socket_name_of(pid: u32) -> (r: String)
    ensures
        r@ == purse_socket_name(pid),
{
    let mut r = own("purse-");
    r.append(dec_string(pid as u64).as_str());
    r.append(".sock");
    r
}

/// Where the Purse of process `pid` listens: `purse-<pid>.sock` in the
/// runtime directory (`$XDG_RUNTIME_DIR`, else `/run/user/<uid>`), the path
/// that Purse binds (see `purse::ipc::socket_path`).
pub fn purse_socket_path(pid: u32, uid: u32, runtime_dir: &Option<String>) -> (r: String)
    ensures
        r@ == path_join(purse_runtime_dir(*runtime_dir, uid), purse_socket_name(pid)),
{
    let name = purse_socket_name_of(pid);
    match runtime_dir {
        Some(d) => join_path(d.as_str(), name.as_str()),
        None => {
            let mut dir = own("/run/user/");
            dir.append(dec_string(uid as u64).as_str());
            join_path(dir.as_str(), name.as_str())
        },
    }
}

/// Where niri's IPC socket is: `$NIRI_SOCKET`, else `niri/socket` in the
/// runtime directory (`$XDG_RUNTIME_DIR`, else `/tmp`).
pub fn niri_socket_path(niri_socket: &Option<String>, runtime_dir: &Option<String>) -> (r: String)
    ensures
        r@ == (match *niri_socket {
            Some(s) => s@,
            None => path_join(niri_runtime_dir(*runtime_dir), "niri/socket"@),
        }),
{
    match niri_socket {
        Some(s) => s.clone(),
        None => match runtime_dir {
            Some(d) => join_path(d.as_str(), "niri/socket"),
            None => join_path("/tmp", "niri/socket"),
        },
    }
}

/// How niri's reply to a request is to be read.
#[derive(Debug)]
pub enum NiriReply<'a> {
    /// The list under the request's key.
    Items(&'a Json),
    /// niri answered with an error.
    Failed(&'a Json),
    /// The reply is neither `{"Ok": {key: ...}}` nor `{"Err": ...}`.
    UnexpectedShape,
}

/// Picks the list out of niri's reply `{"Ok": {<key>: [...]}}`; an `Err`
/// member means niri refused.
pub fn reply_items<'a>(val: &'a Json, key: &str) -> (r: NiriReply<'a>)
    ensures
        match json_get(*val, "Err"@) {
            Some(e) => r == NiriReply::Failed(&e),
            None => match json_get(*val, "Ok"@) {
                Some(ok) => match json_get(ok, key@) {
                    Some(items) => r == NiriReply::Items(&items),
                    None => r == NiriReply::UnexpectedShape,
                },
                None => r == NiriReply::UnexpectedShape,
            },
        },
{
    match val.get("Err") {
        Some(e) => NiriReply::Failed(e),
        None => match val.get("Ok") {
            Some(ok) => match ok.get(key) {
                Some(items) => NiriReply::Items(items),
                None => NiriReply::UnexpectedShape,
            },
            None => NiriReply::UnexpectedShape,
        },
    }
}

/// Why niri's reply to a request could not be read.
#[derive(Debug, Clone, Copy, PartialEq, Eq)]
pub enum NiriReplyError {
    /// The line is not one JSON document.
    NotJson,
    /// niri answered with an error.
    Failed,
    /// The reply is neither `{"Ok": {key: ...}}` nor `{"Err": ...}`.
    UnexpectedShape,
    /// The list holds something that is not a record of the kind asked for.
    BadItems,
}

/// The list that a reply line carries under `key`: the line, trimmed and
/// parsed as JSON, read as `reply_items` reads it.
pub open spec fn reply_list(line: Seq<char>, key: Seq<char>) -> Result<Json, NiriReplyError> {
    match json_parse(trim(line)) {
        None => Err(NiriReplyError::NotJson),
        Some(v) => match json_get(v, "Err"@) {
            Some(_) => Err(NiriReplyError::Failed),
            None => match opt_json_get(json_get(v, "Ok"@), key) {
                Some(items) => Ok(items),
                None => Err(NiriReplyError::UnexpectedShape),
            },
        },
    }
}

/// The value of an optional lookup, dereferenced.
pub open spec fn deref_opt(j: Option<&Json>) -> Option<Json> {
    match j {
        Some(x) => Some(*x),
        None => None,
    }
}

/// A required `u64` field: present and a non-negative integer.
pub open spec fn u64_field(j: Option<Json>) -> Option<u64> {
    match j {
        Some(Json::Number(JsonNumber::PosInt(n))) => Some(n),
        _ => None,
    }
}

/// A required `bool` field.
pub open spec fn bool_field(j: Option<Json>) -> Option<bool> {
    match j {
        Some(Json::Bool(b)) => Some(b),
        _ => None,
    }
}

/// An optional string field: absent or `null` is `None`; a string is its
/// text; anything else cannot be read (outer `None`).
pub open spec fn opt_str_field(j: Option<Json>) -> Option<Option<Seq<char>>> {
    match j {
        None => Some(None),
        Some(Json::Null) => Some(None),
        Some(Json::Str(s)) => Some(Some(s@)),
        _ => None,
    }
}

/// An optional `u64` field, read as `opt_str_field` reads strings.
pub open spec fn opt_u64_field(j: Option<Json>) -> Option<Option<u64>> {
    match j {
        None => Some(None),
        Some(Json::Null) => Some(None),
        Some(Json::Number(JsonNumber::PosInt(n))) => Some(Some(n)),
        _ => None,
    }
}

/// A workspace record from its two fields.
pub open spec fn workspace_from(id: Option<Json>, focused: Option<Json>) -> Option<NiriWorkspace> {
    match (u64_field(id), bool_field(focused)) {
        (Some(i), Some(f)) => Some(NiriWorkspace { id: i, is_focused: f }),
        _ => None,
    }
}

/// A workspace record as serde reads one: an object with `id` and
/// `is_focused` (other members ignored), or an array of exactly those two
/// fields in order.
pub open spec fn workspace_of(j: Json) -> Option<NiriWorkspace> {
    match j {
        Json::Object(_) => workspace_from(json_get(j, "id"@), json_get(j, "is_focused"@)),
        Json::Array(xs) => if xs@.len() == 2 {
            workspace_from(Some(xs@[0]), Some(xs@[1]))
        } else {
            None
        },
        _ => None,
    }
}

/// The model of a window record: app id, workspace id, title.
pub open spec fn window_view(w: NiriWindow) -> (Option<Seq<char>>, Option<u64>, Option<Seq<char>>) {
    (
        match w.app_id {
            Some(a) => Some(a@),
            None => None,
        },
        w.workspace_id,
        match w.title {
            Some(t) => Some(t@),
            None => None,
        },
    )
}

/// A window record from its three fields.
pub open spec fn window_from(app_id: Option<Json>, workspace_id: Option<Json>, title: Option<Json>) -> Option<
    (Option<Seq<char>>, Option<u64>, Option<Seq<char>>),
> {
    match (opt_str_field(app_id), opt_u64_field(workspace_id), opt_str_field(title)) {
        (Some(a), Some(w), Some(t)) => Some((a, w, t)),
        _ => None,
    }
}

/// A window record as serde reads one: an object with the optional members
/// `app_id`, `workspace_id` and `title` (others ignored), or an array of
/// exactly those three fields in order.
pub open spec fn window_of(j: Json) -> Option<(Option<Seq<char>>, Option<u64>, Option<Seq<char>>)> {
    match j {
        Json::Object(_) => window_from(json_get(j, "app_id"@), json_get(j, "workspace_id"@), json_get(j, "title"@)),
        Json::Array(xs) => if xs@.len() == 3 {
            window_from(Some(xs@[0]), Some(xs@[1]), Some(xs@[2]))
        } else {
            None
        },
        _ => None,
    }
}

/// The workspaces of a list: an array whose every element is a workspace
/// record.
pub open spec fn workspace_list(items: Json) -> Option<Seq<NiriWorkspace>> {
    match items {
        Json::Array(xs) => if forall|k: int| 0 <= k < xs@.len() ==> (#[trigger] workspace_of(xs@[k])) is Some {
            Some(Seq::new(xs@.len(), |k: int| workspace_of(xs@[k])->0))
        } else {
            None
        },
        _ => None,
    }
}

/// The windows of a list: an array whose every element is a window record.
pub open spec fn window_list(items: Json) -> Option<Seq<(Option<Seq<char>>, Option<u64>, Option<Seq<char>>)>> {
    match items {
        Json::Array(xs) => if forall|k: int| 0 <= k < xs@.len() ==> (#[trigger] window_of(xs@[k])) is Some {
            Some(Seq::new(xs@.len(), |k: int| window_of(xs@[k])->0))
        } else {
            None
        },
        _ => None,
    }
}

fn workspace_from_json(id: Option<&Json>, focused: Option<&Json>) -> (r: Option<NiriWorkspace>)
    ensures
        r == workspace_from(deref_opt(id), deref_opt(focused)),
{
    let i = match id {
        Some(Json::Number(JsonNumber::PosInt(n))) => *n,
        _ => {
            return None;
        },
    };
    let f = match focused {
        Some(Json::Bool(b)) => *b,
        _ => {
            return None;
        },
    };
    Some(NiriWorkspace { id: i, is_focused: f })
}

fn opt_str_from_json(j: Option<&Json>) -> (r: Option<Option<String>>)
    ensures
        match opt_str_field(deref_opt(j)) {
            None => r is None,
            Some(None) => r == Some(None::<String>),
            Some(Some(s)) => r matches Some(Some(x)) && x@ == s,
        },
{
    match j {
        None => Some(None),
        Some(Json::Null) => Some(None),
        Some(Json::Str(s)) => Some(Some(s.clone())),
        _ => None,
    }
}

fn opt_u64_from_json(j: Option<&Json>) -> (r: Option<Option<u64>>)
    ensures
        r == opt_u64_field(deref_opt(j)),
{
    match j {
        None => Some(None),
        Some(Json::Null) => Some(None),
        Some(Json::Number(JsonNumber::PosInt(n))) => Some(Some(*n)),
        _ => None,
    }
}

fn window_from_json(app_id: Option<&Json>, workspace_id: Option<&Json>, title: Option<&Json>) -> (r: Option<NiriWindow>)
    ensures
        match window_from(deref_opt(app_id), deref_opt(workspace_id), deref_opt(title)) {
            None => r is None,
            Some(v) => r matches Some(w) && window_view(w) == v,
        },
{
    let a = match opt_str_from_json(app_id) {
        Some(a) => a,
        None => {
            return None;
        },
    };
    let w = match opt_u64_from_json(workspace_id) {
        Some(w) => w,
        None => {
            return None;
        },
    };
    let t = match opt_str_from_json(title) {
        Some(t) => t,
        None => {
            return None;
        },
    };
    Some(NiriWindow { app_id: a, workspace_id: w, title: t })
}

/// Reads a workspace record (see `workspace_of`).
pub fn workspace_of_json(j: &Json) -> (r: Option<NiriWorkspace>)
    ensures
        r == workspace_of(*j),
{
    match j {
        Json::Object(_) => workspace_from_json(j.get("id"), j.get("is_focused")),
        Json::Array(xs) => if xs.len() == 2 {
            workspace_from_json(Some(&xs[0]), Some(&xs[1]))
        } else {
            None
        },
        _ => None,
    }
}

/// Reads a window record (see `window_of`).
pub fn window_of_json(j: &Json) -> (r: Option<NiriWindow>)
    ensures
        match window_of(*j) {
            None => r is None,
            Some(v) => r matches Some(w) && window_view(w) == v,
        },
{
    match j {
        Json::Object(_) => window_from_json(j.get("app_id"), j.get("workspace_id"), j.get("title")),
        Json::Array(xs) => if xs.len() == 3 {
            window_from_json(Some(&xs[0]), Some(&xs[1]), Some(&xs[2]))
        } else {
            None
        },
        _ => None,
    }
}

fn workspace_list_of(items: &Json) -> (r: Option<Vec<NiriWorkspace>>)
    ensures
        match workspace_list(*items) {
            None => r is None,
            Some(ws) => r matches Some(v) && v@ == ws,
        },
{
    match items {
        Json::Array(xs) => {
            let mut found: Vec<NiriWorkspace> = Vec::new();
            let n = xs.len();
            for i in 0..n
                invariant
                    n == xs@.len(),
                    *items == Json::Array(*xs),
                    forall|k: int| 0 <= k < i ==> (#[trigger] workspace_of(xs@[k])) is Some,
                    found@ == Seq::new(i as nat, |k: int| workspace_of(xs@[k])->0),
            {
                match workspace_of_json(&xs[i]) {
                    Some(w) => {
                        found.push(w);
                        assert(found@ =~= Seq::new((i + 1) as nat, |k: int| workspace_of(xs@[k])->0));
                    },
                    None => {
                        assert(workspace_of(xs@[i as int]) is None);
                        return None;
                    },
                }
            }
            Some(found)
        },
        _ => None,
    }
}

fn window_list_of(items: &Json) -> (r: Option<Vec<NiriWindow>>)
    ensures
        match window_list(*items) {
            None => r is None,
            Some(ws) => r matches Some(v) && v@.map_values(|w: NiriWindow| window_view(w)) == ws,
        },
{
    match items {
        Json::Array(xs) => {
            let mut found: Vec<NiriWindow> = Vec::new();
            let n = xs.len();
            for i in 0..n
                invariant
                    n == xs@.len(),
                    *items == Json::Array(*xs),
                    forall|k: int| 0 <= k < i ==> (#[trigger] window_of(xs@[k])) is Some,
                    found@.len() == i,
                    forall|k: int| 0 <= k < i ==> window_view(#[trigger] found@[k]) == window_of(xs@[k])->0,
            {
                match window_of_json(&xs[i]) {
                    Some(w) => {
                        found.push(w);
                    },
                    None => {
                        assert(window_of(xs@[i as int]) is None);
                        return None;
                    },
                }
            }
            assert(found@.map_values(|w: NiriWindow| window_view(w)) =~= Seq::new(
                n as nat,
                |k: int| window_of(xs@[k])->0,
            ));
            Some(found)
        },
        _ => None,
    }
}

/// Reads niri's reply line to a `Workspaces` request (see `reply_list`,
/// `workspace_list`).
pub fn workspaces_reply(line: &str) -> (r: Result<Vec<NiriWorkspace>, NiriReplyError>)
    ensures
        match reply_list(line@, "Workspaces"@) {
            Err(e) => r == Err::<Vec<NiriWorkspace>, NiriReplyError>(e),
            Ok(items) => match workspace_list(items) {
                Some(ws) => r matches Ok(v) && v@ == ws,
                None => r == Err::<Vec<NiriWorkspace>, NiriReplyError>(NiriReplyError::BadItems),
            },
        },
{
    let t = trim_str(line);
    let val = match parse_json(t.as_str()) {
        Some(v) => v,
        None => {
            return Err(NiriReplyError::NotJson);
        },
    };
    match reply_items(&val, "Workspaces") {
        NiriReply::Failed(_) => Err(NiriReplyError::Failed),
        NiriReply::UnexpectedShape => Err(NiriReplyError::UnexpectedShape),
        NiriReply::Items(items) => match workspace_list_of(items) {
            Some(v) => Ok(v),
            None => Err(NiriReplyError::BadItems),
        },
    }
}

/// Reads niri's reply line to a `Windows` request (see `reply_list`,
/// `window_list`).
pub fn windows_reply(line: &str) -> (r: Result<Vec<NiriWindow>, NiriReplyError>)
    ensures
        match reply_list(line@, "Windows"@) {
            Err(e) => r == Err::<Vec<NiriWindow>, NiriReplyError>(e),
            Ok(items) => match window_list(items) {
                Some(ws) => r matches Ok(v) && v@.map_values(|w: NiriWindow| window_view(w)) == ws,
                None => r == Err::<Vec<NiriWindow>, NiriReplyError>(NiriReplyError::BadItems),
            },
        },
{
    let t = trim_str(line);
    let val = match parse_json(t.as_str()) {
        Some(v) => v,
        None => {
            return Err(NiriReplyError::NotJson);
        },
    };
    match reply_items(&val, "Windows") {
        NiriReply::Failed(_) => Err(NiriReplyError::Failed),
        NiriReply::UnexpectedShape => Err(NiriReplyError::UnexpectedShape),
        NiriReply::Items(items) => match window_list_of(items) {
            Some(v) => Ok(v),
            None => Err(NiriReplyError::BadItems),
        },
    }
}

/// What `purse-niri` writes to a Purse socket for a list of files: one path
/// per line.
pub open spec fn forward_text(paths: Seq<String>) -> Seq<char>
    decreases paths.len(),
{
    if paths.len() == 0 {
        Seq::empty()
    } else {
        forward_text(paths.drop_last()) + paths.last()@ + seq!['\n']
    }
}

/// The bytes sent to a running Purse: each path followed by a newline.
pub fn forward_payload(paths: &Vec<String>) -> (r: String)
    ensures
        r@ == forward_text(paths@),
{
    let mut r = String::new();
    let n = paths.len();
    for i in 0..n
        invariant
            n == paths.len(),
            r@ == forward_text(paths@.take(i as int)),
    {
        assert(paths@.take(i + 1).drop_last() =~= paths@.take(i as int));
        r.append(paths[i].as_str());
        r.append("\n");
        proof {
            reveal_strlit("\n");
        }
    }
    assert(paths@.take(n as int) =~= paths@);
    r
}

} // verus!
