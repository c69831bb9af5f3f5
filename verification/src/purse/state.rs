//! Purse's own state: an append-only list of items indexed by id, plus the
//! hovered item. Ingestion, dismissal, hover and preview updates are
//! decisions on this state; widgets only reflect it.
use vstd::prelude::*;
use crate::purse::ipc::TransientPayload;

verus! {

/// An item's index in `PurseState::items`, stable for the process' life.
pub type ItemId = usize;

/// A preview ready to show.
#[derive(Debug)]
pub enum PreviewPayload {
    /// Text lines to show in a source view.
    Text { content: String },
    /// The path of a thumbnail image.
    Image(String),
    /// The name of a themed icon.
    Icon { name: String },
}

impl Clone for PreviewPayload {
    fn clone(&self) -> (r: Self)
        ensures
            r == *self,
    {
        match self {
            PreviewPayload::Text { content } => PreviewPayload::Text { content: content.clone() },
            PreviewPayload::Image(p) => PreviewPayload::Image(p.clone()),
            PreviewPayload::Icon { name } => PreviewPayload::Icon { name: name.clone() },
        }
    }
}

/// Where an item's preview stands.
#[derive(Debug)]
pub enum PreviewState {
    Pending,
    Ready(PreviewPayload),
    Failed,
}

/// What an item is.
#[derive(Debug)]
pub enum ItemKind {
    /// A file, by canonical path, with the position it was sent with.
    File { path: String, mime: String, line: Option<u32>, col: Option<u32> },
    /// A snippet sent over IPC, identified by `uuid`.
    Transient { uuid: String, label: String, content: String },
}

/// One held item. `selected == false` marks a dismissed item (a tombstone).
#[derive(Debug)]
pub struct Item {
    pub id: ItemId,
    pub preview: PreviewState,
    pub selected: bool,
    pub kind: ItemKind,
}

/// A preview computed off the main thread, for item `id`.
#[derive(Debug)]
pub struct PreviewResult {
    pub id: ItemId,
    pub payload: Result<PreviewPayload, ()>,
}

/// The tray's state: items in arrival order, and the hovered item.
#[derive(Debug)]
pub struct PurseState {
    pub items: Vec<Item>,
    pub hover: Option<ItemId>,
}

/// What ingesting a transient snippet did.
#[derive(Debug, Clone, Copy, PartialEq, Eq)]
pub enum TransientOutcome {
    /// The snippet with this uuid was dismissed (its content was empty).
    Dismissed(ItemId),
    /// The snippet with this uuid got the new label and content.
    Updated(ItemId),
    /// A delete for a uuid that is not held: nothing to do.
    Ignored,
    /// A new snippet was appended.
    Added(ItemId),
}

/// The first item at or after `i` that is the file `path`.
pub open spec fn file_index_from(items: Seq<Item>, path: Seq<char>, i: int) -> Option<int>
    decreases items.len() - i,
{
    if i < 0 || i >= items.len() {
        None
    } else if items[i].kind matches ItemKind::File { path: p, .. } && p@ == path {
        Some(i)
    } else {
        file_index_from(items, path, i + 1)
    }
}

/// The item that holds file `path`, if any (dismissed items included).
pub open spec fn file_index(items: Seq<Item>, path: Seq<char>) -> Option<int> {
    file_index_from(items, path, 0)
}

/// The first item at or after `i` that is the snippet `uuid`.
pub open spec fn transient_index_from(items: Seq<Item>, uuid: Seq<char>, i: int) -> Option<int>
    decreases items.len() - i,
{
    if i < 0 || i >= items.len() {
        None
    } else if items[i].kind matches ItemKind::Transient { uuid: u, .. } && u@ == uuid {
        Some(i)
    } else {
        transient_index_from(items, uuid, i + 1)
    }
}

/// The item that holds snippet `uuid`, if any.
pub open spec fn transient_index(items: Seq<Item>, uuid: Seq<char>) -> Option<int> {
    transient_index_from(items, uuid, 0)
}

/// Whether `it` is the snippet `uuid`.
pub open spec fn is_transient_item(it: Item, uuid: Seq<char>) -> bool {
    it.kind matches ItemKind::Transient { uuid: u, .. } && u@ == uuid
}

/// Whether `it` is the file `path`.
pub open spec fn is_file_item(it: Item, path: Seq<char>) -> bool {
    it.kind matches ItemKind::File { path: p, .. } && p@ == path
}

/// What `transient_index_from` reports is a matching item at or after `i`,
/// and no earlier one matches.
pub proof fn lemma_transient_index_from(items: Seq<Item>, uuid: Seq<char>, i: int)
    requires
        0 <= i,
    ensures
        match transient_index_from(items, uuid, i) {
            Some(k) => i <= k < items.len() && is_transient_item(items[k], uuid),
            None => forall|k: int| i <= k < items.len() ==> !is_transient_item(#[trigger] items[k], uuid),
        },
    decreases items.len() - i,
{
    if i < items.len() && !is_transient_item(items[i], uuid) {
        lemma_transient_index_from(items, uuid, i + 1);
    }
}

/// What `file_index_from` reports is a matching item at or after `i`, and
/// no earlier one matches.
pub proof fn lemma_file_index_from(items: Seq<Item>, path: Seq<char>, i: int)
    requires
        0 <= i,
    ensures
        match file_index_from(items, path, i) {
            Some(k) => i <= k < items.len() && is_file_item(items[k], path)
                && forall|m: int| i <= m < k ==> !is_file_item(#[trigger] items[m], path),
            None => forall|k: int| i <= k < items.len() ==> !is_file_item(#[trigger] items[k], path),
        },
    decreases items.len() - i,
{
    if i < items.len() && !is_file_item(items[i], path) {
        lemma_file_index_from(items, path, i + 1);
    }
}

/// The hover after the pointer leaves item `id`.
pub open spec fn hover_after_leave(hover: Option<ItemId>, id: ItemId) -> Option<ItemId> {
    if hover == Some(id) {
        None
    } else {
        hover
    }
}

/// Entering a cell and leaving it again clears the hover; leaving a cell
/// other than the hovered one keeps the hover.
pub proof fn law_hover_enter_leave(id: ItemId, other: ItemId)
    requires
        other != id,
    ensures
        hover_after_leave(Some(id), id) is None,
        hover_after_leave(Some(id), other) == Some(id),
{
}

/// Items are only ever appended, so lookups by path are stable: a file that
/// is held is still found at the same item after more items arrive, and a
/// file item appended for a path not yet held is found at its new index.
/// Hence ingesting the same canonical path twice holds it once.
pub proof fn law_file_lookup_after_append(items: Seq<Item>, extra: Item, path: Seq<char>)
    ensures
        file_index(items.push(extra), path) == (match file_index(items, path) {
            Some(i) => Some(i),
            None => if is_file_item(extra, path) {
                Some(items.len() as int)
            } else {
                None
            },
        }),
{
    let s2 = items.push(extra);
    lemma_file_index_from(items, path, 0);
    lemma_file_index_from(s2, path, 0);
    match file_index(items, path) {
        Some(i) => {
            assert(s2[i] == items[i]);
            match file_index(s2, path) {
                Some(k) => {
                    if k < i {
                        assert(s2[k] == items[k]);
                    }
                },
                None => {},
            }
        },
        None => {
            match file_index(s2, path) {
                Some(k) => {
                    if k < items.len() {
                        assert(s2[k] == items[k]);
                    }
                },
                None => {
                    assert(s2[items.len() as int] == extra);
                },
            }
        },
    }
}

/// The items after a file `path` is ingested: unchanged when the path is
/// already held (dismissed or not), else one selected file item for it,
/// preview pending, appended.
pub open spec fn ingested_file(before: Seq<Item>, after: Seq<Item>, path: Seq<char>) -> bool {
    match file_index(before, path) {
        Some(_) => after == before,
        None => {
            &&& after.len() == before.len() + 1
            &&& after.drop_last() == before
            &&& is_file_item(after.last(), path)
            &&& after.last().id == before.len()
            &&& after.last().selected
            &&& after.last().preview is Pending
        },
    }
}

/// A canonical path is held once: after a file is ingested it is held, and
/// ingesting it again changes nothing.
pub proof fn law_ingest_file_holds_once(s0: Seq<Item>, s1: Seq<Item>, s2: Seq<Item>, path: Seq<char>)
    requires
        ingested_file(s0, s1, path),
        ingested_file(s1, s2, path),
    ensures
        file_index(s1, path) is Some,
        s2 == s1,
{
    if file_index(s0, path) is None {
        assert(s1 =~= s0.push(s1.last()));
        law_file_lookup_after_append(s0, s1.last(), path);
    }
}

/// What identifies an item: a file by its path, a snippet by its uuid.
pub open spec fn item_key(it: Item) -> (bool, Seq<char>) {
    match it.kind {
        ItemKind::File { path, .. } => (true, path@),
        ItemKind::Transient { uuid, .. } => (false, uuid@),
    }
}

/// No two items are the same file or the same snippet.
pub open spec fn keys_distinct(items: Seq<Item>) -> bool {
    forall|i: int, j: int| 0 <= i < j < items.len() ==> item_key(#[trigger] items[i]) != item_key(#[trigger] items[j])
}

proof fn lemma_push_keeps_distinct(items: Seq<Item>, extra: Item)
    requires
        keys_distinct(items),
        forall|k: int| 0 <= k < items.len() ==> item_key(#[trigger] items[k]) != item_key(extra),
    ensures
        keys_distinct(items.push(extra)),
{
    let s = items.push(extra);
    assert forall|i: int, j: int| 0 <= i < j < s.len() implies item_key(#[trigger] s[i]) != item_key(#[trigger] s[j]) by {
        assert(s[i] == items[i]);
        if j < items.len() {
            assert(s[j] == items[j]);
        }
    }
}

proof fn lemma_update_keeps_distinct(items: Seq<Item>, i: int, new: Item)
    requires
        keys_distinct(items),
        0 <= i < items.len(),
        item_key(new) == item_key(items[i]),
    ensures
        keys_distinct(items.update(i, new)),
{
    let s = items.update(i, new);
    assert forall|a: int, b: int| 0 <= a < b < s.len() implies item_key(#[trigger] s[a]) != item_key(#[trigger] s[b]) by {
        assert(item_key(s[a]) == item_key(items[a]));
        assert(item_key(s[b]) == item_key(items[b]));
    }
}

/// Every item's id is its index.
pub open spec fn items_wf(items: Seq<Item>) -> bool {
    forall|i: int| 0 <= i < items.len() ==> (#[trigger] items[i]).id == i
}

/// `after` is `before` grown by at most one item at the end, every held
/// item keeping its id and identity (a file its whole kind), and no item
/// selected again once dismissed.
pub open spec fn grows_from(before: Seq<Item>, after: Seq<Item>) -> bool {
    &&& after.len() == before.len() || after.len() == before.len() + 1
    &&& forall|i: int|
        0 <= i < before.len() ==> {
            &&& (#[trigger] after[i]).id == before[i].id
            &&& item_key(after[i]) == item_key(before[i])
            &&& (before[i].kind is File ==> after[i].kind == before[i].kind)
            &&& (after[i].selected ==> before[i].selected)
        }
}

/// What one ingestion step keeps: ids are indices, no two items are the
/// same file or snippet (when none were before), and the list only grows.
pub open spec fn ingest_outcome(before: Seq<Item>, after: Seq<Item>) -> bool {
    &&& items_wf(after)
    &&& keys_distinct(before) ==> keys_distinct(after)
    &&& grows_from(before, after)
}

/// Items grow by at most one item a step: over several steps, from a
/// longer list.
pub open spec fn grows_over(before: Seq<Item>, after: Seq<Item>) -> bool {
    &&& before.len() <= after.len()
    &&& forall|i: int|
        0 <= i < before.len() ==> {
            &&& (#[trigger] after[i]).id == before[i].id
            &&& item_key(after[i]) == item_key(before[i])
            &&& (before[i].kind is File ==> after[i].kind == before[i].kind)
            &&& (after[i].selected ==> before[i].selected)
        }
}

/// The ingestion invariant: through any run of ingestion steps (files and
/// snippets, each as `ingest_file` or `ingest_transient` ensures), ids stay
/// the items' indices, file paths and snippet uuids stay pairwise distinct,
/// and no item is removed, reordered, given another id or identity, or
/// selected again once dismissed.
pub proof fn law_ingest_invariant(states: Seq<Seq<Item>>)
    requires
        states.len() > 0,
        items_wf(states[0]),
        keys_distinct(states[0]),
        forall|k: int| 0 <= k < states.len() - 1 ==> ingest_outcome(#[trigger] states[k], states[k + 1]),
    ensures
        items_wf(states.last()),
        keys_distinct(states.last()),
        grows_over(states[0], states.last()),
    decreases states.len(),
{
    if states.len() > 1 {
        let front = states.drop_last();
        assert forall|k: int| 0 <= k < front.len() - 1 implies ingest_outcome(#[trigger] front[k], front[k + 1]) by {
            assert(front[k] == states[k] && front[k + 1] == states[k + 1]);
            assert(ingest_outcome(states[k], states[k + 1]));
        }
        law_ingest_invariant(front);
        let m = front.last();
        assert(m == states[states.len() - 2]);
        assert(ingest_outcome(states[states.len() - 2], states.last()));
        assert(front[0] == states[0]);
    }
}

/// A file is held only by an item with exactly that path: the item that
/// `file_index` reports is a file item whose path is that text, and the
/// earliest one; when it reports none, no file item has that path
/// (whatever the held files are named otherwise).
pub proof fn law_file_index_exact(items: Seq<Item>, path: Seq<char>)
    ensures
        match file_index(items, path) {
            Some(i) => 0 <= i < items.len() && (items[i].kind matches ItemKind::File { path: p, .. } && p@
                == path) && forall|j: int|
                0 <= j < i ==> !((#[trigger] items[j]).kind matches ItemKind::File { path: q, .. } && q@
                    == path),
            None => forall|k: int|
                0 <= k < items.len() ==> !((#[trigger] items[k]).kind matches ItemKind::File { path: q, .. }
                    && q@ == path),
        },
{
    lemma_file_index_from(items, path, 0);
    match file_index(items, path) {
        Some(i) => {
            assert forall|j: int| 0 <= j < i implies !((#[trigger] items[j]).kind matches ItemKind::File {
                path: q,
                ..
            } && q@ == path) by {
                assert(!is_file_item(items[j], path));
            }
        },
        None => {
            assert forall|k: int| 0 <= k < items.len() implies !((#[trigger] items[k]).kind matches ItemKind::File {
                path: q,
                ..
            } && q@ == path) by {
                assert(!is_file_item(items[k], path));
            }
        },
    }
}

/// Whether `it` is a selected file item (one that Enter dispatches).
pub open spec fn is_selected_file(it: Item) -> bool {
    it.selected && it.kind is File
}

/// What Enter dispatches for a file item: its path and the position it
/// was sent with.
pub open spec fn file_target(it: Item) -> (Seq<char>, Option<u32>, Option<u32>) {
    (it.kind->path@, it.kind->line, it.kind->col)
}

/// Enter dispatches every selected file item, whatever its position (a
/// file sent without a line goes too), and nothing else: the targets are
/// the selected file items in arrival order, each with its path and the
/// position it was sent with.
pub proof fn law_selected_files_are_all_targets(items: Seq<Item>)
    ensures
        selected_files(items) == items.filter(|it: Item| is_selected_file(it)).map_values(
            |it: Item| file_target(it),
        ),
    decreases items.len(),
{
    let f = |it: Item| is_selected_file(it);
    let g = |it: Item| file_target(it);
    reveal(Seq::filter);
    if items.len() > 0 {
        law_selected_files_are_all_targets(items.drop_last());
        let front = items.drop_last().filter(f);
        if f(items.last()) {
            assert(items.filter(f) == front.push(items.last()));
            assert(front.push(items.last()).map_values(g) =~= front.map_values(g).push(g(items.last())));
        } else {
            assert(items.filter(f) == front);
        }
    } else {
        assert(items.filter(f) =~= Seq::<Item>::empty());
        assert(items.filter(f).map_values(g) =~= Seq::empty());
    }
}

/// The files among `items` that are selected, in order, with the position
/// each was sent with.
pub open spec fn selected_files(items: Seq<Item>) -> Seq<(Seq<char>, Option<u32>, Option<u32>)>
    decreases items.len(),
{
    if items.len() == 0 {
        Seq::empty()
    } else {
        let front = selected_files(items.drop_last());
        let it = items.last();
        match it.kind {
            ItemKind::File { path, line, col, .. } => if it.selected {
                front.push((path@, line, col))
            } else {
                front
            },
            _ => front,
        }
    }
}

/// The text of the targets `selected_targets` returns.
pub open spec fn targets_text(t: Seq<(String, Option<u32>, Option<u32>)>) -> Seq<(Seq<char>, Option<u32>, Option<u32>)> {
    t.map_values(|x: (String, Option<u32>, Option<u32>)| (x.0@, x.1, x.2))
}

/// The item that replaces `it` when only its `selected` flag changes.
pub open spec fn with_selected(it: Item, selected: bool) -> Item {
    Item { id: it.id, preview: it.preview, selected, kind: it.kind }
}

impl PurseState {
    /// Well-formed: every item's id is its index.
    pub open spec fn wf(&self) -> bool {
        forall|i: int| 0 <= i < self.items@.len() ==> (#[trigger] self.items@[i]).id == i
    }

    /// An empty tray.
    pub fn new() -> (r: Self)
        ensures
            r.wf(),
            r.items@.len() == 0,
            r.hover is None,
    {
        PurseState { items: Vec::new(), hover: None }
    }

    /// The item holding file `path`, if any: ingestion holds each canonical
    /// path once.
    pub fn find_file(&self, path: &str) -> (r: Option<ItemId>)
        ensures
            match file_index(self.items@, path@) {
                Some(i) => r == Some(i as usize),
                None => r is None,
            },
            match r {
                Some(i) => i < self.items@.len() && (self.items@[i as int].kind matches ItemKind::File {
                    path: p,
                    ..
                } && p@ == path@),
                None => forall|k: int|
                    0 <= k < self.items@.len() ==> !((#[trigger] self.items@[k]).kind matches ItemKind::File {
                        path: q,
                        ..
                    } && q@ == path@),
            },
    {
        proof {
            law_file_index_exact(self.items@, path@);
        }
        let n = self.items.len();
        let mut i: usize = 0;
        while i < n
            invariant
                n == self.items@.len(),
                i <= n,
                file_index(self.items@, path@) == file_index_from(self.items@, path@, i as int),
            decreases n - i,
        {
            match &self.items[i].kind {
                ItemKind::File { path: p, .. } => {
                    if crate::text::str_eq(p.as_str(), path) {
                        return Some(i);
                    }
                },
                _ => {},
            }
            i = i + 1;
        }
        None
    }

    /// The item holding snippet `uuid`, if any.
    pub fn find_transient(&self, uuid: &str) -> (r: Option<ItemId>)
        ensures
            match transient_index(self.items@, uuid@) {
                Some(i) => r == Some(i as usize),
                None => r is None,
            },
    {
        let n = self.items.len();
        let mut i: usize = 0;
        while i < n
            invariant
                n == self.items@.len(),
                i <= n,
                transient_index(self.items@, uuid@) == transient_index_from(
                    self.items@,
                    uuid@,
                    i as int,
                ),
            decreases n - i,
        {
            match &self.items[i].kind {
                ItemKind::Transient { uuid: u, .. } => {
                    if crate::text::str_eq(u.as_str(), uuid) {
                        return Some(i);
                    }
                },
                _ => {},
            }
            i = i + 1;
        }
        None
    }

    /// Appends a new file item: selected, preview pending. Its id is the
    /// next index.
    pub fn add_file(&mut self, path: String, mime: String, line: Option<u32>, col: Option<u32>) -> (id: ItemId)
        requires
            old(self).wf(),
            old(self).items@.len() < usize::MAX,
        ensures
            final(self).wf(),
            id == old(self).items@.len(),
            final(self).items@ == old(self).items@.push(
                Item {
                    id,
                    preview: PreviewState::Pending,
                    selected: true,
                    kind: ItemKind::File { path, mime, line, col },
                },
            ),
            final(self).hover == old(self).hover,
    {
        let id = self.items.len();
        self.items.push(
            Item {
                id,
                preview: PreviewState::Pending,
                selected: true,
                kind: ItemKind::File { path, mime, line, col },
            },
        );
        id
    }

    /// Ingests a file by its canonical path, sent with an optional
    /// position. A path that is already held is left as it is (`None`);
    /// otherwise its MIME type is asked of `mime_of` (which sniffs the file)
    /// and a new item is appended, whose id is returned.
    pub fn ingest_file<M: Fn(&str) -> String>(
        &mut self,
        path: String,
        line: Option<u32>,
        col: Option<u32>,
        mime_of: M,
    ) -> (r: Option<ItemId>)
        requires
            old(self).wf(),
            old(self).items@.len() < usize::MAX,
            forall|p: &str| mime_of.requires((p,)),
        ensures
            final(self).wf(),
            final(self).hover == old(self).hover,
            ingested_file(old(self).items@, final(self).items@, path@),
            keys_distinct(old(self).items@) ==> keys_distinct(final(self).items@),
            ingest_outcome(old(self).items@, final(self).items@),
            match file_index(old(self).items@, path@) {
                Some(_) => r is None,
                None => r == Some(old(self).items@.len() as usize) && (final(self).items@.last().kind matches ItemKind::File { path: p, mime: m, line: l, col: c } && p == path && l == line && c == col
                    && exists|t: &str| t@ == path@ && mime_of.ensures((t,), m)),
            },
    {
        match self.find_file(path.as_str()) {
            Some(_) => None,
            None => {
                let ps = path.as_str();
                let mime = mime_of(ps);
                assert(mime_of.ensures((ps,), mime));
                let ghost before = self.items@;
                proof {
                    lemma_file_index_from(before, path@, 0);
                }
                let id = self.add_file(path, mime, line, col);
                assert(self.items@.drop_last() =~= old(self).items@);
                proof {
                    if keys_distinct(before) {
                        assert forall|k: int| 0 <= k < before.len() implies item_key(#[trigger] before[k])
                            != item_key(self.items@.last()) by {
                            assert(!is_file_item(before[k], self.items@.last().kind->File_path@));
                        }
                        lemma_push_keeps_distinct(before, self.items@.last());
                    }
                }
                Some(id)
            },
        }
    }

    /// Dismisses an item (single click): it stays as a tombstone with
    /// `selected == false`.
    pub fn dismiss(&mut self, id: ItemId)
        requires
            old(self).wf(),
            id < old(self).items@.len(),
        ensures
            final(self).wf(),
            final(self).items@ == old(self).items@.update(
                id as int,
                with_selected(old(self).items@[id as int], false),
            ),
            final(self).hover == old(self).hover,
    {
        self.items[id].selected = false;
    }

    /// Ingests a transient snippet. A held uuid with empty content is
    /// dismissed; a held uuid with content gets the new label and content;
    /// a delete for an unknown uuid is ignored; otherwise the snippet is
    /// appended, selected, with its content as a ready text preview.
    pub fn ingest_transient(&mut self, payload: TransientPayload) -> (r: TransientOutcome)
        requires
            old(self).wf(),
            old(self).items@.len() < usize::MAX,
        ensures
            final(self).wf(),
            final(self).hover == old(self).hover,
            keys_distinct(old(self).items@) ==> keys_distinct(final(self).items@),
            ingest_outcome(old(self).items@, final(self).items@),
            match transient_index(old(self).items@, payload.uuid@) {
                Some(i) => if payload.content@.len() == 0 {
                    r == TransientOutcome::Dismissed(i as usize) && final(self).items@
                        == old(self).items@.update(i, with_selected(old(self).items@[i], false))
                } else {
                    r == TransientOutcome::Updated(i as usize) && final(self).items@
                        == old(self).items@.update(
                        i,
                        Item {
                            id: old(self).items@[i].id,
                            preview: old(self).items@[i].preview,
                            selected: old(self).items@[i].selected,
                            kind: ItemKind::Transient {
                                uuid: payload.uuid,
                                label: payload.label,
                                content: payload.content,
                            },
                        },
                    )
                },
                None => if payload.content@.len() == 0 {
                    r == TransientOutcome::Ignored && final(self).items@ == old(self).items@
                } else {
                    r == TransientOutcome::Added(old(self).items@.len() as usize)
                        && final(self).items@ == old(self).items@.push(
                        Item {
                            id: old(self).items@.len() as usize,
                            preview: PreviewState::Ready(
                                PreviewPayload::Text { content: payload.content },
                            ),
                            selected: true,
                            kind: ItemKind::Transient {
                                uuid: payload.uuid,
                                label: payload.label,
                                content: payload.content,
                            },
                        },
                    )
                },
            },
    {
        let existing = self.find_transient(payload.uuid.as_str());
        let ghost before = self.items@;
        let ghost uuid = payload.uuid@;
        proof {
            lemma_transient_index_from(self.items@, payload.uuid@, 0);
        }
        let is_delete = payload.content.as_str().is_empty();
        match existing {
            Some(id) => {
                if is_delete {
                    self.items[id].selected = false;
                    proof {
                        if keys_distinct(before) {
                            lemma_update_keeps_distinct(before, id as int, with_selected(before[id as int], false));
                            assert(self.items@ =~= before.update(id as int, with_selected(before[id as int], false)));
                        }
                    }
                    TransientOutcome::Dismissed(id)
                } else {
                    self.items[id].kind = ItemKind::Transient {
                        uuid: payload.uuid,
                        label: payload.label,
                        content: payload.content,
                    };
                    proof {
                        if keys_distinct(before) {
                            assert(item_key(self.items@[id as int]) == (false, uuid));
                            lemma_update_keeps_distinct(before, id as int, self.items@[id as int]);
                            assert(self.items@ =~= before.update(id as int, self.items@[id as int]));
                        }
                    }
                    TransientOutcome::Updated(id)
                }
            },
            None => {
                if is_delete {
                    TransientOutcome::Ignored
                } else {
                    let id = self.items.len();
                    let shown = payload.content.clone();
                    self.items.push(
                        Item {
                            id,
                            preview: PreviewState::Ready(PreviewPayload::Text { content: shown }),
                            selected: true,
                            kind: ItemKind::Transient {
                                uuid: payload.uuid,
                                label: payload.label,
                                content: payload.content,
                            },
                        },
                    );
                    proof {
                        if keys_distinct(before) {
                            assert forall|k: int| 0 <= k < before.len() implies item_key(#[trigger] before[k])
                                != item_key(self.items@.last()) by {
                                assert(!is_transient_item(before[k], uuid));
                            }
                            assert(self.items@ =~= before.push(self.items@.last()));
                            lemma_push_keeps_distinct(before, self.items@.last());
                        }
                    }
                    TransientOutcome::Added(id)
                }
            },
        }
    }

    /// The pointer entered the cell of item `id`.
    pub fn hover_enter(&mut self, id: ItemId)
        ensures
            final(self).hover == Some(id),
            final(self).items == old(self).items,
    {
        self.hover = Some(id);
    }

    /// The pointer left the cell of item `id`: the hover is cleared only if
    /// it was on that item.
    pub fn hover_leave(&mut self, id: ItemId)
        ensures
            final(self).hover == hover_after_leave(old(self).hover, id),
            final(self).items == old(self).items,
    {
        if self.hover == Some(id) {
            self.hover = None;
        }
        assert(final(self).hover == hover_after_leave(old(self).hover, id));
    }

    /// Records a finished preview: a ready one is stored as `Ready`, a
    /// failed one as `Failed`. Returns what the cell is to show: the
    /// preview, or for a failed one the generic text icon.
    pub fn apply_preview(&mut self, result: PreviewResult) -> (shown: PreviewPayload)
        requires
            old(self).wf(),
            result.id < old(self).items@.len(),
        ensures
            final(self).wf(),
            final(self).hover == old(self).hover,
            match result.payload {
                Ok(p) => shown == p,
                Err(_) => shown matches PreviewPayload::Icon { name } && name@ == "text-x-generic"@,
            },
            final(self).items@ == old(self).items@.update(
                result.id as int,
                Item {
                    id: old(self).items@[result.id as int].id,
                    preview: match result.payload {
                        Ok(_) => PreviewState::Ready(shown),
                        Err(_) => PreviewState::Failed,
                    },
                    selected: old(self).items@[result.id as int].selected,
                    kind: old(self).items@[result.id as int].kind,
                },
            ),
    {
        match result.payload {
            Ok(p) => {
                self.items[result.id].preview = PreviewState::Ready(p.clone());
                p
            },
            Err(()) => {
                self.items[result.id].preview = PreviewState::Failed;
                PreviewPayload::Icon { name: crate::text::own("text-x-generic") }
            },
        }
    }

    /// The files that Enter dispatches: the selected file items, in
    /// arrival order, each with the position it was sent with.
    pub fn selected_targets(&self) -> (r: Vec<(String, Option<u32>, Option<u32>)>)
        ensures
            targets_text(r@) == selected_files(self.items@),
            targets_text(r@) == self.items@.filter(|it: Item| is_selected_file(it)).map_values(
                |it: Item| file_target(it),
            ),
    {
        proof {
            law_selected_files_are_all_targets(self.items@);
        }
        let mut r: Vec<(String, Option<u32>, Option<u32>)> = Vec::new();
        let n = self.items.len();
        for i in 0..n
            invariant
                n == self.items@.len(),
                targets_text(r@) == selected_files(self.items@.take(i as int)),
        {
            assert(self.items@.take(i + 1).drop_last() =~= self.items@.take(i as int));
            let it = &self.items[i];
            match &it.kind {
                ItemKind::File { path, line, col, .. } => {
                    if it.selected {
                        let ghost before = r@;
                        r.push((path.clone(), *line, *col));
                        assert(targets_text(r@) =~= targets_text(before).push((path@, *line, *col)));
                    }
                },
                _ => {},
            }
        }
        assert(self.items@.take(n as int) =~= self.items@);
        r
    }

    /// The path of the hovered item, when it is a file (what Ctrl+C copies).
    pub fn hovered_path(&self) -> (r: Option<String>)
        ensures
            match self.hover {
                Some(id) => if id < self.items@.len() {
                    match self.items@[id as int].kind {
                        ItemKind::File { path, .. } => r matches Some(p) && p@ == path@,
                        _ => r is None,
                    }
                } else {
                    r is None
                },
                None => r is None,
            },
    {
        match self.hover {
            Some(id) => {
                if id < self.items.len() {
                    match &self.items[id].kind {
                        ItemKind::File { path, .. } => Some(path.clone()),
                        _ => None,
                    }
                } else {
                    None
                }
            },
            None => None,
        }
    }

    /// What a double click on item `id` opens: the file and the position it
    /// was sent with; nothing for a snippet.
    pub fn open_target(&self, id: ItemId) -> (r: Option<(String, Option<u32>, Option<u32>)>)
        requires
            id < self.items@.len(),
        ensures
            match self.items@[id as int].kind {
                ItemKind::File { path, line, col, .. } => r matches Some(t) && t.0@ == path@ && t.1
                    == line && t.2 == col,
                _ => r is None,
            },
    {
        match &self.items[id].kind {
            ItemKind::File { path, line, col, .. } => Some((path.clone(), *line, *col)),
            _ => None,
        }
    }
}

} // verus!
