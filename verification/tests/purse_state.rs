use future_work::purse::ipc::TransientPayload;
use future_work::purse::state::{
    ItemKind, PreviewPayload, PreviewResult, PreviewState, PurseState, TransientOutcome,
};

fn snippet(uuid: &str, label: &str, content: &str) -> TransientPayload {
    TransientPayload { uuid: uuid.to_string(), label: label.to_string(), content: content.to_string() }
}

fn file_state() -> PurseState {
    let mut st = PurseState::new();
    st.add_file("/a.txt".to_string(), "text/plain".to_string(), None, None);
    st.add_file("/b.rs".to_string(), "text/rust".to_string(), Some(3), Some(4));
    st
}

#[test]
fn new_state_is_empty() {
    let st = PurseState::new();
    assert!(st.items.is_empty());
    assert!(st.hover.is_none());
}

#[test]
fn added_files_get_consecutive_ids() {
    let mut st = PurseState::new();
    assert_eq!(st.add_file("/a".to_string(), "m".to_string(), None, None), 0);
    assert_eq!(st.add_file("/b".to_string(), "m".to_string(), Some(1), None), 1);
    assert_eq!(st.items[1].id, 1);
    assert!(st.items[1].selected);
    assert!(matches!(st.items[1].preview, PreviewState::Pending));
}

#[test]
fn find_file_after_append() {
    let mut st = file_state();
    assert_eq!(st.find_file("/b.rs"), Some(1));
    assert_eq!(st.find_file("/c"), None);
    st.add_file("/c".to_string(), "m".to_string(), None, None);
    assert_eq!(st.find_file("/b.rs"), Some(1));
    assert_eq!(st.find_file("/c"), Some(2));
}

#[test]
fn dismiss_leaves_a_tombstone() {
    let mut st = file_state();
    st.dismiss(0);
    assert_eq!(st.items.len(), 2);
    assert!(!st.items[0].selected);
    assert!(st.items[1].selected);
    assert_eq!(st.find_file("/a.txt"), Some(0));
}

#[test]
fn new_snippet_is_added_with_text_preview() {
    let mut st = file_state();
    assert_eq!(st.ingest_transient(snippet("u1", "Note", "hello")), TransientOutcome::Added(2));
    match &st.items[2].preview {
        PreviewState::Ready(PreviewPayload::Text { content }) => assert_eq!(content, "hello"),
        other => panic!("unexpected {:?}", other),
    }
    assert_eq!(st.find_transient("u1"), Some(2));
}

#[test]
fn snippet_update_and_delete() {
    let mut st = PurseState::new();
    st.ingest_transient(snippet("u1", "Note", "hello"));
    assert_eq!(st.ingest_transient(snippet("u1", "Renamed", "bye")), TransientOutcome::Updated(0));
    match &st.items[0].kind {
        ItemKind::Transient { label, content, .. } => {
            assert_eq!(label, "Renamed");
            assert_eq!(content, "bye");
        },
        other => panic!("unexpected {:?}", other),
    }
    assert_eq!(st.ingest_transient(snippet("u1", "", "")), TransientOutcome::Dismissed(0));
    assert!(!st.items[0].selected);
    assert_eq!(st.items.len(), 1);
}

#[test]
fn delete_of_unknown_snippet_is_ignored() {
    let mut st = file_state();
    assert_eq!(st.ingest_transient(snippet("nope", "x", "")), TransientOutcome::Ignored);
    assert_eq!(st.items.len(), 2);
}

#[test]
fn hover_enter_then_leave_clears() {
    let mut st = file_state();
    st.hover_enter(1);
    assert_eq!(st.hover, Some(1));
    st.hover_leave(0);
    assert_eq!(st.hover, Some(1));
    st.hover_leave(1);
    assert_eq!(st.hover, None);
}

#[test]
fn hovered_path_is_for_files_only() {
    let mut st = file_state();
    st.ingest_transient(snippet("u", "l", "c"));
    assert_eq!(st.hovered_path(), None);
    st.hover_enter(1);
    assert_eq!(st.hovered_path().as_deref(), Some("/b.rs"));
    st.hover_enter(2);
    assert_eq!(st.hovered_path(), None);
    st.hover_enter(40);
    assert_eq!(st.hovered_path(), None);
}

#[test]
fn failed_preview_shows_generic_icon() {
    let mut st = file_state();
    let shown = st.apply_preview(PreviewResult { id: 0, payload: Err(()) });
    match &shown {
        PreviewPayload::Icon { name } => assert_eq!(name, "text-x-generic"),
        other => panic!("unexpected {:?}", other),
    }
    assert!(matches!(&st.items[0].preview, PreviewState::Failed));
}

#[test]
fn ready_preview_is_stored() {
    let mut st = file_state();
    let shown = st.apply_preview(PreviewResult { id: 1, payload: Ok(PreviewPayload::Image("/t.png".to_string())) });
    assert!(matches!(&shown, PreviewPayload::Image(p) if p == "/t.png"));
    assert!(matches!(&st.items[1].preview, PreviewState::Ready(PreviewPayload::Image(p)) if p == "/t.png"));
    assert!(matches!(st.items[0].preview, PreviewState::Pending));
}

#[test]
fn enter_dispatches_selected_files_in_order() {
    let mut st = file_state();
    st.ingest_transient(snippet("u", "l", "c"));
    st.add_file("/c.md".to_string(), "text/markdown".to_string(), Some(9), None);
    st.dismiss(0);
    assert_eq!(
        st.selected_targets(),
        vec![("/b.rs".to_string(), Some(3), Some(4)), ("/c.md".to_string(), Some(9), None)]
    );
}

#[test]
fn open_target_of_file_and_snippet() {
    let mut st = file_state();
    st.ingest_transient(snippet("u", "l", "c"));
    assert_eq!(st.open_target(1), Some(("/b.rs".to_string(), Some(3), Some(4))));
    assert_eq!(st.open_target(2), None);
}

#[test]
fn ingesting_a_new_file_sniffs_its_type() {
    let mut st = PurseState::new();
    let r = st.ingest_file("/p/a.png".to_string(), Some(2), None, |p: &str| {
        assert_eq!(p, "/p/a.png");
        "image/png".to_string()
    });
    assert_eq!(r, Some(0));
    match &st.items[0].kind {
        ItemKind::File { path, mime, line, col } => {
            assert_eq!(path, "/p/a.png");
            assert_eq!(mime, "image/png");
            assert_eq!((*line, *col), (Some(2), None));
        },
        other => panic!("unexpected {:?}", other),
    }
    assert!(matches!(st.items[0].preview, PreviewState::Pending));
}

#[test]
fn law_ingest_file_holds_once_example() {
    let mut st = file_state();
    st.dismiss(0);
    assert_eq!(st.ingest_file("/a.txt".to_string(), None, None, |_p: &str| -> String { panic!("sniffed") }), None);
    assert_eq!(st.ingest_file("/c".to_string(), None, None, |_p: &str| "m".to_string()), Some(2));
    assert_eq!(st.ingest_file("/c".to_string(), Some(1), None, |_p: &str| "m".to_string()), None);
    assert_eq!(st.items.len(), 3);
    assert!(!st.items[0].selected);
}

#[test]
fn ingest_keeps_files_and_snippets_distinct() {
    let mut st = PurseState::new();
    st.ingest_file("/a".to_string(), None, None, |_p: &str| "m".to_string());
    st.ingest_transient(snippet("u", "l", "c"));
    st.ingest_file("/a".to_string(), Some(3), None, |_p: &str| "m".to_string());
    st.ingest_transient(snippet("u", "l2", "c2"));
    st.ingest_transient(snippet("v", "l", "c"));
    st.ingest_file("/b".to_string(), None, None, |_p: &str| "m".to_string());
    assert_eq!(st.items.len(), 4);
    for i in 0..st.items.len() {
        for j in (i + 1)..st.items.len() {
            let key = |k: &ItemKind| match k {
                ItemKind::File { path, .. } => (true, path.clone()),
                ItemKind::Transient { uuid, .. } => (false, uuid.clone()),
            };
            assert_ne!(key(&st.items[i].kind), key(&st.items[j].kind));
        }
    }
}
