use future_work::purse::preview::{
    cell_label, initial_page, is_text_mime, preview_page, preview_route, text_preview, PreviewRoute,
    PREVIEW_HEIGHT, PREVIEW_WIDTH,
};
use future_work::purse::state::{ItemKind, PreviewPayload};

fn lines(n: usize) -> Vec<String> {
    (1..=n).map(|i| format!("l{}", i)).collect()
}

#[test]
fn text_mimes() {
    assert!(is_text_mime("text/plain"));
    assert!(is_text_mime("text/x-rust"));
    assert!(!is_text_mime("application/json"));
    assert!(!is_text_mime("application/x-shellscript"));
    assert!(!is_text_mime("application/toml"));
    assert!(!is_text_mime("Text/plain"));
    assert!(!is_text_mime("image/png"));
    assert!(!is_text_mime("application/pdf"));
    assert!(!is_text_mime(""));
}

#[test]
fn routes_follow_mime() {
    assert_eq!(preview_route("text/x-rust"), PreviewRoute::Text);
    assert_eq!(preview_route("image/jpeg"), PreviewRoute::Thumbnail);
    assert_eq!(preview_route("application/json"), PreviewRoute::Thumbnail);
}

#[test]
fn preview_without_target_is_first_twenty_lines() {
    let ls = lines(30);
    let expected: Vec<String> = (1..=20).map(|i| format!("l{}", i)).collect();
    assert_eq!(text_preview(&ls, None), expected.join("\n"));
    assert_eq!(text_preview(&lines(3), None), "l1\nl2\nl3");
    assert_eq!(text_preview(&vec![], None), "");
}

#[test]
fn preview_window_around_target() {
    let ls = lines(30);
    let mut expected = vec!["...".to_string()];
    for i in 5..=25 {
        let mark = if i == 15 { "-> " } else { "   " };
        expected.push(format!("{}l{}", mark, i));
    }
    expected.push("...".to_string());
    assert_eq!(text_preview(&ls, Some(15)), expected.join("\n"));
}

#[test]
fn preview_window_at_file_start() {
    let ls = lines(5);
    assert_eq!(text_preview(&ls, Some(1)), "-> l1\n   l2\n   l3\n   l4\n   l5");
    assert_eq!(text_preview(&ls, Some(0)), "-> l1\n   l2\n   l3\n   l4\n   l5");
}

#[test]
fn preview_window_past_end_marks_nothing() {
    let ls = lines(12);
    let expected: Vec<String> = std::iter::once("...".to_string())
        .chain((5..=12).map(|i| format!("   l{}", i)))
        .collect();
    assert_eq!(text_preview(&ls, Some(15)), expected.join("\n"));
}

#[test]
fn pages_and_labels() {
    let file = ItemKind::File { path: "/x/y/z.txt".to_string(), mime: "text/plain".to_string(), line: None, col: None };
    let snip = ItemKind::Transient { uuid: "u".to_string(), label: "Clip".to_string(), content: "c".to_string() };
    assert_eq!(initial_page(&file), "pending");
    assert_eq!(initial_page(&snip), "text");
    assert_eq!(cell_label(&file).as_deref(), Some("z.txt"));
    assert_eq!(cell_label(&snip).as_deref(), Some("Clip"));
    let root = ItemKind::File { path: "/".to_string(), mime: "inode/directory".to_string(), line: None, col: None };
    assert_eq!(cell_label(&root), None);
}

#[test]
fn preview_pages() {
    assert_eq!(preview_page(&PreviewPayload::Text { content: "a".to_string() }), ("text", false));
    assert_eq!(preview_page(&PreviewPayload::Image("/p".to_string())), ("image", false));
    assert_eq!(preview_page(&PreviewPayload::Icon { name: "x".to_string() }), ("icon", false));
}

#[test]
fn cell_size() {
    assert_eq!(PREVIEW_WIDTH, 240);
    assert_eq!(PREVIEW_HEIGHT, 10);
}

#[test]
fn target_far_past_the_end_degrades_silently() {
    assert_eq!(text_preview(&lines(3), Some(15)), "...");
    assert_eq!(text_preview(&vec![], Some(u32::MAX)), "...");
    assert_eq!(text_preview(&lines(4), Some(15)), "...");
    assert_eq!(text_preview(&lines(5), Some(15)), "...\n   l5");
}
