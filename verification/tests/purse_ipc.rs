use future_work::niri::pid_from_title;
use future_work::purse::ipc::{
    classify_line, socket_path, split_location, window_title, IpcMessage, TransientPayload,
};

fn parse_ok(t: &str) -> Option<TransientPayload> {
    if t.contains("uuid") {
        Some(TransientPayload { uuid: "u1".to_string(), label: "L".to_string(), content: t.to_string() })
    } else {
        None
    }
}

#[test]
fn plain_line_is_a_trimmed_path() {
    match classify_line("  /home/tau/a.txt \n", parse_ok) {
        IpcMessage::File(p) => assert_eq!(p, "/home/tau/a.txt"),
        other => panic!("unexpected {:?}", other),
    }
}

#[test]
fn object_line_that_parses_is_a_snippet() {
    match classify_line(" {\"uuid\":\"u1\"} ", parse_ok) {
        IpcMessage::Transient(p) => {
            assert_eq!(p.uuid, "u1");
            assert_eq!(p.content, "{\"uuid\":\"u1\"}");
        },
        other => panic!("unexpected {:?}", other),
    }
}

#[test]
fn object_line_that_does_not_parse_is_a_path() {
    match classify_line("{not json}", parse_ok) {
        IpcMessage::File(p) => assert_eq!(p, "{not json}"),
        other => panic!("unexpected {:?}", other),
    }
}

#[test]
fn parser_is_not_asked_for_non_objects() {
    let msg = classify_line("uuid.txt", |_t: &str| -> Option<TransientPayload> {
        panic!("parser called")
    });
    assert!(matches!(msg, IpcMessage::File(ref p) if p == "uuid.txt"));
}

#[test]
fn location_with_line_and_column() {
    assert_eq!(split_location("/a/b.rs:12:5"), ("/a/b.rs".to_string(), Some(12), Some(5)));
}

#[test]
fn location_with_line_only() {
    assert_eq!(split_location("/a/b.rs:12"), ("/a/b.rs".to_string(), Some(12), None));
}

#[test]
fn location_without_position() {
    assert_eq!(split_location("/a/b.rs"), ("/a/b.rs".to_string(), None, None));
    assert_eq!(split_location("/a/b.rs:x"), ("/a/b.rs:x".to_string(), None, None));
    assert_eq!(split_location("C:/dir/file"), ("C:/dir/file".to_string(), None, None));
}

#[test]
fn location_with_non_numeric_middle() {
    assert_eq!(split_location("/a:b:7"), ("/a:b".to_string(), Some(7), None));
}

#[test]
fn law_location_roundtrip_example() {
    assert_eq!(split_location("/w:eird:1:2:3"), ("/w:eird:1".to_string(), Some(2), Some(3)));
    assert_eq!(split_location(":0:0"), ("".to_string(), Some(0), Some(0)));
}

#[test]
fn purse_socket_in_runtime_dir() {
    assert_eq!(socket_path(&Some("/run/user/1000".to_string()), 1000, 55), "/run/user/1000/purse-55.sock");
    assert_eq!(socket_path(&None, 1001, 55), "/run/user/1001/purse-55.sock");
}

#[test]
fn law_window_title_roundtrip_example() {
    assert_eq!(window_title(41235), "purse-41235");
    assert_eq!(pid_from_title(&window_title(0)), Some(0));
    assert_eq!(pid_from_title(&window_title(u32::MAX)), Some(u32::MAX));
}
