use std::collections::HashMap;

use future_work::context::{Attention, ContextResponse, Selection};
use future_work::current::{
    client_outcome, client_outcome_of, extract_pid_from_title, prune_cache, publish, query, NiriWindow,
};

fn sel(line: u32, column: u32) -> Selection {
    Selection { line, column, anchor_line: line, anchor_column: column }
}

fn att(file: &str, sels: Vec<Selection>) -> Attention {
    Attention { file: file.to_string(), selections: sels }
}

#[test]
fn pid_is_read_from_editor_title() {
    assert_eq!(extract_pid_from_title("main.rs - lite-xl [PID: 550405]"), Some(550405));
}

#[test]
fn pid_marker_is_trimmed_inside_brackets() {
    assert_eq!(extract_pid_from_title("x [PID:  42 ]"), Some(42));
}

#[test]
fn last_pid_marker_wins() {
    assert_eq!(extract_pid_from_title("[PID: 1] notes [PID: 2]"), Some(2));
}

#[test]
fn title_without_marker_has_no_pid() {
    assert_eq!(extract_pid_from_title("main.rs - lite-xl"), None);
    assert_eq!(extract_pid_from_title("[PID: 12"), None);
    assert_eq!(extract_pid_from_title("[PID: abc]"), None);
    assert_eq!(extract_pid_from_title("[PID: 99999999999]"), None);
    assert_eq!(extract_pid_from_title(""), None);
}

#[test]
fn prune_drops_dead_processes_only() {
    let mut cache: HashMap<u32, Attention> = HashMap::new();
    cache.insert(1, att("/a", vec![sel(1, 1)]));
    cache.insert(2, att("/b", vec![sel(2, 2)]));
    cache.insert(3, att("/c", vec![]));
    prune_cache(&mut cache, &|p: u32| p != 2);
    let mut keys: Vec<u32> = cache.keys().copied().collect();
    keys.sort();
    assert_eq!(keys, vec![1, 3]);
    assert_eq!(cache[&1].file, "/a");
    assert_eq!(cache[&3].file, "/c");
}

#[test]
fn publish_replaces_previous_attention() {
    let mut cache: HashMap<u32, Attention> = HashMap::new();
    publish(&mut cache, 7, att("/old.rs", vec![sel(1, 1)]), &|_p: u32| true);
    publish(&mut cache, 7, att("/new.rs", vec![sel(3, 4)]), &|_p: u32| true);
    assert_eq!(cache.len(), 1);
    assert_eq!(cache[&7].file, "/new.rs");
    assert_eq!(cache[&7].selections[0].line, 3);
}

#[test]
fn publish_prunes_dead_entries() {
    let mut cache: HashMap<u32, Attention> = HashMap::new();
    cache.insert(5, att("/dead", vec![]));
    publish(&mut cache, 8, att("/live", vec![]), &|p: u32| p != 5);
    assert!(!cache.contains_key(&5));
    assert_eq!(cache[&8].file, "/live");
}

#[test]
fn query_answers_what_the_title_pid_published() {
    let mut cache: HashMap<u32, Attention> = HashMap::new();
    publish(&mut cache, 550405, att("/src/main.rs", vec![sel(12, 5)]), &|_p: u32| true);
    let window = Some(NiriWindow {
        pid: Some(1234),
        app_id: Some("lite-xl".to_string()),
        title: Some("main.rs - lite-xl [PID: 550405]".to_string()),
    });
    let r = query(&mut cache, &window, &|_p: u32| true);
    assert_eq!(r.pid, Some(1234));
    assert_eq!(r.app_id.as_deref(), Some("lite-xl"));
    let a = r.attention.expect("attention");
    assert_eq!(a.file, "/src/main.rs");
    assert_eq!(a.selections[0].line, 12);
    assert_eq!(a.selections[0].column, 5);
}

#[test]
fn query_falls_back_to_window_pid() {
    let mut cache: HashMap<u32, Attention> = HashMap::new();
    cache.insert(77, att("/x.txt", vec![sel(1, 2)]));
    let window = Some(NiriWindow { pid: Some(77), app_id: None, title: Some("plain".to_string()) });
    let r = query(&mut cache, &window, &|_p: u32| true);
    assert_eq!(r.attention.expect("attention").file, "/x.txt");
}

#[test]
fn query_without_window_is_empty() {
    let mut cache: HashMap<u32, Attention> = HashMap::new();
    cache.insert(1, att("/kept", vec![]));
    let r = query(&mut cache, &None, &|_p: u32| false);
    assert!(r.app_id.is_none());
    assert!(r.pid.is_none());
    assert!(r.attention.is_none());
    assert!(cache.contains_key(&1));
}

#[test]
fn query_for_dead_publisher_finds_nothing() {
    let mut cache: HashMap<u32, Attention> = HashMap::new();
    cache.insert(9, att("/gone", vec![]));
    let window = Some(NiriWindow { pid: Some(9), app_id: None, title: None });
    let r = query(&mut cache, &window, &|_p: u32| false);
    assert!(r.attention.is_none());
    assert!(cache.is_empty());
}

fn context_with(a: Option<Attention>) -> ContextResponse {
    ContextResponse { app_id: None, pid: None, attention: a }
}

#[test]
fn attention_command_prints_primary_caret() {
    let ctx = context_with(Some(att("/src/lib.rs", vec![sel(10, 8), sel(3, 1)])));
    let out = client_outcome("attention", &ctx, &None);
    assert_eq!(out.stdout.as_deref(), Some("/src/lib.rs:10:8"));
    assert!(out.stderr.is_none());
    assert_eq!(out.exit_code, 0);
}

#[test]
fn attention_command_without_caret_fails_quietly() {
    let out = client_outcome("attention", &context_with(Some(att("/a", vec![]))), &None);
    assert!(out.stdout.is_none());
    assert_eq!(out.exit_code, 1);
    let out = client_outcome("attention", &context_with(None), &None);
    assert!(out.stdout.is_none());
    assert!(out.stderr.is_none());
    assert_eq!(out.exit_code, 1);
}

#[test]
fn location_command_prints_directory() {
    let ctx = context_with(Some(att("/home/tau/proj/src/main.rs", vec![])));
    let out = client_outcome("location", &ctx, &Some("/home/me".to_string()));
    assert_eq!(out.stdout.as_deref(), Some("/home/tau/proj/src"));
    assert_eq!(out.exit_code, 0);
}

#[test]
fn location_command_defaults_to_home() {
    let out = client_outcome("location", &context_with(None), &Some("/home/me".to_string()));
    assert_eq!(out.stdout.as_deref(), Some("/home/me"));
    assert_eq!(out.exit_code, 0);
    let out = client_outcome("location", &context_with(None), &None);
    assert_eq!(out.stdout.as_deref(), Some("/home/tau"));
}

#[test]
fn unknown_command_is_reported() {
    let out = client_outcome("frobnicate", &context_with(None), &None);
    assert!(out.stdout.is_none());
    assert_eq!(out.stderr.as_deref(), Some("Unknown command: frobnicate"));
    assert_eq!(out.exit_code, 1);
}

#[test]
fn law_title_marker_roundtrip_example() {
    let title = format!("anything [PID: x] here [PID: {}]", 4_000_000_000u32);
    assert_eq!(extract_pid_from_title(&title), Some(4_000_000_000));
}

#[test]
fn law_query_returns_published_example() {
    let mut cache: HashMap<u32, Attention> = HashMap::new();
    publish(&mut cache, 31, att("/w.rs", vec![sel(2, 3)]), &|_p: u32| true);
    let window = Some(NiriWindow { pid: Some(31), app_id: None, title: None });
    let r = query(&mut cache, &window, &|_p: u32| true);
    let a = r.attention.expect("published attention");
    assert_eq!(a.file, "/w.rs");
    assert_eq!((a.selections[0].line, a.selections[0].column), (2, 3));
}

#[test]
fn without_a_daemon_home_is_the_floor() {
    let out = client_outcome_of("location", &None, &Some("/home/me".to_string()));
    assert_eq!(out.stdout.as_deref(), Some("/home/me"));
    assert_eq!(out.exit_code, 0);
    let out = client_outcome_of("attention", &None, &None);
    assert!(out.stdout.is_none());
    assert_eq!(out.exit_code, 1);
    let ctx = Some(context_with(Some(att("/p/q.rs", vec![sel(4, 2)]))));
    assert_eq!(client_outcome_of("attention", &ctx, &None).stdout.as_deref(), Some("/p/q.rs:4:2"));
}
