use future_work::json::{Json, JsonNumber};
use future_work::niri::{
    windows_reply, workspaces_reply, NiriReplyError,
    collect_state, focused_workspace, forward_payload, niri_socket_path, pid_from_title,
    purse_socket_name_of, purse_socket_path, purse_window, reply_items, resolve, NiriReply,
    NiriState, NiriWindow, NiriWorkspace, PurseWindow, Resolution,
};
use future_work::purse::ipc::socket_path;

fn win(app: &str, ws: Option<u64>, title: &str) -> NiriWindow {
    NiriWindow { app_id: Some(app.to_string()), workspace_id: ws, title: Some(title.to_string()) }
}

fn obj(members: Vec<(&str, Json)>) -> Json {
    Json::Object(members.into_iter().map(|(k, v)| (k.to_string(), v)).collect())
}

#[test]
fn purse_title_carries_pid() {
    assert_eq!(pid_from_title("purse-4242"), Some(4242));
    assert_eq!(pid_from_title("purse-"), None);
    assert_eq!(pid_from_title("purse-12x"), None);
    assert_eq!(pid_from_title("Purse-12"), None);
}

#[test]
fn only_purse_windows_on_a_workspace_count() {
    assert_eq!(
        purse_window(&win("dev.purse", Some(3), "purse-17")),
        Some(PurseWindow { workspace_id: 3, pid: 17 })
    );
    assert_eq!(purse_window(&win("dev.purse", None, "purse-17")), None);
    assert_eq!(purse_window(&win("org.gnome.Nautilus", Some(3), "purse-17")), None);
    assert_eq!(purse_window(&win("dev.purse", Some(3), "Purse")), None);
    let untitled = NiriWindow { app_id: Some("dev.purse".to_string()), workspace_id: Some(1), title: None };
    assert_eq!(purse_window(&untitled), None);
}

#[test]
fn first_focused_workspace_is_taken() {
    let ws = vec![
        NiriWorkspace { id: 1, is_focused: false },
        NiriWorkspace { id: 2, is_focused: true },
        NiriWorkspace { id: 3, is_focused: true },
    ];
    assert_eq!(focused_workspace(&ws), Some(2));
    assert_eq!(focused_workspace(&vec![NiriWorkspace { id: 1, is_focused: false }]), None);
    assert_eq!(focused_workspace(&vec![]), None);
}

#[test]
fn state_keeps_purse_windows_in_order() {
    let ws = vec![NiriWorkspace { id: 5, is_focused: true }];
    let windows = vec![
        win("dev.purse", Some(5), "purse-10"),
        win("foot", Some(5), "shell"),
        win("dev.purse", Some(6), "purse-11"),
    ];
    let st = collect_state(&ws, &windows);
    assert_eq!(st.focused_workspace_id, Some(5));
    assert_eq!(
        st.purse_windows,
        vec![PurseWindow { workspace_id: 5, pid: 10 }, PurseWindow { workspace_id: 6, pid: 11 }]
    );
}

#[test]
fn resolve_forwards_to_live_purse_on_focused_workspace() {
    let st = NiriState {
        focused_workspace_id: Some(2),
        purse_windows: vec![
            PurseWindow { workspace_id: 1, pid: 100 },
            PurseWindow { workspace_id: 2, pid: 200 },
            PurseWindow { workspace_id: 2, pid: 300 },
        ],
    };
    assert_eq!(resolve(&st, |_p: u32| true), Resolution::Forward { pid: 200 });
}

#[test]
fn resolve_spawns_when_socket_is_dead() {
    let st = NiriState {
        focused_workspace_id: Some(2),
        purse_windows: vec![PurseWindow { workspace_id: 2, pid: 200 }, PurseWindow { workspace_id: 2, pid: 300 }],
    };
    assert_eq!(resolve(&st, |p: u32| p != 200), Resolution::Spawn);
}

#[test]
fn resolve_spawns_without_candidate_or_focus() {
    let st = NiriState { focused_workspace_id: Some(9), purse_windows: vec![PurseWindow { workspace_id: 1, pid: 1 }] };
    assert_eq!(resolve(&st, |_p: u32| true), Resolution::Spawn);
    let st = NiriState { focused_workspace_id: None, purse_windows: vec![PurseWindow { workspace_id: 1, pid: 1 }] };
    assert_eq!(resolve(&st, |_p: u32| true), Resolution::Spawn);
}

#[test]
fn socket_names_and_paths() {
    assert_eq!(purse_socket_name_of(77), "purse-77.sock");
    assert_eq!(purse_socket_path(77, 1000, &Some("/run/user/1000".to_string())), "/run/user/1000/purse-77.sock");
    assert_eq!(purse_socket_path(77, 1001, &None), "/run/user/1001/purse-77.sock");
}

#[test]
fn niri_socket_from_env_or_runtime_dir() {
    assert_eq!(niri_socket_path(&Some("/x/niri.sock".to_string()), &None), "/x/niri.sock");
    assert_eq!(niri_socket_path(&None, &Some("/run/user/7".to_string())), "/run/user/7/niri/socket");
    assert_eq!(niri_socket_path(&None, &None), "/tmp/niri/socket");
}

#[test]
fn law_socket_paths_agree_example() {
    let dir = Some("/run/user/1000".to_string());
    assert_eq!(purse_socket_path(321, 1000, &dir), socket_path(&dir, 1000, 321));
    assert_eq!(purse_socket_path(321, 1000, &None), socket_path(&None, 1000, 321));
}

#[test]
fn reply_items_reads_ok_member() {
    let items = Json::Array(vec![Json::Number(JsonNumber::PosInt(1))]);
    let reply = obj(vec![("Ok", obj(vec![("Windows", items)]))]);
    match reply_items(&reply, "Windows") {
        NiriReply::Items(Json::Array(v)) => assert_eq!(v.len(), 1),
        other => panic!("unexpected {:?}", other),
    }
}

#[test]
fn reply_items_reports_errors_and_shapes() {
    let reply = obj(vec![("Err", Json::Str("nope".to_string()))]);
    match reply_items(&reply, "Windows") {
        NiriReply::Failed(Json::Str(s)) => assert_eq!(s, "nope"),
        other => panic!("unexpected {:?}", other),
    }
    let reply = obj(vec![("Ok", obj(vec![("Workspaces", Json::Array(vec![]))]))]);
    assert!(matches!(reply_items(&reply, "Windows"), NiriReply::UnexpectedShape));
    assert!(matches!(reply_items(&Json::Null, "Windows"), NiriReply::UnexpectedShape));
}

#[test]
fn forward_payload_is_one_path_per_line() {
    let paths = vec!["/a/b.txt".to_string(), "/c d/e.png".to_string()];
    assert_eq!(forward_payload(&paths), "/a/b.txt\n/c d/e.png\n");
    assert_eq!(forward_payload(&vec![]), "");
}

#[test]
fn workspaces_reply_lines() {
    let line = "{\"Ok\":{\"Workspaces\":[{\"id\":1,\"idx\":1,\"is_focused\":false},{\"id\":2,\"is_focused\":true}]}}\n";
    let ws = workspaces_reply(line).unwrap();
    assert_eq!(ws.len(), 2);
    assert_eq!((ws[1].id, ws[1].is_focused), (2, true));
    assert_eq!(workspaces_reply("{\"Err\":\"no\"}").unwrap_err(), NiriReplyError::Failed);
    assert_eq!(workspaces_reply("{\"Ok\":{\"Windows\":[]}}").unwrap_err(), NiriReplyError::UnexpectedShape);
    assert_eq!(workspaces_reply("nope").unwrap_err(), NiriReplyError::NotJson);
    assert_eq!(workspaces_reply("{\"Ok\":{\"Workspaces\":[{\"id\":1}]}}").unwrap_err(), NiriReplyError::BadItems);
    assert_eq!(workspaces_reply("{\"Ok\":{\"Workspaces\":[{\"id\":-1,\"is_focused\":true}]}}").unwrap_err(), NiriReplyError::BadItems);
    assert_eq!(workspaces_reply("{\"Ok\":{\"Workspaces\":null}}").unwrap_err(), NiriReplyError::BadItems);
    let arr = workspaces_reply("{\"Ok\":{\"Workspaces\":[[7,true]]}}").unwrap();
    assert_eq!((arr[0].id, arr[0].is_focused), (7, true));
    assert_eq!(workspaces_reply("{\"Ok\":{\"Workspaces\":[[7,true,1]]}}").unwrap_err(), NiriReplyError::BadItems);
}

#[test]
fn windows_reply_lines() {
    let line = "{\"Ok\":{\"Windows\":[{\"id\":3,\"app_id\":\"dev.purse\",\"workspace_id\":2,\"title\":\"purse-9\"},{\"app_id\":null,\"title\":\"x\"}]}}";
    let ws = windows_reply(line).unwrap();
    assert_eq!(ws.len(), 2);
    assert_eq!(purse_window(&ws[0]), Some(PurseWindow { workspace_id: 2, pid: 9 }));
    assert_eq!(ws[1].app_id, None);
    assert_eq!(ws[1].workspace_id, None);
    assert_eq!(ws[1].title.as_deref(), Some("x"));
    assert_eq!(windows_reply("{\"Ok\":{\"Windows\":[{\"title\":5}]}}").unwrap_err(), NiriReplyError::BadItems);
}
