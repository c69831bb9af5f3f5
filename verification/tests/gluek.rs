use future_work::context::{Attention, ContextResponse, Selection};
use future_work::gluek::{
    broker_query, editor_target, extract_locations, fallback_context, fallback_matches, frame_request,
    location_path, match_item, parse_invocation, parse_location, peek_target, percent_decode,
    preview_line_index, row_subtitle, scan_header_line, window_title, HeaderLine, Invocation,
    LocationError, ReplyError,
};
use future_work::gluek::{
    broker_reply, header_step, location_matches, location_positions_fit, reply_positions_fit,
    request_body, BodyError, HeaderFailure, HeaderStep,
};
use future_work::json::{Json, JsonNumber};

fn obj(members: Vec<(&str, Json)>) -> Json {
    Json::Object(members.into_iter().map(|(k, v)| (k.to_string(), v)).collect())
}

fn num(n: u64) -> Json {
    Json::Number(JsonNumber::PosInt(n))
}

fn s(t: &str) -> Json {
    Json::Str(t.to_string())
}

fn location(uri: &str, line: u64, ch: u64) -> Json {
    obj(vec![
        ("uri", s(uri)),
        ("range", obj(vec![("start", obj(vec![("line", num(line)), ("character", num(ch))]))])),
    ])
}

fn args(v: &[&str]) -> Vec<String> {
    v.iter().map(|a| a.to_string()).collect()
}

#[test]
fn percent_escapes_are_decoded() {
    assert_eq!(percent_decode("/tmp/a%20b.rs"), "/tmp/a b.rs");
    assert_eq!(percent_decode("%C3%A9t%C3%A9"), "été");
    assert_eq!(percent_decode("100%"), "100%");
    assert_eq!(percent_decode("%zz"), "%zz");
    assert_eq!(percent_decode("%2f%2F"), "//");
    assert_eq!(percent_decode("plain"), "plain");
}

#[test]
fn undecodable_bytes_keep_the_text() {
    assert_eq!(percent_decode("%ff"), "%ff");
}

#[test]
fn location_is_made_one_based() {
    let r = parse_location(&location("file:///a.rs", 4, 0)).expect("location");
    assert_eq!(r, ("file:///a.rs".to_string(), 5, 1));
}

#[test]
fn location_link_members_are_read() {
    let link = obj(vec![
        ("targetUri", s("file:///b.rs")),
        ("targetRange", obj(vec![("start", obj(vec![("line", num(1)), ("character", num(2))]))])),
    ]);
    assert_eq!(parse_location(&link), Ok(("file:///b.rs".to_string(), 2, 3)));
}

#[test]
fn location_errors() {
    assert_eq!(parse_location(&obj(vec![])), Err(LocationError::MissingUri));
    assert_eq!(parse_location(&obj(vec![("uri", num(3))])), Err(LocationError::MissingUri));
    assert_eq!(parse_location(&obj(vec![("uri", s("u"))])), Err(LocationError::MissingRange));
    assert_eq!(
        parse_location(&obj(vec![("uri", s("u")), ("range", obj(vec![]))])),
        Err(LocationError::MissingStart)
    );
    let no_line = obj(vec![("uri", s("u")), ("range", obj(vec![("start", obj(vec![("character", num(1))]))]))]);
    assert_eq!(parse_location(&no_line), Err(LocationError::MissingLine));
    let no_char = obj(vec![("uri", s("u")), ("range", obj(vec![("start", obj(vec![("line", num(1))]))]))]);
    assert_eq!(parse_location(&no_char), Err(LocationError::MissingCharacter));
}

#[test]
fn location_error_messages() {
    assert_eq!(LocationError::MissingUri.message(), "Missing location URI");
    assert_eq!(LocationError::MissingRange.message(), "Missing range");
    assert_eq!(LocationError::MissingStart.message(), "Missing start position");
    assert_eq!(LocationError::MissingLine.message(), "Missing line");
    assert_eq!(LocationError::MissingCharacter.message(), "Missing character");
}

#[test]
fn reply_with_array_keeps_readable_locations() {
    let reply = obj(vec![(
        "result",
        Json::Array(vec![location("file:///a.rs", 0, 0), obj(vec![]), location("file:///b.rs", 9, 3)]),
    )]);
    assert_eq!(
        extract_locations(&reply),
        Ok(vec![("file:///a.rs".to_string(), 1, 1), ("file:///b.rs".to_string(), 10, 4)])
    );
}

#[test]
fn reply_with_single_location() {
    let reply = obj(vec![("result", location("file:///c.rs", 2, 2))]);
    assert_eq!(extract_locations(&reply), Ok(vec![("file:///c.rs".to_string(), 3, 3)]));
    let bad = obj(vec![("result", obj(vec![("uri", s("u"))]))]);
    assert_eq!(extract_locations(&bad), Err(ReplyError::Location(LocationError::MissingRange)));
}

#[test]
fn reply_errors() {
    let reply = obj(vec![("error", obj(vec![("code", num(1))])), ("result", Json::Null)]);
    assert_eq!(extract_locations(&reply), Err(ReplyError::Lsp));
    assert_eq!(extract_locations(&obj(vec![])), Err(ReplyError::MissingResult));
    assert_eq!(extract_locations(&obj(vec![("result", Json::Null)])), Ok(vec![]));
}

#[test]
fn header_lines() {
    assert_eq!(scan_header_line("\r\n"), HeaderLine::End);
    assert_eq!(scan_header_line("\n"), HeaderLine::End);
    assert_eq!(scan_header_line("Content-Length: 42\r\n"), HeaderLine::ContentLength(42));
    assert_eq!(scan_header_line("content-length:7\n"), HeaderLine::ContentLength(7));
    assert_eq!(scan_header_line("CONTENT-LENGTH: x\r\n"), HeaderLine::BadContentLength);
    assert_eq!(scan_header_line("Content-Type: json\r\n"), HeaderLine::Other);
    assert_eq!(scan_header_line(""), HeaderLine::Other);
}

#[test]
fn law_content_length_roundtrip_example() {
    let framed = frame_request("{\"a\":\"é\"}");
    assert!(framed.starts_with("Content-Length: 10\r\n\r\n"));
    assert!(framed.ends_with("{\"a\":\"é\"}"));
    let header = framed.split_inclusive('\n').next().unwrap();
    assert_eq!(scan_header_line(header), HeaderLine::ContentLength(10));
}

#[test]
fn broker_queries() {
    let q = broker_query(true, "/a.rs", 10, 8);
    assert_eq!(q.method, "textDocument/definition");
    assert_eq!(q.uri, "file:///a.rs");
    assert_eq!((q.line, q.character), (9, 7));
    assert!(!q.include_declaration);
    let q = broker_query(false, "/a.rs", 0, 0);
    assert_eq!(q.method, "textDocument/references");
    assert_eq!((q.line, q.character), (0, 0));
    assert!(q.include_declaration);
}

#[test]
fn location_paths() {
    assert_eq!(location_path("file:///tmp/a%20b.rs"), "/tmp/a b.rs");
    assert_eq!(location_path("file://file:///x"), "/x");
    assert_eq!(location_path("/plain"), "/plain");
}

#[test]
fn match_rows() {
    let m = match_item("/src/main.rs".to_string(), 12, 4, "   let x = 1;  ".to_string());
    assert_eq!(m.label, "Match in main.rs at line 12");
    assert_eq!(row_subtitle(&m), "main.rs:12  -  let x = 1;");
    assert_eq!(editor_target(&m), "/src/main.rs:12:4");
    assert_eq!(preview_line_index(&m), 11);
    let top = match_item("/".to_string(), 0, 0, "".to_string());
    assert_eq!(top.label, "Match in / at line 0");
    assert_eq!(preview_line_index(&top), 0);
}

#[test]
fn window_titles() {
    assert_eq!(window_title(true), "Peek References");
    assert_eq!(window_title(false), "Peek Definition");
}

#[test]
fn invocations() {
    assert_eq!(parse_invocation(&args(&["gluek-up"])), Invocation::Peek { is_defs: true, is_refs: false });
    assert_eq!(parse_invocation(&args(&["gluek-up", "-r"])), Invocation::Peek { is_defs: false, is_refs: true });
    assert_eq!(
        parse_invocation(&args(&["gluek-up", "--references", "-d"])),
        Invocation::Peek { is_defs: true, is_refs: true }
    );
    assert_eq!(parse_invocation(&args(&["gluek-up", "-r", "--help"])), Invocation::Help);
    assert_eq!(parse_invocation(&args(&["-h"])), Invocation::Help);
    assert_eq!(parse_invocation(&args(&["-r"])), Invocation::Peek { is_defs: true, is_refs: false });
}

#[test]
fn peek_targets() {
    let ctx = ContextResponse {
        app_id: None,
        pid: None,
        attention: Some(Attention {
            file: "/x.rs".to_string(),
            selections: vec![Selection { line: 3, column: 9, anchor_line: 1, anchor_column: 1 }],
        }),
    };
    assert_eq!(peek_target(&ctx), ("/x.rs".to_string(), 3, 9));
    let empty = ContextResponse {
        app_id: None,
        pid: None,
        attention: Some(Attention { file: "/y.rs".to_string(), selections: vec![] }),
    };
    assert_eq!(peek_target(&empty), ("/y.rs".to_string(), 1, 1));
    let none = ContextResponse { app_id: None, pid: None, attention: None };
    assert_eq!(
        peek_target(&none),
        ("/media/veracrypt1/_PROJECTS/_Future/Current/src/main.rs".to_string(), 1, 1)
    );
}

#[test]
fn fallback_context_is_mock_editor() {
    let c = fallback_context();
    assert_eq!(c.app_id.as_deref(), Some("mock-editor"));
    assert_eq!(c.pid, Some(9999));
    let a = c.attention.unwrap();
    assert_eq!(a.file, "/media/veracrypt1/_PROJECTS/_Future/Current/src/main.rs");
    assert_eq!((a.selections[0].line, a.selections[0].column), (10, 8));
}

#[test]
fn fallback_match_lists() {
    let defs = fallback_matches(true, "/f.rs");
    assert_eq!(defs.len(), 2);
    assert_eq!(defs[0].file_path, "/f.rs");
    assert_eq!(defs[0].label, "struct Selection (Mock Definition)");
    assert_eq!(defs[1].file_path, "/media/veracrypt1/_PROJECTS/_Future/TO-DAY/src/ui.rs");
    let refs = fallback_matches(false, "/f.rs");
    assert_eq!(refs.len(), 4);
    assert_eq!((refs[1].line, refs[1].column), (20, 20));
    assert_eq!(refs[3].snippet, "use crate::AppState;");
}

#[test]
fn header_steps() {
    assert_eq!(header_step(None, Some("Content-Length: 12\r\n")), HeaderStep::Continue(Some(12)));
    assert_eq!(header_step(Some(12), Some("Content-Type: x\r\n")), HeaderStep::Continue(Some(12)));
    assert_eq!(header_step(Some(12), Some("\r\n")), HeaderStep::Body(12));
    assert_eq!(header_step(None, Some("\n")), HeaderStep::Fail(HeaderFailure::MissingContentLength));
    assert_eq!(header_step(Some(3), Some("content-length: big\n")), HeaderStep::Fail(HeaderFailure::BadContentLength));
    assert_eq!(header_step(Some(3), None), HeaderStep::Fail(HeaderFailure::Eof));
}

#[test]
fn position_overflow_is_detected() {
    assert!(location_positions_fit(&location("u", 4, 0)));
    assert!(!location_positions_fit(&location("u", 4294967295, 0)));
    assert!(!location_positions_fit(&location("u", 0, 8589934591)));
    assert!(location_positions_fit(&location("u", 4294967296, 0)));
    assert!(location_positions_fit(&obj(vec![])));
    let reply = obj(vec![("result", Json::Array(vec![location("u", 1, 1), location("v", 4294967295, 1)]))]);
    assert!(!reply_positions_fit(&reply));
    let reply = obj(vec![("result", Json::Array(vec![location("u", 1, 1)]))]);
    assert!(reply_positions_fit(&reply));
    assert!(reply_positions_fit(&obj(vec![])));
}

#[test]
fn overflow_only_counts_where_reading_gets_to_it() {
    let no_uri = obj(vec![("range", obj(vec![("start", obj(vec![("line", num(4294967295)), ("character", num(0))]))]))]);
    assert!(location_positions_fit(&no_uri));
    let no_line = obj(vec![
        ("uri", s("u")),
        ("range", obj(vec![("start", obj(vec![("character", num(4294967295))]))])),
    ]);
    assert!(location_positions_fit(&no_line));
    assert_eq!(parse_location(&no_line), Err(LocationError::MissingLine));
    let refused = obj(vec![("error", Json::Null), ("result", location("u", 4294967295, 0))]);
    assert!(reply_positions_fit(&refused));
    assert_eq!(extract_locations(&refused), Err(ReplyError::Lsp));
}

#[test]
fn matches_for_locations() {
    let locs = vec![("file:///src/a%20b.rs".to_string(), 3, 7), ("file:///lib.rs".to_string(), 1, 1)];
    let ms = location_matches(&locs, |p: &str, l: u32| format!("{}#{}", p, l));
    assert_eq!(ms.len(), 2);
    assert_eq!(ms[0].file_path, "/src/a b.rs");
    assert_eq!((ms[0].line, ms[0].column), (3, 7));
    assert_eq!(ms[0].label, "Match in a b.rs at line 3");
    assert_eq!(ms[0].snippet, "/src/a b.rs#3");
    assert_eq!(ms[1].label, "Match in lib.rs at line 1");
    assert!(location_matches(&vec![], |_p: &str, _l: u32| String::new()).is_empty());
}

#[test]
fn law_percent_decode_plain_example() {
    assert_eq!(percent_decode("/home/tau/été/a b+c.rs"), "/home/tau/été/a b+c.rs");
    assert_eq!(percent_decode(""), "");
}

#[test]
fn request_bodies() {
    let defs = request_body(&broker_query(true, "/a.rs", 10, 8));
    assert_eq!(
        defs,
        "{\"id\":1,\"jsonrpc\":\"2.0\",\"method\":\"textDocument/definition\",\"params\":{\"position\":{\"character\":7,\"line\":9},\"textDocument\":{\"uri\":\"file:///a.rs\"}}}"
    );
    let refs = request_body(&broker_query(false, "/q\"x\\y\n\u{1}.rs", 1, 1));
    let v: serde_json::Value = serde_json::from_str(&refs).unwrap();
    assert_eq!(v["params"]["textDocument"]["uri"].as_str(), Some("file:///q\"x\\y\n\u{1}.rs"));
    assert_eq!(v["params"]["context"]["includeDeclaration"].as_bool(), Some(true));
    assert_eq!(v["params"]["position"]["line"].as_u64(), Some(0));
    assert_eq!(v["method"].as_str(), Some("textDocument/references"));
    assert_eq!(v["jsonrpc"].as_str(), Some("2.0"));
    assert_eq!(v["id"].as_u64(), Some(1));
}

#[test]
fn broker_reply_bodies() {
    let body = br#"{"jsonrpc":"2.0","id":1,"result":[{"uri":"file:///a.rs","range":{"start":{"line":4,"character":2},"end":{"line":4,"character":5}}}]}"#;
    assert_eq!(broker_reply(body.to_vec()), Some(Ok(vec![("file:///a.rs".to_string(), 5, 3)])));
    let single = br#"{"result":{"targetUri":"file:///b.rs","targetRange":{"start":{"line":0,"character":0}}}}"#;
    assert_eq!(broker_reply(single.to_vec()), Some(Ok(vec![("file:///b.rs".to_string(), 1, 1)])));
    assert_eq!(broker_reply(vec![0xff, 0xfe]), Some(Err(BodyError::NotUtf8)));
    assert_eq!(broker_reply(b"{not json".to_vec()), Some(Err(BodyError::NotJson)));
    assert_eq!(broker_reply(b"{\"error\":{\"code\":-1}}".to_vec()), Some(Err(BodyError::Reply(ReplyError::Lsp))));
    assert_eq!(broker_reply(b"{}".to_vec()), Some(Err(BodyError::Reply(ReplyError::MissingResult))));
    assert_eq!(
        broker_reply(b"{\"result\":{\"uri\":\"u\"}}".to_vec()),
        Some(Err(BodyError::Reply(ReplyError::Location(LocationError::MissingRange))))
    );
    let overflow = br#"{"result":[{"uri":"u","range":{"start":{"line":4294967295,"character":0}}}]}"#;
    assert_eq!(broker_reply(overflow.to_vec()), None);
    assert_eq!(broker_reply(b"{\"result\":1.5}".to_vec()), Some(Ok(vec![])));
}

#[test]
fn law_percent_roundtrip_example() {
    let t = "/home/tau/été ü/a%b\"c.rs";
    let upper: String = t.bytes().map(|b| format!("%{:02X}", b)).collect();
    let lower: String = t.bytes().map(|b| format!("%{:02x}", b)).collect();
    assert_eq!(percent_decode(&upper), t);
    assert_eq!(percent_decode(&lower), t);
}
