use future_work::json::{Json, JsonNumber};
use future_work::paths::runtime_socket_path;
use future_work::text::{
    chars_of, dec_string, join_strings, parse_u32_chars, parse_usize_chars, split_chars, string_of,
    trim_str,
};

#[test]
fn trims_unicode_whitespace() {
    assert_eq!(trim_str("\u{3000} a b\t\n"), "a b");
    assert_eq!(trim_str("   "), "");
}

#[test]
fn decimal_strings() {
    assert_eq!(dec_string(0), "0");
    assert_eq!(dec_string(18446744073709551615), "18446744073709551615");
}

#[test]
fn parses_like_str_parse() {
    assert_eq!(parse_u32_chars(&chars_of("4294967295")), Some(u32::MAX));
    assert_eq!(parse_u32_chars(&chars_of("4294967296")), None);
    assert_eq!(parse_u32_chars(&chars_of("+12")), Some(12));
    assert_eq!(parse_u32_chars(&chars_of("+")), None);
    assert_eq!(parse_u32_chars(&chars_of("")), None);
    assert_eq!(parse_u32_chars(&chars_of("-1")), None);
    assert_eq!(parse_u32_chars(&chars_of("007")), Some(7));
    assert_eq!(parse_usize_chars(&chars_of("123")), Some(123));
}

#[test]
fn splits_and_joins() {
    let parts = split_chars(&chars_of("a::b"), ':');
    let parts: Vec<String> = parts.iter().map(|p| string_of(p)).collect();
    assert_eq!(parts, vec!["a", "", "b"]);
    assert_eq!(join_strings(&parts, "-"), "a--b");
}

#[test]
fn json_lookups() {
    let v = Json::Object(vec![
        ("a".to_string(), Json::Str("x".to_string())),
        ("n".to_string(), Json::Number(JsonNumber::PosInt(5))),
        ("m".to_string(), Json::Number(JsonNumber::NegInt(-5))),
    ]);
    assert_eq!(v.get("a").and_then(|j| j.as_str()), Some("x"));
    assert_eq!(v.get("n").and_then(|j| j.as_u64()), Some(5));
    assert_eq!(v.get("m").and_then(|j| j.as_u64()), None);
    assert!(v.get("zz").is_none());
    assert!(Json::Null.get("a").is_none());
}

#[test]
fn runtime_sockets() {
    assert_eq!(runtime_socket_path(&Some("/run/user/5".to_string()), "current.sock"), "/run/user/5/current.sock");
    assert_eq!(runtime_socket_path(&None, "lsp-broker.sock"), "/run/user/1000/lsp-broker.sock");
}
