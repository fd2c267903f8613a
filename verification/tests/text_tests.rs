use llmproxy::client::{parse_index, resolve_target, TargetResolution};
use llmproxy::models::ProxyServerInfo;
use llmproxy::text::{str_contains_char, str_eq, str_starts_with, trim_str, u16_to_dec};

#[test]
fn trim_removes_whitespace_at_both_ends() {
    assert_eq!(trim_str("  a b  "), "a b");
    assert_eq!(trim_str("\t\r\n x \u{3000}"), "x");
    assert_eq!(trim_str("model"), "model");
    assert_eq!(trim_str("   "), "");
    assert_eq!(trim_str(""), "");
}

#[test]
fn contains_finds_the_separator() {
    assert!(str_contains_char("localhost:8001", ':'));
    assert!(!str_contains_char("noport", ':'));
    assert!(!str_contains_char("", ':'));
}

#[test]
fn string_equality_is_by_content() {
    assert!(str_eq("abc", "abc"));
    assert!(!str_eq("abc", "abd"));
    assert!(!str_eq("abc", "ab"));
    assert!(str_eq("", ""));
}

#[test]
fn prefix_test_matches_literal_prefixes() {
    assert!(str_starts_with("http://x", "http://"));
    assert!(!str_starts_with("https://x", "http://"));
    assert!(!str_starts_with("htt", "http://"));
}

#[test]
fn decimal_rendering_is_exact() {
    assert_eq!(u16_to_dec(0), "0");
    assert_eq!(u16_to_dec(7), "7");
    assert_eq!(u16_to_dec(502), "502");
    assert_eq!(u16_to_dec(65535), "65535");
}

#[test]
fn parse_index_accepts_plain_digit_strings_only() {
    assert_eq!(parse_index("42"), Some(42));
    assert_eq!(parse_index("007"), Some(7));
    assert_eq!(parse_index("0"), Some(0));
    assert_eq!(parse_index(""), None);
    assert_eq!(parse_index("+1"), None);
    assert_eq!(parse_index("localhost:8001"), None);
    assert_eq!(parse_index("4 2"), None);
    assert_eq!(parse_index("184467440737095516150"), None);
}

fn service(model: &str, addr: &str) -> ProxyServerInfo {
    ProxyServerInfo { model_name: model.to_string(), addr: addr.to_string() }
}

#[test]
fn resolve_target_handles_indices_and_addresses() {
    let list = vec![service("a", "h:1"), service("b", "h:2")];
    match resolve_target(&list, "1") {
        TargetResolution::Resolved { addr } => assert_eq!(addr, "h:1"),
        _ => panic!("index 1 must resolve"),
    }
    match resolve_target(&list, "2") {
        TargetResolution::Resolved { addr } => assert_eq!(addr, "h:2"),
        _ => panic!("index 2 must resolve"),
    }
    match resolve_target(&list, "localhost:8001") {
        TargetResolution::Address { addr } => assert_eq!(addr, "localhost:8001"),
        _ => panic!("a non-number is used as an address"),
    }
    assert!(matches!(resolve_target(&list, "0"), TargetResolution::ZeroIndex));
    assert!(matches!(resolve_target(&list, "3"), TargetResolution::OutOfRange));
    let empty: Vec<ProxyServerInfo> = vec![];
    assert!(matches!(resolve_target(&empty, "1"), TargetResolution::EmptyList));
}
