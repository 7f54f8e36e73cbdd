use qtools::error::AppError;
use qtools::memory::uri::{is_valid_domain, parse_uri, split_parent_path, ParsedUri};

#[test]
fn test_parse_standard_uri() {
    let p = parse_uri("core://agent/identity").unwrap();
    assert_eq!(p.domain, "core");
    assert_eq!(p.path, "agent/identity");
}

#[test]
fn test_parse_domain_only() {
    let p = parse_uri("core://").unwrap();
    assert_eq!(p.domain, "core");
    assert_eq!(p.path, "");
}

#[test]
fn test_parse_no_domain() {
    let p = parse_uri("agent").unwrap();
    assert_eq!(p.domain, "core");
    assert_eq!(p.path, "agent");
}

#[test]
fn test_split_parent_path() {
    assert_eq!(split_parent_path("agent/identity"), ("agent", "identity"));
    assert_eq!(split_parent_path("agent"), ("", "agent"));
}

#[test]
fn parse_trims_surrounding_whitespace() {
    let p = parse_uri("  \twriter://a/b \n").unwrap();
    assert_eq!(p.domain, "writer");
    assert_eq!(p.path, "a/b");
}

#[test]
fn parse_rejects_empty_domain() {
    let e = parse_uri("://x").unwrap_err();
    assert_eq!(e.message(), "Empty domain in URI");
}

#[test]
fn parse_rejects_bare_separator() {
    match parse_uri("://") {
        Err(AppError::Internal(m)) => assert_eq!(m, "Empty domain in URI"),
        other => panic!("unexpected {other:?}"),
    }
}

#[test]
fn parse_trailing_separator_splits_at_the_first() {
    let p = parse_uri("a://b://").unwrap();
    assert_eq!(p.domain, "a");
    assert_eq!(p.path, "b://");
    let p = parse_uri("core://").unwrap();
    assert_eq!(p.domain, "core");
    assert_eq!(p.path, "");
}

#[test]
fn parse_splits_at_first_separator() {
    let p = parse_uri("a://b://c").unwrap();
    assert_eq!(p.domain, "a");
    assert_eq!(p.path, "b://c");
}

#[test]
fn to_uri_round_trips() {
    let p = parse_uri("notes://x/y").unwrap();
    assert_eq!(p.to_uri(), "notes://x/y");
    let q = ParsedUri { domain: "game".to_string(), path: "".to_string() };
    assert_eq!(q.to_uri(), "game://");
}

#[test]
fn split_parent_path_uses_last_slash() {
    assert_eq!(split_parent_path("a/b/c"), ("a/b", "c"));
    assert_eq!(split_parent_path("a/"), ("a", ""));
    assert_eq!(split_parent_path(""), ("", ""));
}

#[test]
fn valid_domains_are_recognised() {
    for d in ["core", "writer", "game", "notes", "system"] {
        assert!(is_valid_domain(d));
    }
    assert!(!is_valid_domain("other"));
    assert!(!is_valid_domain("Core"));
    assert!(!is_valid_domain(""));
}
