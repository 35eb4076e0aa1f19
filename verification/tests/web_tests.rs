use netsentry::token::{format_token, stored_token};
use netsentry::web::{authorize, extract_token, sanitize_asset_path, unauthorized_text};

fn sp(p: &str) -> Option<String> {
    sanitize_asset_path(p)
}

#[test]
fn root_serves_index() {
    assert_eq!(sp("/").as_deref(), Some("index.html"));
    assert_eq!(sp("").as_deref(), Some("index.html"));
    assert_eq!(sp("///").as_deref(), Some("index.html"));
    assert_eq!(sp("/?token=abc").as_deref(), Some("index.html"));
    assert_eq!(sp("/#top").as_deref(), Some("index.html"));
}

#[test]
fn ordinary_paths_are_kept() {
    assert_eq!(sp("/assets/app.js").as_deref(), Some("assets/app.js"));
    assert_eq!(sp("/assets//app.js?v=1").as_deref(), Some("assets/app.js"));
    assert_eq!(sp("index.html#x").as_deref(), Some("index.html"));
    assert_eq!(sp("/a/b/").as_deref(), Some("a/b"));
    assert_eq!(sp("/a..b/c.d").as_deref(), Some("a..b/c.d"));
}

#[test]
fn traversal_is_refused() {
    assert_eq!(sp("/../../Windows/win.ini"), None);
    assert_eq!(sp("/a/./b"), None);
    assert_eq!(sp("/a/.."), None);
    assert_eq!(sp("/a\\b"), None);
    assert_eq!(sp("/C:/x"), None);
    assert_eq!(sp("/a\0b"), None);
    assert_eq!(sp("/ok/../x?q=1"), None);
}

#[test]
fn query_after_traversal_is_cut_first() {
    assert_eq!(sp("/x?../..").as_deref(), Some("x"));
}

#[test]
fn token_from_bearer_header() {
    assert_eq!(extract_token(Some("Bearer abc"), None).as_deref(), Some("abc"));
    assert_eq!(extract_token(Some("Bearer   abc \t"), None).as_deref(), Some("abc"));
    assert_eq!(extract_token(Some("Bearer "), None).as_deref(), Some(""));
    assert_eq!(extract_token(Some("Bearer x"), Some("token=y")).as_deref(), Some("x"));
}

#[test]
fn token_from_query_when_header_unusable() {
    assert_eq!(extract_token(Some("Basic abc"), Some("token=y")).as_deref(), Some("y"));
    assert_eq!(extract_token(None, Some("a=1&token=z&token=w")).as_deref(), Some("z"));
    assert_eq!(extract_token(None, Some("token=a=b")).as_deref(), Some("a=b"));
    assert_eq!(extract_token(None, Some("token")), None);
    assert_eq!(extract_token(None, Some("tokens=1")), None);
    assert_eq!(extract_token(None, Some("token=")).as_deref(), Some(""));
    assert_eq!(extract_token(None, None), None);
    assert_eq!(extract_token(Some("bearer abc"), None), None);
}

#[test]
fn authorization_decisions() {
    assert!(authorize(true, None, None, "secret"));
    assert!(authorize(false, Some("Bearer secret"), None, "secret"));
    assert!(authorize(false, None, Some("token=secret"), "secret"));
    assert!(!authorize(false, None, None, "secret"));
    assert!(!authorize(false, Some("Bearer wrong"), Some("token=secret"), "secret"));
    assert!(!authorize(false, None, Some("token=secre"), "secret"));
    assert_eq!(unauthorized_text(), "Unauthorized: provide Authorization: Bearer <token>");
}

#[test]
fn token_format() {
    assert_eq!(format_token(0, 255), "000000000000000000000000000000ff");
    assert_eq!(format_token(u64::MAX, 0x0123456789abcdef), "ffffffffffffffff0123456789abcdef");
    assert_eq!(format_token(0x1234, 1).len(), 32);
}

#[test]
fn stored_token_is_trimmed() {
    assert_eq!(stored_token("  abc\n").as_deref(), Some("abc"));
    assert_eq!(stored_token(" \n\t"), None);
    assert_eq!(stored_token(""), None);
    let t = format_token(7, 9);
    assert_eq!(stored_token(&t).as_deref(), Some(t.as_str()));
}

#[test]
fn sanitized_path_maps_to_itself() {
    for raw in ["/", "/assets//app.js?v=1", "a/b/", "///x#y", "/index.html"] {
        let once = sp(raw).unwrap();
        assert_eq!(sp(&once).as_deref(), Some(once.as_str()));
    }
}

#[test]
fn sanitized_segments_are_safe() {
    let p = sp("/a/b.c//d?e").unwrap();
    for seg in p.split('/') {
        assert!(!seg.is_empty());
        assert!(seg != "." && seg != "..");
        assert!(!seg.contains('\\') && !seg.contains(':') && !seg.contains('\0'));
    }
}

#[test]
fn sanitized_path_is_relative_without_query() {
    for raw in ["/", "//a/b?c#d", "/x#y?z", "/?", "#", "/a/b/c/"] {
        let p = sp(raw).unwrap();
        assert!(!p.is_empty());
        assert!(!p.starts_with('/'));
        assert!(!p.contains('?') && !p.contains('#'));
    }
}

#[test]
fn bearer_token_is_compared_after_trimming() {
    assert!(authorize(false, Some("Bearer  secret \t"), Some("token=other"), "secret"));
    assert!(!authorize(false, Some("Bearer sec ret"), Some("token=secret"), "secret"));
}
