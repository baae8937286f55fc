use dexvm::natives::file::join_path;
use dexvm::uri::{html_to_text, percent_decode, replace_text, split_uri, uri_encode_text};

#[test]
fn uri_encode_keeps_unreserved_and_escapes_the_rest() {
    assert_eq!(uri_encode_text("a b/c?d=é"), "a%20b%2Fc%3Fd%3D%C3%A9");
    assert_eq!(uri_encode_text("-_.!~*'()"), "-_.!~*'()");
}

#[test]
fn percent_decode_reverses_encoding() {
    assert_eq!(percent_decode("a%20b%2fc%C3%A9x"), "a b/céx");
    // a trailing escape with nothing after it stays as written
    assert_eq!(percent_decode("50%2"), "50%2");
    assert_eq!(percent_decode("%zz1"), "%zz1");
}

#[test]
fn split_uri_finds_host_path_and_query() {
    let (h, p, q) = split_uri("https://example.com/a/b?x=1#frag");
    assert_eq!(h.as_deref(), Some("example.com"));
    assert_eq!(p, "/a/b");
    assert_eq!(q.as_deref(), Some("x=1"));
    let (h, p, q) = split_uri("mailto:someone");
    assert_eq!(h, None);
    assert_eq!(p, "someone");
    assert_eq!(q, None);
}

#[test]
fn html_text_strips_tags_and_entities() {
    assert_eq!(html_to_text("<b>Tom &amp; Jerry</b>&nbsp;&lt;3"), "Tom & Jerry <3");
    assert_eq!(replace_text("aaaa", "aa", "b"), "bb");
}

#[test]
fn path_join_follows_pathbuf_push() {
    assert_eq!(join_path("/tmp", "x"), "/tmp/x");
    assert_eq!(join_path("/tmp/", "x"), "/tmp/x");
    assert_eq!(join_path("", "x"), "x");
    assert_eq!(join_path("/tmp", "/etc"), "/etc");
    let mut p = std::path::PathBuf::from("/tmp");
    p.push("y");
    assert_eq!(join_path("/tmp", "y"), p.to_string_lossy());
}
