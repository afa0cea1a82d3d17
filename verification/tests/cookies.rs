use tower_cookies::{Cookie, Cookies};

fn rendered(cookies: &Cookies) -> String {
    let mut items = cookies
        .list()
        .iter()
        .map(|c| format!("{}={}", c.name(), c.value()))
        .collect::<Vec<_>>();
    items.sort();
    items.join(", ")
}

#[test]
fn read_cookies() {
    let cookies = Cookies::new(vec![b"foo=1; bar=2".to_vec()]);
    assert_eq!(rendered(&cookies), "bar=2, foo=1");
}

#[test]
fn read_multi_header_cookies() {
    let cookies = Cookies::new(vec![b"foo=1".to_vec(), b"bar=2".to_vec()]);
    assert_eq!(rendered(&cookies), "bar=2, foo=1");
}

#[test]
fn add_cookies() {
    let cookies = Cookies::new(vec![b"foo=1; bar=2".to_vec()]);
    cookies.add(Cookie::new("baz", "3"));
    cookies.add(Cookie::new("spam", "4"));
    let mut hdrs = cookies.response_headers();
    hdrs.sort();
    assert_eq!(hdrs, ["baz=3", "spam=4"]);
}

#[test]
fn remove_cookies() {
    let cookies = Cookies::new(vec![b"foo=1; bar=2".to_vec()]);
    cookies.remove(Cookie::new("foo", ""));
    let hdrs = cookies.response_headers();
    assert_eq!(hdrs.len(), 1);
    assert!(hdrs[0].starts_with("foo=; Max-Age=0"));
}

#[test]
fn remove_absent_emits_nothing() {
    let cookies = Cookies::new(vec![b"foo=1".to_vec()]);
    cookies.remove(Cookie::new("nope", ""));
    assert_eq!(cookies.response_headers().len(), 0);
}

#[test]
fn reads_emit_no_headers() {
    let cookies = Cookies::new(vec![b"foo=1; bar=2".to_vec()]);
    assert!(cookies.get("foo").is_some());
    assert!(cookies.get("missing").is_none());
    let _ = cookies.list();
    let _ = cookies.list();
    assert_eq!(cookies.response_headers().len(), 0);
}

#[test]
fn list_is_idempotent() {
    let cookies = Cookies::new(vec![b"foo=1; bar=2".to_vec()]);
    let first = rendered(&cookies);
    let second = rendered(&cookies);
    assert_eq!(first, second);
    assert_eq!(cookies.get("foo"), cookies.get("foo"));
}

#[test]
fn add_replaces_by_name() {
    let cookies = Cookies::new(vec![b"foo=1".to_vec()]);
    cookies.add(Cookie::new("foo", "9"));
    assert_eq!(cookies.get("foo").unwrap().value(), "9");
    let hdrs = cookies.response_headers();
    assert_eq!(hdrs, ["foo=9"]);
}

#[test]
fn non_utf8_header_is_ignored() {
    let cookies = Cookies::new(vec![vec![b'a', b'=', b'1', 0xff, 0xfe], b"bar=2".to_vec()]);
    assert_eq!(rendered(&cookies), "bar=2");
}

#[test]
fn malformed_segments_are_dropped() {
    let cookies = Cookies::new(vec![b"just-junk; foo=1; ; =nope".to_vec()]);
    assert_eq!(rendered(&cookies), "foo=1");
}

#[test]
fn encoded_values_are_decoded() {
    let cookies = Cookies::new(vec![b"greeting=hello%20world".to_vec()]);
    assert_eq!(cookies.get("greeting").unwrap().value(), "hello world");
}

#[test]
fn no_headers_means_empty_jar() {
    let cookies = Cookies::new(vec![]);
    assert_eq!(cookies.list().len(), 0);
    assert_eq!(cookies.get("foo"), None);
}

#[test]
fn clones_share_one_jar() {
    let cookies = Cookies::new(vec![b"foo=1".to_vec()]);
    let other = cookies.clone();
    other.add(Cookie::new("bar", "2"));
    assert_eq!(rendered(&cookies), "bar=2, foo=1");
    assert_eq!(cookies.response_headers(), ["bar=2"]);
}

#[test]
fn later_duplicate_name_wins() {
    let cookies = Cookies::new(vec![b"foo=1; foo=2".to_vec()]);
    assert_eq!(cookies.get("foo").unwrap().value(), "2");
}
