use cookie::Key;
use tower_cookies::{Cookie, Cookies};

#[test]
fn signed_get_absent() {
    let key = Key::generate();
    let cookies = Cookies::new(vec![]);
    assert_eq!(cookies.signed(&key).get("foo"), None);
}

#[test]
fn add_get_signed() {
    let key = Key::generate();
    let cookies = Cookies::new(vec![]);
    let cookie = Cookie::new("foo", "bar");
    let signed = cookies.signed(&key);
    signed.add(cookie.clone());
    assert_eq!(signed.get("foo").unwrap(), cookie);
}

#[test]
fn add_signed_get_raw() {
    let key = Key::generate();
    let cookies = Cookies::new(vec![]);
    let cookie = Cookie::new("foo", "bar");
    cookies.signed(&key).add(cookie.clone());
    assert_ne!(cookies.get("foo").unwrap(), cookie);
}

#[test]
fn add_raw_get_signed() {
    let key = Key::generate();
    let cookies = Cookies::new(vec![]);
    let cookie = Cookie::new("foo", "bar");
    cookies.add(cookie);
    assert_eq!(cookies.signed(&key).get("foo"), None);
}

#[test]
fn signed_messed_keys() {
    let key1 = Key::generate();
    let key2 = Key::generate();
    let cookies = Cookies::new(vec![]);
    let cookie = Cookie::new("foo", "bar");
    cookies.signed(&key1).add(cookie);
    assert_eq!(cookies.signed(&key2).get("foo"), None);
}

#[test]
fn signed_remove() {
    let key = Key::generate();
    let cookies = Cookies::new(vec![]);
    let signed = cookies.signed(&key);
    signed.add(Cookie::new("foo", "bar"));
    let cookie = signed.get("foo").unwrap();
    signed.remove(cookie);
    assert!(signed.get("foo").is_none());
}
