use cookie::Key;
use tower_cookies::{Cookie, Cookies};

#[test]
fn private_get_absent() {
    let key = Key::generate();
    let cookies = Cookies::new(vec![]);
    assert_eq!(cookies.private(&key).get("foo"), None);
}

#[test]
fn add_get_private() {
    let key = Key::generate();
    let cookies = Cookies::new(vec![]);
    let cookie = Cookie::new("foo", "bar");
    let private = cookies.private(&key);
    private.add(cookie.clone());
    assert_eq!(private.get("foo").unwrap(), cookie);
}

#[test]
fn add_private_get_raw() {
    let key = Key::generate();
    let cookies = Cookies::new(vec![]);
    let cookie = Cookie::new("foo", "bar");
    cookies.private(&key).add(cookie.clone());
    assert_ne!(cookies.get("foo").unwrap(), cookie);
}

#[test]
fn add_raw_get_private() {
    let key = Key::generate();
    let cookies = Cookies::new(vec![]);
    let cookie = Cookie::new("foo", "bar");
    cookies.add(cookie);
    assert_eq!(cookies.private(&key).get("foo"), None);
}

#[test]
fn private_messed_keys() {
    let key1 = Key::generate();
    let key2 = Key::generate();
    let cookies = Cookies::new(vec![]);
    let cookie = Cookie::new("foo", "bar");
    cookies.private(&key1).add(cookie);
    assert_eq!(cookies.private(&key2).get("foo"), None);
}

#[test]
fn private_remove() {
    let key = Key::generate();
    let cookies = Cookies::new(vec![]);
    let private = cookies.private(&key);
    private.add(Cookie::new("foo", "bar"));
    let cookie = private.get("foo").unwrap();
    private.remove(cookie);
    assert!(private.get("foo").is_none());
}
