//! The backing jar: the `cookie` crate's `CookieJar` and its keyed child
//! jars, reached only through the trusted contracts in this module.
//!
//! The jar value is opaque here; its observable state is named by two
//! uninterpreted maps, [`jar_originals`] (what `add_original` put in) and
//! [`jar_delta`] (what `add`/`remove` changed, a removal being `None`).
//! Every wrapper states how the call moves those two maps, as the crate's
//! source shows.

use vstd::prelude::*;

use crate::model::apply_delta;
use crate::value::Cookie;

verus! {

#[verifier::external_type_specification]
#[verifier::external_body]
pub struct ExCookieJar(cookie::CookieJar);

#[verifier::external_type_specification]
#[verifier::external_body]
pub struct ExKey(cookie::Key);

/// The cookies placed into the jar as "original" (request) cookies, by name.
pub uninterp spec fn jar_originals(j: cookie::CookieJar) -> Map<Seq<char>, Seq<char>>;

/// The changes made to the jar since construction, by name: `Some(v)` for a
/// cookie (re)written with value `v`, `None` for a removal marker.
pub uninterp spec fn jar_delta(j: cookie::CookieJar) -> Map<Seq<char>, Option<Seq<char>>>;

/// What a cookie header segment parses to, if anything: the name and the
/// (percent-decoded) value.
pub uninterp spec fn parsed_cookie(seg: Seq<u8>) -> Option<(Seq<char>, Seq<char>)>;

/// The stored form of a value signed with a key: the keyed signature
/// prepended to the value.
pub uninterp spec fn signed_value(k: cookie::Key, v: Seq<char>) -> Seq<char>;

/// What reading a stored value through the signed view of a key yields:
/// the authenticated plain value, or `None` when verification fails.
pub uninterp spec fn signed_read(k: cookie::Key, stored: Seq<char>) -> Option<Seq<char>>;

/// What reading a stored value of the named cookie through the private view
/// of a key yields: the decrypted plain value, or `None` when
/// authentication or decryption fails.
pub uninterp spec fn private_read(k: cookie::Key, name: Seq<char>, stored: Seq<char>) -> Option<
    Seq<char>,
>;

/// The current contents of the jar: what `CookieJar::get` and
/// `CookieJar::iter` observe.
pub open spec fn jar_cookies(j: cookie::CookieJar) -> Map<Seq<char>, Seq<char>> {
    apply_delta(jar_originals(j), jar_delta(j))
}

/// Relies on `cookie::CookieJar::new`: a fresh jar is empty and has an
/// empty change set.
#[verifier::external_body]
pub fn jar_new() -> (r: cookie::CookieJar)
    ensures
        forall|n: Seq<char>| !jar_originals(r).contains_key(n),
        forall|n: Seq<char>| !jar_delta(r).contains_key(n),
{
    cookie::CookieJar::new()
}

/// Relies on `cookie::CookieJar::add_original`: the cookie replaces any
/// original of the same name and leaves the delta alone.
#[verifier::external_body]
pub fn jar_add_original(j: &mut cookie::CookieJar, c: &Cookie)
    ensures
        jar_originals(*final(j)) == jar_originals(*old(j)).insert(c@.0, c@.1),
        jar_delta(*final(j)) == jar_delta(*old(j)),
{
    j.add_original(cookie::Cookie::new(c.name().to_owned(), c.value().to_owned()));
}

/// Relies on `cookie::CookieJar::add`: the cookie replaces any delta entry
/// of the same name and leaves the originals alone.
#[verifier::external_body]
pub fn jar_add(j: &mut cookie::CookieJar, c: &Cookie)
    ensures
        jar_originals(*final(j)) == jar_originals(*old(j)),
        jar_delta(*final(j)) == jar_delta(*old(j)).insert(c@.0, Some(c@.1)),
{
    j.add(cookie::Cookie::new(c.name().to_owned(), c.value().to_owned()));
}

/// Relies on `cookie::CookieJar::remove`: when an original of that name
/// exists a removal marker enters the delta, otherwise the name simply
/// leaves the delta; originals are untouched either way.
#[verifier::external_body]
pub fn jar_remove(j: &mut cookie::CookieJar, c: &Cookie)
    ensures
        jar_originals(*final(j)) == jar_originals(*old(j)),
        jar_originals(*old(j)).contains_key(c@.0) ==> jar_delta(*final(j)) == jar_delta(
            *old(j),
        ).insert(c@.0, None),
        !jar_originals(*old(j)).contains_key(c@.0) ==> jar_delta(*final(j)) == jar_delta(
            *old(j),
        ).remove(c@.0),
{
    j.remove(cookie::Cookie::new(c.name().to_owned(), c.value().to_owned()));
}

/// Relies on `cookie::CookieJar::get`: it returns the current cookie of
/// that name, removal markers hiding the original.
#[verifier::external_body]
pub fn jar_get(j: &cookie::CookieJar, name: &str) -> (r: Option<Cookie>)
    ensures
        match r {
            Some(c) => jar_cookies(*j).contains_key(name@) && c@ == (name@, jar_cookies(*j)[name@]),
            None => !jar_cookies(*j).contains_key(name@),
        },
{
    j.get(name).map(|c| Cookie::new(c.name(), c.value()))
}

/// Relies on `cookie::CookieJar::iter`: it yields each current cookie
/// exactly once, in an unspecified order.
#[verifier::external_body]
pub fn jar_list(j: &cookie::CookieJar) -> (r: Vec<Cookie>)
    ensures
        forall|a: int, b: int| 0 <= a < b < r.len() ==> r[a]@.0 != r[b]@.0,
        forall|i: int|
            0 <= i < r.len() ==> jar_cookies(*j).contains_key(#[trigger] r[i]@.0) && r[i]@.1
                == jar_cookies(*j)[r[i]@.0],
        forall|n: Seq<char>|
            jar_cookies(*j).contains_key(n) ==> exists|i: int|
                0 <= i < r.len() && #[trigger] r[i]@.0 == n,
{
    let mut out = Vec::new();
    for c in j.iter() {
        out.push(Cookie::new(c.name(), c.value()));
    }
    out
}

/// Relies on `cookie::CookieJar::delta` and the `Set-Cookie` rendering of
/// `cookie::Cookie` (its `Display`): one `(name, header value)` pair per
/// changed cookie, a rewritten cookie rendering as `name=value` followed by
/// its attributes, a removal as `name=` with a `Max-Age=0` attribute.
#[verifier::external_body]
pub fn jar_delta_lines(j: &cookie::CookieJar) -> (r: Vec<(String, String)>)
    ensures
        forall|a: int, b: int| 0 <= a < b < r.len() ==> r[a].0@ != r[b].0@,
        forall|i: int|
            0 <= i < r.len() ==> jar_delta(*j).contains_key(#[trigger] r[i].0@)
                && crate::model::line_for(r[i].0@, jar_delta(*j)[r[i].0@], r[i].1@),
        forall|n: Seq<char>|
            jar_delta(*j).contains_key(n) ==> exists|i: int|
                0 <= i < r.len() && #[trigger] r[i].0@ == n,
{
    let mut out = Vec::new();
    for c in j.delta() {
        out.push((c.name().to_string(), c.to_string()));
    }
    out
}

/// Relies on `cookie::Cookie::parse_encoded`: parsing a segment is a
/// function of its bytes alone (trimming, splitting on the first `'='` and
/// percent-decoding), failing on non-UTF-8 bytes and malformed segments.
#[verifier::external_body]
pub fn parse_segment(seg: &[u8]) -> (r: Option<Cookie>)
    ensures
        match r {
            Some(c) => parsed_cookie(seg@) == Some(c@),
            None => parsed_cookie(seg@) is None,
        },
{
    match std::str::from_utf8(seg) {
        Ok(s) => match cookie::Cookie::parse_encoded(s.to_owned()) {
            Ok(c) => Some(Cookie::new(c.name(), c.value())),
            Err(_) => None,
        },
        Err(_) => None,
    }
}

/// Relies on `std::str::from_utf8`: it succeeds exactly on UTF-8 encoded
/// bytes, which is what vstd's `valid_utf8` describes.
#[verifier::external_body]
pub fn utf8_valid(b: &[u8]) -> (r: bool)
    ensures
        r == vstd::utf8::valid_utf8(b@),
{
    std::str::from_utf8(b).is_ok()
}

/// Relies on `cookie::CookieJar::signed_mut` and `cookie::SignedJar::add`:
/// the cookie is stored under its name with the keyed signature prepended
/// to its value; the crate documents that a signed read with the same key
/// always authenticates such a value, and the prepended signature makes the
/// stored value strictly longer than the plain one.
#[verifier::external_body]
pub fn jar_signed_add(j: &mut cookie::CookieJar, key: &cookie::Key, c: &Cookie)
    ensures
        jar_originals(*final(j)) == jar_originals(*old(j)),
        jar_delta(*final(j)) == jar_delta(*old(j)).insert(
            c@.0,
            Some(signed_value(*key, c@.1)),
        ),
        signed_read(*key, (jar_delta(*final(j))[c@.0])->0) == Some(c@.1),
        ((jar_delta(*final(j))[c@.0])->0).len() > c@.1.len(),
{
    j.signed_mut(key).add(cookie::Cookie::new(c.name().to_owned(), c.value().to_owned()));
}

/// Relies on `cookie::CookieJar::signed` and `cookie::SignedJar::get`: it
/// reads the current cookie of that name and verifies its value with the
/// key, any failure collapsing to `None`.
#[verifier::external_body]
pub fn jar_signed_get(j: &cookie::CookieJar, key: &cookie::Key, name: &str) -> (r: Option<Cookie>)
    ensures
        match r {
            Some(c) => jar_cookies(*j).contains_key(name@) && c@.0 == name@ && signed_read(
                *key,
                jar_cookies(*j)[name@],
            ) == Some(c@.1),
            None => !jar_cookies(*j).contains_key(name@) || signed_read(
                *key,
                jar_cookies(*j)[name@],
            ) is None,
        },
{
    j.signed(key).get(name).map(|c| Cookie::new(c.name(), c.value()))
}

/// Relies on `cookie::CookieJar::private_mut` and `cookie::PrivateJar::add`:
/// the cookie is stored under its name with its value sealed by authenticated
/// encryption under the key, the cookie's name bound in as associated data.
/// The sealed value involves a fresh random nonce, so only what holds of
/// every outcome is stated: a private read of it with the same key and name
/// yields the plain value (as the crate documents), and the nonce, tag and
/// base64 rendering make it strictly longer than the plain value.
#[verifier::external_body]
pub fn jar_private_add(j: &mut cookie::CookieJar, key: &cookie::Key, c: &Cookie)
    ensures
        jar_originals(*final(j)) == jar_originals(*old(j)),
        jar_delta(*final(j)).contains_key(c@.0),
        jar_delta(*final(j))[c@.0] is Some,
        jar_delta(*final(j)).remove(c@.0) == jar_delta(*old(j)).remove(c@.0),
        private_read(*key, c@.0, (jar_delta(*final(j))[c@.0])->0) == Some(c@.1),
        ((jar_delta(*final(j))[c@.0])->0).len() > c@.1.len(),
{
    j.private_mut(key).add(cookie::Cookie::new(c.name().to_owned(), c.value().to_owned()));
}

/// Relies on `cookie::CookieJar::private` and `cookie::PrivateJar::get`: it
/// reads the current cookie of that name and unseals its value with the key
/// and the name, any failure collapsing to `None`.
#[verifier::external_body]
pub fn jar_private_get(j: &cookie::CookieJar, key: &cookie::Key, name: &str) -> (r: Option<Cookie>)
    ensures
        match r {
            Some(c) => jar_cookies(*j).contains_key(name@) && c@.0 == name@ && private_read(
                *key,
                name@,
                jar_cookies(*j)[name@],
            ) == Some(c@.1),
            None => !jar_cookies(*j).contains_key(name@) || private_read(
                *key,
                name@,
                jar_cookies(*j)[name@],
            ) is None,
        },
{
    j.private(key).get(name).map(|c| Cookie::new(c.name(), c.value()))
}

/// Relies on `std::sync::Arc::clone`: the clone is a handle to the very
/// same allocation, hence the same value.
#[verifier::external_body]
pub fn arc_clone<T>(a: &std::sync::Arc<T>) -> (r: std::sync::Arc<T>)
    ensures
        r == *a,
{
    std::sync::Arc::clone(a)
}

} // verus!
