//! A child view of a shared jar that authenticates its cookies: what it
//! stores is signed with a caller-supplied key, what it reads is verified
//! with the same key, and anything that fails to verify reads as absent.
//! Values stay readable in the jar itself — the view guards integrity and
//! authenticity, not confidentiality.

use vstd::prelude::*;

use crate::value::Cookie;
use crate::Cookies;

verus! {

/// A signed view over a shared jar: a cloned handle plus a borrowed key.
/// It has no storage of its own; cookies it writes share the plain jar's
/// namespace.
pub struct SignedCookies<'a> {
    cookies: Cookies,
    key: &'a cookie::Key,
}

impl<'a> SignedCookies<'a> {
    /// The key this view signs and verifies with.
    pub closed spec fn spec_key(self) -> cookie::Key {
        *self.key
    }

    /// The raw header lines of the parent jar.
    pub closed spec fn spec_headers(self) -> Seq<Seq<u8>> {
        self.cookies.spec_headers()
    }

    /// Builds the view over the parent handle; called through
    /// [`Cookies::signed`].
    pub(crate) fn new(cookies: &Cookies, key: &'a cookie::Key) -> (r: Self)
        ensures
            r.spec_key() == *key,
            r.spec_headers() == cookies.spec_headers(),
    {
        SignedCookies { cookies: cookies.clone(), key }
    }

    /// Stores the cookie in the parent jar with its value signed by this
    /// view's key; see [`crate::Inner::signed_add`].
    pub fn add(&self, cookie: Cookie) {
        let (mut inner, handle) = self.cookies.lock_jar();
        inner.signed_add(self.key, cookie);
        handle.release_write(inner);
    }

    /// Reads the named cookie from the parent jar and verifies its value
    /// with this view's key; a missing cookie and one that fails to verify
    /// both read as `None`; see [`crate::Inner::signed_get`].
    pub fn get(&self, name: &str) -> (r: Option<Cookie>)
        ensures
            r matches Some(c) ==> c@.0 == name@,
    {
        let (mut inner, handle) = self.cookies.lock_jar();
        let r = inner.signed_get(self.key, name);
        handle.release_write(inner);
        r
    }

    /// Removes the cookie from the parent jar; deleting needs no key.
    pub fn remove(&self, cookie: Cookie) {
        self.cookies.remove(cookie);
    }
}

} // verus!
