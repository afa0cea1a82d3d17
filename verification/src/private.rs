//! A child view of a shared jar that encrypts its cookies: what it stores
//! is sealed by authenticated encryption with a caller-supplied key, what
//! it reads is authenticated and decrypted with the same key, and anything
//! that fails to unseal reads as absent. The view guards confidentiality,
//! integrity and authenticity at once.

use vstd::prelude::*;

use crate::value::Cookie;
use crate::Cookies;

verus! {

/// A private view over a shared jar: a cloned handle plus a borrowed key.
/// It has no storage of its own; cookies it writes share the plain jar's
/// namespace.
pub struct PrivateCookies<'a> {
    cookies: Cookies,
    key: &'a cookie::Key,
}

impl<'a> PrivateCookies<'a> {
    /// The key this view seals and unseals with.
    pub closed spec fn spec_key(self) -> cookie::Key {
        *self.key
    }

    /// The raw header lines of the parent jar.
    pub closed spec fn spec_headers(self) -> Seq<Seq<u8>> {
        self.cookies.spec_headers()
    }

    /// Builds the view over the parent handle; called through
    /// [`Cookies::private`].
    pub(crate) fn new(cookies: &Cookies, key: &'a cookie::Key) -> (r: Self)
        ensures
            r.spec_key() == *key,
            r.spec_headers() == cookies.spec_headers(),
    {
        PrivateCookies { cookies: cookies.clone(), key }
    }

    /// Stores the cookie in the parent jar with its value sealed by this
    /// view's key; see [`crate::Inner::private_add`].
    pub fn add(&self, cookie: Cookie) {
        let (mut inner, handle) = self.cookies.lock_jar();
        inner.private_add(self.key, cookie);
        handle.release_write(inner);
    }

    /// Reads the named cookie from the parent jar and unseals its value
    /// with this view's key; a missing cookie and one that fails to unseal
    /// both read as `None`; see [`crate::Inner::private_get`].
    pub fn get(&self, name: &str) -> (r: Option<Cookie>)
        ensures
            r matches Some(c) ==> c@.0 == name@,
    {
        let (mut inner, handle) = self.cookies.lock_jar();
        let r = inner.private_get(self.key, name);
        handle.release_write(inner);
        r
    }

    /// Removes the cookie from the parent jar; deleting needs no key.
    pub fn remove(&self, cookie: Cookie) {
        self.cookies.remove(cookie);
    }
}

} // verus!
