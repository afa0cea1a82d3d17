//! A cookie-jar middleware library for tower-style HTTP services.
//!
//! The heart of the crate is [`Inner`], a per-request jar that parses the
//! request's cookie headers lazily, tracks whether any mutation happened, and
//! derives the outgoing `Set-Cookie` header values for everything that
//! changed. [`Cookies`] wraps one [`Inner`] in a shared, lock-guarded handle
//! so that handler code and the response hook can reach the same jar.

use vstd::prelude::*;

mod inner;
mod jar;
mod laws;
mod model;
mod private;
mod service;
mod signed;
mod value;

pub use inner::lemma_unchanged_owes_no_headers;
pub use inner::Inner;
pub use laws::delta_of_removal;
pub use laws::delta_of_two_adds;
pub use laws::lemma_empty_delta_owes_nothing;
pub use laws::lemma_header_split_agrees;
pub use laws::lemma_removal_owes_one_header;
pub use laws::lemma_snapshots_agree;
pub use laws::lemma_two_adds_owe_two_headers;
pub use private::PrivateCookies;
pub use service::CookieManager;
pub use service::CookieManagerLayer;
pub use signed::SignedCookies;
pub use value::Cookie;

use crate::jar::arc_clone;
use crate::model::apply_delta;
use crate::model::cookie_views;
use crate::model::lines_for_delta;
use crate::model::lists_map;
use crate::model::originals_of;
use crate::model::strings_view;

verus! {

/// The lock predicate of a shared jar: the guarded jar is well-formed and
/// was built from this request's header lines.
pub struct JarPred {
    /// The raw header lines the jar was built from.
    pub headers: Seq<Seq<u8>>,
}

impl vstd::rwlock::RwLockPredicate<Inner> for JarPred {
    open spec fn inv(self, v: Inner) -> bool {
        v.wf() && v.headers_view() == self.headers
    }
}

/// A shared, clonable handle to one request's cookie jar. Every clone
/// refers to the same jar, so a mutation made through any handle is seen
/// through all of them; a lock keeps the accesses mutually exclusive.
pub struct Cookies {
    inner: std::sync::Arc<vstd::rwlock::RwLock<Inner, JarPred>>,
}

impl Cookies {
    /// The raw header lines the shared jar was built from.
    pub closed spec fn spec_headers(self) -> Seq<Seq<u8>> {
        self.inner.pred().headers
    }

    /// Acquires the jar's lock for a compound operation by a child view;
    /// the caller gets the jar value and must hand it back through the
    /// handle.
    pub(crate) fn lock_jar<'b>(&'b self) -> (r: (
        Inner,
        vstd::rwlock::WriteHandle<'b, Inner, JarPred>,
    ))
        ensures
            r.1.rwlock().inv(r.0),
            r.1.rwlock().pred() == (JarPred { headers: self.spec_headers() }),
    {
        (*self.inner).acquire_write()
    }

    /// Captures the request's raw cookie header lines; nothing is parsed
    /// until a jar operation first needs the contents.
    pub fn new(headers: Vec<Vec<u8>>) -> (r: Cookies)
        ensures
            r.spec_headers() == headers@.map_values(|h: Vec<u8>| h@),
    {
        let ghost hv = headers@.map_values(|h: Vec<u8>| h@);
        let inner = Inner::new(headers);
        let lock = vstd::rwlock::RwLock::new(inner, Ghost(JarPred { headers: hv }));
        Cookies { inner: std::sync::Arc::new(lock) }
    }

    /// Inserts or replaces the cookie by name in the shared jar and marks
    /// it changed. The effect on the jar's state is [`Inner::add`]; it is
    /// seen by every later operation through any handle.
    pub fn add(&self, cookie: Cookie) {
        let (mut inner, handle) = (*self.inner).acquire_write();
        inner.add(cookie);
        handle.release_write(inner);
    }

    /// Looks the cookie up by name in the shared jar; see [`Inner::get`].
    pub fn get(&self, name: &str) -> (r: Option<Cookie>)
        ensures
            r matches Some(c) ==> c@.0 == name@,
    {
        let (mut inner, handle) = (*self.inner).acquire_write();
        let r = inner.get(name);
        handle.release_write(inner);
        r
    }

    /// Removes the cookie by name from the shared jar and marks it
    /// changed, also when there was nothing to remove; see [`Inner::remove`].
    pub fn remove(&self, cookie: Cookie) {
        let (mut inner, handle) = (*self.inner).acquire_write();
        inner.remove(cookie);
        handle.release_write(inner);
    }

    /// A snapshot of the shared jar's current contents, taken under one
    /// lock acquisition: this request's parsed cookies overridden by the
    /// mutations made so far through any handle; see [`Inner::list`].
    pub fn list(&self) -> (r: Vec<Cookie>)
        ensures
            exists|d: Map<Seq<char>, Option<Seq<char>>>|
                #[trigger] lists_map(
                    cookie_views(r@),
                    apply_delta(originals_of(self.spec_headers()), d),
                ),
    {
        let (mut inner, handle) = (*self.inner).acquire_write();
        let r = inner.list();
        proof {
            assert(lists_map(
                cookie_views(r@),
                apply_delta(originals_of(self.spec_headers()), inner.delta_view()),
            ));
        }
        handle.release_write(inner);
        r
    }

    /// The outgoing `Set-Cookie` header values owed for this request: none
    /// at all when no handle mutated the jar, else exactly one per changed
    /// cookie; see [`Inner::response_headers`].
    pub fn response_headers(&self) -> (r: Vec<String>)
        ensures
            exists|d: Map<Seq<char>, Option<Seq<char>>>| #[trigger] lines_for_delta(
                strings_view(r@),
                d,
            ),
    {
        let (inner, handle) = (*self.inner).acquire_write();
        let r = inner.response_headers();
        proof {
            let lines = strings_view(r@);
            if inner.spec_changed() {
                assert(lines_for_delta(lines, inner.delta_view()));
            } else {
                let d0 = Map::<Seq<char>, Option<Seq<char>>>::empty();
                assert(d0.dom() =~= Set::<Seq<char>>::empty());
                assert(lines_for_delta(lines, d0));
            }
        }
        handle.release_write(inner);
        r
    }

    /// A child view that signs what it stores and authenticates what it
    /// reads, keyed by the caller's borrowed key.
    pub fn signed<'a>(&self, key: &'a cookie::Key) -> (r: SignedCookies<'a>)
        ensures
            r.spec_key() == *key,
            r.spec_headers() == self.spec_headers(),
    {
        SignedCookies::new(self, key)
    }

    /// A child view that encrypts what it stores and authenticates and
    /// decrypts what it reads, keyed by the caller's borrowed key.
    pub fn private<'a>(&self, key: &'a cookie::Key) -> (r: PrivateCookies<'a>)
        ensures
            r.spec_key() == *key,
            r.spec_headers() == self.spec_headers(),
    {
        PrivateCookies::new(self, key)
    }
}

impl Clone for Cookies {
    /// The clone is a handle to the very same shared jar.
    fn clone(&self) -> (r: Cookies)
        ensures
            r == *self,
    {
        Cookies { inner: arc_clone(&self.inner) }
    }
}

} // verus!
