//! The middleware building blocks: a service wrapper that owns the
//! downstream service, and the stateless layer that produces it.
//!
//! The per-request work itself — capturing the request's cookie header
//! lines with [`crate::Cookies::new`], exposing the handle downstream, and
//! appending what [`crate::Cookies::response_headers`] owes once the
//! response is ready — is driven by the surrounding service framework.

use vstd::prelude::*;

verus! {

/// Wraps a downstream service with cookie-jar handling.
#[derive(Clone, Debug)]
pub struct CookieManager<S> {
    inner: S,
}

impl<S> CookieManager<S> {
    /// The wrapped downstream service.
    pub closed spec fn spec_inner(self) -> S {
        self.inner
    }

    /// Wraps the downstream service.
    pub fn new(inner: S) -> (r: Self)
        ensures
            r.spec_inner() == inner,
    {
        CookieManager { inner }
    }

    /// A shared borrow of the downstream service.
    pub fn get_ref(&self) -> (r: &S)
        ensures
            *r == self.spec_inner(),
    {
        &self.inner
    }

    /// Hands the downstream service back.
    pub fn into_inner(self) -> (r: S)
        ensures
            r == self.spec_inner(),
    {
        self.inner
    }
}

/// The stateless factory: applying it to a downstream service yields the
/// [`CookieManager`] wrapping that service.
#[derive(Clone, Debug)]
pub struct CookieManagerLayer {

}

impl CookieManagerLayer {
    /// Builds the layer; it carries no state.
    pub fn new() -> (r: CookieManagerLayer) {
        CookieManagerLayer {  }
    }

    /// Applies the layer: wraps the downstream service.
    pub fn layer<S>(&self, inner: S) -> (r: CookieManager<S>)
        ensures
            r.spec_inner() == inner,
    {
        CookieManager::new(inner)
    }
}

} // verus!
