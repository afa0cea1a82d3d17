//! The cookie value type handled by this crate: a name paired with a value.
//!
//! Incoming request headers only ever carry `name=value` pairs, and every
//! cookie written through this middleware is written as such a pair, so this
//! is the whole data model a handler needs.

use vstd::prelude::*;

verus! {

/// A cookie: a name together with a value.
#[derive(Clone, Debug)]
pub struct Cookie {
    name: String,
    value: String,
}

impl View for Cookie {
    type V = (Seq<char>, Seq<char>);

    closed spec fn view(&self) -> (Seq<char>, Seq<char>) {
        (self.name@, self.value@)
    }
}

impl Cookie {
    /// Builds a cookie from its name and value.
    pub fn new(name: &str, value: &str) -> (r: Cookie)
        ensures
            r@ == (name@, value@),
    {
        Cookie { name: name.to_owned(), value: value.to_owned() }
    }

    /// The cookie's name.
    pub fn name(&self) -> (r: &str)
        ensures
            r@ == self@.0,
    {
        self.name.as_str()
    }

    /// The cookie's value.
    pub fn value(&self) -> (r: &str)
        ensures
            r@ == self@.1,
    {
        self.value.as_str()
    }
}

impl PartialEq for Cookie {
    fn eq(&self, other: &Cookie) -> (r: bool) {
        self.name == other.name && self.value == other.value
    }
}

impl Eq for Cookie {

}

impl vstd::std_specs::cmp::PartialEqSpecImpl for Cookie {
    open spec fn obeys_eq_spec() -> bool {
        true
    }

    open spec fn eq_spec(&self, other: &Cookie) -> bool {
        self@ == other@
    }
}

} // verus!
