//! The per-request jar core: lazily parsed contents, dirty tracking, and
//! the derivation of outgoing header values.

use vstd::prelude::*;

use crate::jar::{
    jar_add, jar_add_original, jar_cookies, jar_delta, jar_delta_lines, jar_get, jar_list,
    jar_new, jar_originals, jar_private_add, jar_private_get, jar_remove, jar_signed_add,
    jar_signed_get, parse_segment, private_read, signed_read, signed_value, utf8_valid,
};
use crate::model::{
    apply_delta, header_pairs, headers_pairs, lemma_apply_delta_drop,
    lemma_apply_delta_insert_none, lemma_apply_delta_insert_some, lemma_apply_delta_off_key,
    cookie_views, lemma_headers_pairs_take, lemma_parsed_pairs_take, lines_for_delta, lists_map,
    map_of_pairs, originals_of, parsed_pairs, some_line_for, spec_split, split_bytes, strings_view,
};
use crate::value::Cookie;

verus! {

/// One request's cookie jar: the raw header lines it arrived with, the
/// backing jar once something needed it, and whether anything was mutated.
pub struct Inner {
    headers: Vec<Vec<u8>>,
    jar: Option<cookie::CookieJar>,
    changed: bool,
}

impl Inner {
    /// The raw header lines this jar was built from.
    pub closed spec fn headers_view(self) -> Seq<Seq<u8>> {
        self.headers@.map_values(|h: Vec<u8>| h@)
    }

    /// Whether a mutating operation has happened.
    pub closed spec fn spec_changed(self) -> bool {
        self.changed
    }

    /// The changes made so far: replacement values and removal markers, by
    /// name.
    pub closed spec fn delta_view(self) -> Map<Seq<char>, Option<Seq<char>>> {
        match self.jar {
            Some(j) => jar_delta(j),
            None => Map::empty(),
        }
    }

    /// The current contents: the parsed originals overridden by the delta.
    pub open spec fn cookies_view(self) -> Map<Seq<char>, Seq<char>> {
        apply_delta(originals_of(self.headers_view()), self.delta_view())
    }

    /// Well-formedness: once the jar is populated its originals are exactly
    /// what the header lines parse to; an untouched jar has an empty delta;
    /// a mutated jar is always populated.
    pub closed spec fn wf(self) -> bool {
        match self.jar {
            Some(j) => jar_originals(j) == originals_of(self.headers_view()) && (!self.changed
                ==> jar_delta(j) == Map::<Seq<char>, Option<Seq<char>>>::empty()),
            None => !self.changed,
        }
    }

    /// A fresh jar: headers captured, nothing parsed, nothing changed.
    pub fn new(headers: Vec<Vec<u8>>) -> (r: Inner)
        ensures
            r.wf(),
            !r.spec_changed(),
            r.headers_view() == headers@.map_values(|h: Vec<u8>| h@),
            r.delta_view() == Map::<Seq<char>, Option<Seq<char>>>::empty(),
    {
        Inner { headers, jar: None, changed: false }
    }

    /// Populates the backing jar from the captured header lines if that has
    /// not happened yet: each UTF-8 line is split on `';'` and every segment
    /// that parses enters the jar as an original cookie; non-UTF-8 lines and
    /// unparsable segments are dropped.
    fn ensure_parsed(&mut self)
        requires
            old(self).wf(),
        ensures
            final(self).wf(),
            final(self).jar is Some,
            final(self).headers_view() == old(self).headers_view(),
            final(self).spec_changed() == old(self).spec_changed(),
            final(self).delta_view() == old(self).delta_view(),
    {
        if self.jar.is_some() {
            return ;
        }
        let ghost hv = self.headers_view();
        let mut j = jar_new();
        proof {
            assert(jar_originals(j) =~= Map::<Seq<char>, Seq<char>>::empty());
            assert(jar_delta(j) =~= Map::<Seq<char>, Option<Seq<char>>>::empty());
            assert(hv.take(0) =~= Seq::<Seq<u8>>::empty());
        }
        let mut i: usize = 0;
        while i < self.headers.len()
            invariant
                i <= self.headers.len(),
                *self == *old(self),
                self.jar is None,
                hv == self.headers@.map_values(|h: Vec<u8>| h@),
                jar_originals(j) == map_of_pairs(headers_pairs(hv.take(i as int))),
                jar_delta(j) == Map::<Seq<char>, Option<Seq<char>>>::empty(),
            decreases self.headers.len() - i,
        {
            let h = &self.headers[i];
            proof {
                assert(hv[i as int] == h@);
            }
            if utf8_valid(h.as_slice()) {
                let segs = split_bytes(h);
                let ghost sv = segs@.map_values(|s: Vec<u8>| s@);
                let mut k: usize = 0;
                proof {
                    assert(sv.take(0) =~= Seq::<Seq<u8>>::empty());
                    assert(headers_pairs(hv.take(i as int)) + parsed_pairs(sv.take(0))
                        =~= headers_pairs(hv.take(i as int)));
                }
                while k < segs.len()
                    invariant
                        k <= segs.len(),
                        i < self.headers.len(),
                        *self == *old(self),
                        self.jar is None,
                        hv == self.headers@.map_values(|h2: Vec<u8>| h2@),
                        sv == segs@.map_values(|s: Vec<u8>| s@),
                        sv == spec_split(hv[i as int]),
                        jar_originals(j) == map_of_pairs(
                            headers_pairs(hv.take(i as int)) + parsed_pairs(sv.take(k as int)),
                        ),
                        jar_delta(j) == Map::<Seq<char>, Option<Seq<char>>>::empty(),
                    decreases segs.len() - k,
                {
                    let ghost pre = headers_pairs(hv.take(i as int)) + parsed_pairs(
                        sv.take(k as int),
                    );
                    let seg = &segs[k];
                    proof {
                        assert(sv[k as int] == seg@);
                    }
                    if let Some(c) = parse_segment(seg.as_slice()) {
                        jar_add_original(&mut j, &c);
                        proof {
                            lemma_parsed_pairs_take(sv, k as int);
                            let p = c@;
                            assert(headers_pairs(hv.take(i as int)) + parsed_pairs(
                                sv.take(k as int + 1),
                            ) =~= pre.push(p));
                            assert(pre.push(p).drop_last() =~= pre);
                            assert(map_of_pairs(pre.push(p)) == map_of_pairs(pre).insert(
                                p.0,
                                p.1,
                            ));
                        }
                    } else {
                        proof {
                            lemma_parsed_pairs_take(sv, k as int);
                            assert(headers_pairs(hv.take(i as int)) + parsed_pairs(
                                sv.take(k as int + 1),
                            ) =~= pre);
                        }
                    }
                    k = k + 1;
                }
                proof {
                    assert(sv.take(segs@.len() as int) =~= sv);
                    lemma_headers_pairs_take(hv, i as int);
                    assert(header_pairs(hv[i as int]) == parsed_pairs(sv));
                }
            } else {
                proof {
                    lemma_headers_pairs_take(hv, i as int);
                    assert(header_pairs(hv[i as int]) =~= Seq::<(Seq<char>, Seq<char>)>::empty());
                    assert(headers_pairs(hv.take(i as int)) + Seq::<(
                        Seq<char>,
                        Seq<char>,
                    )>::empty() =~= headers_pairs(hv.take(i as int)));
                }
            }
            i = i + 1;
        }
        proof {
            assert(hv.take(self.headers@.len() as int) =~= hv);
        }
        self.jar = Some(j);
    }

    /// Inserts or replaces the cookie by name and marks the jar changed.
    pub fn add(&mut self, cookie: Cookie)
        requires
            old(self).wf(),
        ensures
            final(self).wf(),
            final(self).headers_view() == old(self).headers_view(),
            final(self).spec_changed(),
            final(self).delta_view() == old(self).delta_view().insert(
                cookie@.0,
                Some(cookie@.1),
            ),
            final(self).cookies_view() == old(self).cookies_view().insert(cookie@.0, cookie@.1),
    {
        self.ensure_parsed();
        self.changed = true;
        let ghost orig = originals_of(self.headers_view());
        let ghost d = self.delta_view();
        match &mut self.jar {
            Some(j) => {
                jar_add(j, &cookie);
                proof {
                    lemma_apply_delta_insert_some(orig, d, cookie@.0, cookie@.1);
                }
            },
            None => {
                proof {
                    assert(false);
                }
            },
        }
    }

    /// Looks the cookie up by name in the current contents; reading never
    /// marks the jar changed.
    pub fn get(&mut self, name: &str) -> (r: Option<Cookie>)
        requires
            old(self).wf(),
        ensures
            final(self).wf(),
            final(self).headers_view() == old(self).headers_view(),
            final(self).spec_changed() == old(self).spec_changed(),
            final(self).delta_view() == old(self).delta_view(),
            match r {
                Some(c) => old(self).cookies_view().contains_key(name@) && c@ == (
                    name@,
                    old(self).cookies_view()[name@],
                ),
                None => !old(self).cookies_view().contains_key(name@),
            },
    {
        self.ensure_parsed();
        match &self.jar {
            Some(j) => jar_get(j, name),
            None => {
                proof {
                    assert(false);
                }
                None
            },
        }
    }

    /// Removes the cookie by name and marks the jar changed, also when there
    /// was nothing to remove. A removal marker is emitted exactly when the
    /// name was among the originally parsed cookies.
    pub fn remove(&mut self, cookie: Cookie)
        requires
            old(self).wf(),
        ensures
            final(self).wf(),
            final(self).headers_view() == old(self).headers_view(),
            final(self).spec_changed(),
            originals_of(old(self).headers_view()).contains_key(cookie@.0)
                ==> final(self).delta_view() == old(self).delta_view().insert(cookie@.0, None),
            !originals_of(old(self).headers_view()).contains_key(cookie@.0)
                ==> final(self).delta_view() == old(self).delta_view().remove(cookie@.0),
            final(self).cookies_view() == old(self).cookies_view().remove(cookie@.0),
    {
        self.ensure_parsed();
        self.changed = true;
        let ghost orig = originals_of(self.headers_view());
        let ghost d = self.delta_view();
        match &mut self.jar {
            Some(j) => {
                jar_remove(j, &cookie);
                proof {
                    if orig.contains_key(cookie@.0) {
                        lemma_apply_delta_insert_none(orig, d, cookie@.0);
                    } else {
                        lemma_apply_delta_drop(orig, d, cookie@.0);
                    }
                }
            },
            None => {
                proof {
                    assert(false);
                }
            },
        }
    }

    /// A snapshot of the current contents: each cookie exactly once, in no
    /// particular order.
    pub fn list(&mut self) -> (r: Vec<Cookie>)
        requires
            old(self).wf(),
        ensures
            final(self).wf(),
            final(self).headers_view() == old(self).headers_view(),
            final(self).spec_changed() == old(self).spec_changed(),
            final(self).delta_view() == old(self).delta_view(),
            lists_map(cookie_views(r@), old(self).cookies_view()),
    {
        self.ensure_parsed();
        match &self.jar {
            Some(j) => {
                let r = jar_list(j);
                proof {
                    let s = cookie_views(r@);
                    assert(s =~= r@.map_values(|c: Cookie| c@));
                    let m = old(self).cookies_view();
                    assert(jar_cookies(*j) == m);
                    assert(forall|t: int| 0 <= t < s.len() ==> s[t] == r@[t]@);
                    assert forall|n: Seq<char>| m.contains_key(n) implies exists|t: int|
                        0 <= t < s.len() && #[trigger] s[t].0 == n by {
                        let t = choose|t: int| 0 <= t < r@.len() && r@[t]@.0 == n;
                        assert(s[t].0 == n);
                    }
                }
                r
            },
            None => {
                proof {
                    assert(false);
                }
                Vec::new()
            },
        }
    }

    /// Stores the cookie with its value signed by the key and marks the jar
    /// changed. The stored value authenticates under the same key back to
    /// the plain value, and differs from it.
    pub fn signed_add(&mut self, key: &cookie::Key, cookie: Cookie)
        requires
            old(self).wf(),
        ensures
            final(self).wf(),
            final(self).headers_view() == old(self).headers_view(),
            final(self).spec_changed(),
            final(self).delta_view() == old(self).delta_view().insert(
                cookie@.0,
                Some(signed_value(*key, cookie@.1)),
            ),
            final(self).cookies_view() == old(self).cookies_view().insert(
                cookie@.0,
                signed_value(*key, cookie@.1),
            ),
            signed_read(*key, final(self).cookies_view()[cookie@.0]) == Some(cookie@.1),
            final(self).cookies_view()[cookie@.0] != cookie@.1,
    {
        self.ensure_parsed();
        self.changed = true;
        let ghost orig = originals_of(self.headers_view());
        let ghost d = self.delta_view();
        match &mut self.jar {
            Some(j) => {
                jar_signed_add(j, key, &cookie);
                proof {
                    lemma_apply_delta_insert_some(orig, d, cookie@.0, signed_value(*key, cookie@.1));
                }
            },
            None => {
                proof {
                    assert(false);
                }
            },
        }
    }

    /// Reads the named cookie through the signed view: the authenticated
    /// plain value of the stored cookie, or `None` when the name is absent
    /// or its value does not authenticate under the key.
    pub fn signed_get(&mut self, key: &cookie::Key, name: &str) -> (r: Option<Cookie>)
        requires
            old(self).wf(),
        ensures
            final(self).wf(),
            final(self).headers_view() == old(self).headers_view(),
            final(self).spec_changed() == old(self).spec_changed(),
            final(self).delta_view() == old(self).delta_view(),
            match r {
                Some(c) => old(self).cookies_view().contains_key(name@) && c@.0 == name@
                    && signed_read(*key, old(self).cookies_view()[name@]) == Some(c@.1),
                None => !old(self).cookies_view().contains_key(name@) || signed_read(
                    *key,
                    old(self).cookies_view()[name@],
                ) is None,
            },
    {
        self.ensure_parsed();
        match &self.jar {
            Some(j) => jar_signed_get(j, key, name),
            None => {
                proof {
                    assert(false);
                }
                None
            },
        }
    }

    /// Stores the cookie with its value sealed by authenticated encryption
    /// under the key and marks the jar changed. The stored value is fresh
    /// random-nonce ciphertext, so only its behaviour is stated: it unseals
    /// under the same key and name back to the plain value, and differs
    /// from it; nothing else in the jar moves.
    pub fn private_add(&mut self, key: &cookie::Key, cookie: Cookie)
        requires
            old(self).wf(),
        ensures
            final(self).wf(),
            final(self).headers_view() == old(self).headers_view(),
            final(self).spec_changed(),
            final(self).delta_view().contains_key(cookie@.0),
            final(self).delta_view()[cookie@.0] is Some,
            final(self).delta_view().remove(cookie@.0) == old(self).delta_view().remove(
                cookie@.0,
            ),
            final(self).cookies_view().contains_key(cookie@.0),
            private_read(*key, cookie@.0, final(self).cookies_view()[cookie@.0]) == Some(
                cookie@.1,
            ),
            final(self).cookies_view()[cookie@.0] != cookie@.1,
            final(self).cookies_view().remove(cookie@.0) == old(self).cookies_view().remove(
                cookie@.0,
            ),
    {
        self.ensure_parsed();
        self.changed = true;
        let ghost orig = originals_of(self.headers_view());
        let ghost d = self.delta_view();
        match &mut self.jar {
            Some(j) => {
                jar_private_add(j, key, &cookie);
                proof {
                    let d2 = jar_delta(*j);
                    lemma_apply_delta_off_key(orig, d2, d, cookie@.0);
                    let ct = d2[cookie@.0]->0;
                    assert(apply_delta(orig, d2)[cookie@.0] == ct);
                }
            },
            None => {
                proof {
                    assert(false);
                }
            },
        }
    }

    /// Reads the named cookie through the private view: the unsealed plain
    /// value of the stored cookie, or `None` when the name is absent or its
    /// value does not unseal under the key and name.
    pub fn private_get(&mut self, key: &cookie::Key, name: &str) -> (r: Option<Cookie>)
        requires
            old(self).wf(),
        ensures
            final(self).wf(),
            final(self).headers_view() == old(self).headers_view(),
            final(self).spec_changed() == old(self).spec_changed(),
            final(self).delta_view() == old(self).delta_view(),
            match r {
                Some(c) => old(self).cookies_view().contains_key(name@) && c@.0 == name@
                    && private_read(*key, name@, old(self).cookies_view()[name@]) == Some(c@.1),
                None => !old(self).cookies_view().contains_key(name@) || private_read(
                    *key,
                    name@,
                    old(self).cookies_view()[name@],
                ) is None,
            },
    {
        self.ensure_parsed();
        match &self.jar {
            Some(j) => jar_private_get(j, key, name),
            None => {
                proof {
                    assert(false);
                }
                None
            },
        }
    }

    /// The outgoing `Set-Cookie` header values owed for this request: none
    /// at all when nothing was mutated, else exactly one per delta entry.
    pub fn response_headers(&self) -> (r: Vec<String>)
        requires
            self.wf(),
        ensures
            !self.spec_changed() ==> r@.len() == 0,
            self.spec_changed() ==> lines_for_delta(strings_view(r@), self.delta_view()),
    {
        if !self.changed {
            return Vec::new();
        }
        match &self.jar {
            Some(j) => {
                let pairs = jar_delta_lines(j);
                let mut out: Vec<String> = Vec::new();
                let mut k: usize = 0;
                while k < pairs.len()
                    invariant
                        k <= pairs.len(),
                        out@.len() == k,
                        forall|m: int| 0 <= m < k ==> out@[m]@ == pairs@[m].1@,
                    decreases pairs.len() - k,
                {
                    let p = &pairs[k];
                    out.push(p.1.clone());
                    k = k + 1;
                }
                proof {
                    let d = jar_delta(*j);
                    let lines = strings_view(out@);
                    assert(lines =~= out@.map_values(|s: String| s@));
                    let names = pairs@.map_values(|p: (String, String)| p.0@);
                    assert(forall|m: int| 0 <= m < lines.len() ==> lines[m] == pairs@[m].1@);
                    assert(forall|m: int| 0 <= m < names.len() ==> names[m] == pairs@[m].0@);
                    assert(names.no_duplicates());
                    assert(names.to_set() =~= d.dom()) by {
                        assert forall|n: Seq<char>| names.to_set().contains(n) implies d.dom(
                        ).contains(n) by {
                            let m = choose|m: int| 0 <= m < names.len() && names[m] == n;
                            assert(d.contains_key(pairs@[m].0@));
                        }
                        assert forall|n: Seq<char>| d.dom().contains(n) implies names.to_set(
                        ).contains(n) by {
                            let m = choose|m: int|
                                0 <= m < pairs@.len() && pairs@[m].0@ == n;
                            assert(names[m] == n);
                        }
                    }
                    names.unique_seq_to_set();
                    assert(lines.len() == d.dom().len());
                    assert forall|m: int| 0 <= m < lines.len() implies some_line_for(
                        d,
                        lines[m],
                    ) by {
                        let n = pairs@[m].0@;
                        assert(d.contains_key(n) && crate::model::line_for(n, d[n], lines[m]));
                    }
                    assert forall|n: Seq<char>| d.contains_key(n) implies exists|m: int|
                        0 <= m < lines.len() && crate::model::line_for(
                            n,
                            d[n],
                            #[trigger] lines[m],
                        ) by {
                        let m = choose|m: int| 0 <= m < pairs@.len() && pairs@[m].0@ == n;
                        assert(crate::model::line_for(n, d[n], lines[m]));
                    }
                }
                out
            },
            None => {
                proof {
                    assert(false);
                }
                Vec::new()
            },
        }
    }
}

/// A jar that no mutating operation ever touched owes no outgoing
/// headers, however many reads and snapshots were taken: its changed flag
/// is still clear, so its delta is empty and any header derivation for it
/// is empty.
pub proof fn lemma_unchanged_owes_no_headers(jar: Inner, lines: Seq<Seq<char>>)
    requires
        jar.wf(),
        !jar.spec_changed(),
        lines_for_delta(lines, jar.delta_view()),
    ensures
        lines.len() == 0,
{
    assert(jar.delta_view().dom() =~= Set::<Seq<char>>::empty());
}

} // verus!
