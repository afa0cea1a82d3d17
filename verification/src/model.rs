//! The mathematical model of a request's cookie jar.
//!
//! A raw header is a byte sequence; a header line is split on `';'` into
//! segments, each segment parses (or fails to parse) into a name/value pair,
//! and the pairs collected from all header lines form the map of "original"
//! cookies. Mutations are a delta map from names to either a replacement
//! value or a removal marker; the current contents of a jar are the
//! originals overridden by the delta.

use vstd::prelude::*;

use crate::jar::parsed_cookie;

verus! {

/// The byte the cookie header is split on: `';'`.
pub const SEMI: u8 = 59;

/// Splits `b` on [`SEMI`], accumulating the segment read so far in `cur`.
pub open spec fn split_acc(b: Seq<u8>, cur: Seq<u8>) -> Seq<Seq<u8>>
    decreases b.len(),
{
    if b.len() == 0 {
        seq![cur]
    } else if b[0] == SEMI {
        seq![cur] + split_acc(b.drop_first(), Seq::empty())
    } else {
        split_acc(b.drop_first(), cur.push(b[0]))
    }
}

/// The segments of `b`: the (possibly empty) byte runs between `';'` bytes.
pub open spec fn spec_split(b: Seq<u8>) -> Seq<Seq<u8>> {
    split_acc(b, Seq::empty())
}

/// The name/value pairs of the segments that parse, in segment order.
pub open spec fn parsed_pairs(segs: Seq<Seq<u8>>) -> Seq<(Seq<char>, Seq<char>)>
    decreases segs.len(),
{
    if segs.len() == 0 {
        Seq::empty()
    } else {
        parsed_pairs(segs.drop_last()) + match parsed_cookie(segs.last()) {
            Some(p) => seq![p],
            None => Seq::empty(),
        }
    }
}

/// The pairs contributed by one raw header line: none when the line is not
/// UTF-8, else the parsed pairs of its segments.
pub open spec fn header_pairs(h: Seq<u8>) -> Seq<(Seq<char>, Seq<char>)> {
    if vstd::utf8::valid_utf8(h) {
        parsed_pairs(spec_split(h))
    } else {
        Seq::empty()
    }
}

/// The pairs contributed by a sequence of raw header lines, in order.
pub open spec fn headers_pairs(hs: Seq<Seq<u8>>) -> Seq<(Seq<char>, Seq<char>)>
    decreases hs.len(),
{
    if hs.len() == 0 {
        Seq::empty()
    } else {
        headers_pairs(hs.drop_last()) + header_pairs(hs.last())
    }
}

/// Folds a pair sequence into a map; a later pair with the same name wins.
pub open spec fn map_of_pairs(ps: Seq<(Seq<char>, Seq<char>)>) -> Map<Seq<char>, Seq<char>>
    decreases ps.len(),
{
    if ps.len() == 0 {
        Map::empty()
    } else {
        map_of_pairs(ps.drop_last()).insert(ps.last().0, ps.last().1)
    }
}

/// The "original" cookies of a request: everything its header lines parse to.
pub open spec fn originals_of(hs: Seq<Seq<u8>>) -> Map<Seq<char>, Seq<char>> {
    map_of_pairs(headers_pairs(hs))
}

/// The current contents of a jar: the originals overridden by the delta,
/// where a delta entry of `Some(v)` replaces the value and `None` removes
/// the name.
pub open spec fn apply_delta(
    orig: Map<Seq<char>, Seq<char>>,
    d: Map<Seq<char>, Option<Seq<char>>>,
) -> Map<Seq<char>, Seq<char>> {
    Map::new(
        |n: Seq<char>|
            (d.contains_key(n) && d[n] is Some) || (orig.contains_key(n) && !d.contains_key(n)),
        |n: Seq<char>| if d.contains_key(n) {
            d[n]->0
        } else {
            orig[n]
        },
    )
}

/// `s` enumerates the map `m`: names are distinct, every listed pair is in
/// `m`, and every name of `m` is listed.
pub open spec fn lists_map(s: Seq<(Seq<char>, Seq<char>)>, m: Map<Seq<char>, Seq<char>>) -> bool {
    &&& forall|a: int, b: int| 0 <= a < b < s.len() ==> s[a].0 != s[b].0
    &&& forall|i: int| 0 <= i < s.len() ==> m.contains_key(#[trigger] s[i].0) && s[i].1 == m[s[i].0]
    &&& forall|n: Seq<char>| m.contains_key(n) ==> exists|i: int| 0 <= i < s.len() && #[trigger] s[i].0 == n
}

/// `sub` occurs somewhere inside `s`.
pub open spec fn has_substr(s: Seq<char>, sub: Seq<char>) -> bool {
    exists|k: int| 0 <= k && k + sub.len() <= s.len() && #[trigger] s.subrange(k, k + sub.len())
        == sub
}

/// `line` is an outgoing header value for the delta entry `e` under name
/// `n`: a replacement starts with `name=value`, a removal starts with
/// `name=` and carries a zero max-age attribute.
pub open spec fn line_for(n: Seq<char>, e: Option<Seq<char>>, line: Seq<char>) -> bool {
    match e {
        Some(v) => {
            &&& line.len() >= n.len() + 1 + v.len()
            &&& line.subrange(0, (n.len() + 1 + v.len()) as int) == n + seq!['='] + v
        },
        None => {
            &&& line.len() >= n.len() + 1
            &&& line.subrange(0, (n.len() + 1) as int) == n + seq!['=']
            &&& has_substr(line, "; Max-Age=0"@)
        },
    }
}

/// `line` is the outgoing header value of some entry of the delta `d`.
pub open spec fn some_line_for(d: Map<Seq<char>, Option<Seq<char>>>, line: Seq<char>) -> bool {
    exists|n: Seq<char>| #[trigger] d.contains_key(n) && line_for(n, d[n], line)
}

/// `lines` are exactly the outgoing header values of the delta `d`: one line
/// per delta entry, each shaped as [`line_for`] demands.
pub open spec fn lines_for_delta(
    lines: Seq<Seq<char>>,
    d: Map<Seq<char>, Option<Seq<char>>>,
) -> bool {
    &&& lines.len() == d.dom().len()
    &&& forall|i: int| 0 <= i < lines.len() ==> some_line_for(d, #[trigger] lines[i])
    &&& forall|n: Seq<char>|
        d.contains_key(n) ==> exists|i: int|
            0 <= i < lines.len() && line_for(n, d[n], #[trigger] lines[i])
}

/// The views of a sequence of strings.
pub open spec fn strings_view(v: Seq<String>) -> Seq<Seq<char>> {
    v.map_values(|s: String| s@)
}

/// The views of a sequence of cookies.
pub open spec fn cookie_views(v: Seq<crate::value::Cookie>) -> Seq<(Seq<char>, Seq<char>)> {
    v.map_values(|c: crate::value::Cookie| c@)
}

/// Writing a value into the delta writes it into the current contents.
pub proof fn lemma_apply_delta_insert_some(
    orig: Map<Seq<char>, Seq<char>>,
    d: Map<Seq<char>, Option<Seq<char>>>,
    n: Seq<char>,
    v: Seq<char>,
)
    ensures
        apply_delta(orig, d.insert(n, Some(v))) == apply_delta(orig, d).insert(n, v),
{
    assert(apply_delta(orig, d.insert(n, Some(v))) =~= apply_delta(orig, d).insert(n, v));
}

/// A removal marker in the delta removes the name from the current contents.
pub proof fn lemma_apply_delta_insert_none(
    orig: Map<Seq<char>, Seq<char>>,
    d: Map<Seq<char>, Option<Seq<char>>>,
    n: Seq<char>,
)
    ensures
        apply_delta(orig, d.insert(n, None)) == apply_delta(orig, d).remove(n),
{
    assert(apply_delta(orig, d.insert(n, None)) =~= apply_delta(orig, d).remove(n));
}

/// Dropping a delta entry for a name with no original removes the name from
/// the current contents.
pub proof fn lemma_apply_delta_drop(
    orig: Map<Seq<char>, Seq<char>>,
    d: Map<Seq<char>, Option<Seq<char>>>,
    n: Seq<char>,
)
    requires
        !orig.contains_key(n),
    ensures
        apply_delta(orig, d.remove(n)) == apply_delta(orig, d).remove(n),
{
    assert(apply_delta(orig, d.remove(n)) =~= apply_delta(orig, d).remove(n));
}

/// Deltas that agree away from `n` produce current contents that agree away
/// from `n`.
pub proof fn lemma_apply_delta_off_key(
    orig: Map<Seq<char>, Seq<char>>,
    d1: Map<Seq<char>, Option<Seq<char>>>,
    d2: Map<Seq<char>, Option<Seq<char>>>,
    n: Seq<char>,
)
    requires
        d1.remove(n) == d2.remove(n),
    ensures
        apply_delta(orig, d1).remove(n) == apply_delta(orig, d2).remove(n),
{
    assert forall|m: Seq<char>| m != n implies #[trigger] d1.contains_key(m) == d2.contains_key(
        m,
    ) by {
        assert(d1.remove(n).contains_key(m) == d2.remove(n).contains_key(m));
        assert(d1.remove(n).contains_key(m) == d1.contains_key(m));
        assert(d2.remove(n).contains_key(m) == d2.contains_key(m));
    }
    assert forall|m: Seq<char>| m != n && d1.contains_key(m) implies #[trigger] d1[m]
        == d2[m] by {
        assert(d1.remove(n)[m] == d2.remove(n)[m]);
        assert(d1.remove(n)[m] == d1[m]);
        assert(d2.remove(n)[m] == d2[m]);
    }
    assert(apply_delta(orig, d1).remove(n) =~= apply_delta(orig, d2).remove(n));
}

/// One step of folding header lines into their pairs.
pub proof fn lemma_headers_pairs_take(hs: Seq<Seq<u8>>, i: int)
    requires
        0 <= i < hs.len(),
    ensures
        headers_pairs(hs.take(i + 1)) == headers_pairs(hs.take(i)) + header_pairs(hs[i]),
{
    assert(hs.take(i + 1).drop_last() =~= hs.take(i));
    assert(hs.take(i + 1).last() == hs[i]);
}

/// One step of folding segments into their parsed pairs.
pub proof fn lemma_parsed_pairs_take(segs: Seq<Seq<u8>>, k: int)
    requires
        0 <= k < segs.len(),
    ensures
        parsed_pairs(segs.take(k + 1)) == parsed_pairs(segs.take(k)) + match parsed_cookie(
            segs[k],
        ) {
            Some(p) => seq![p],
            None => Seq::empty(),
        },
{
    assert(segs.take(k + 1).drop_last() =~= segs.take(k));
    assert(segs.take(k + 1).last() == segs[k]);
}

/// Splits a raw header line on `';'` into its byte segments.
pub fn split_bytes(h: &Vec<u8>) -> (r: Vec<Vec<u8>>)
    ensures
        r@.map_values(|s: Vec<u8>| s@) == spec_split(h@),
{
    let mut out: Vec<Vec<u8>> = Vec::new();
    let mut cur: Vec<u8> = Vec::new();
    let mut i: usize = 0;
    proof {
        assert(h@.subrange(0, h@.len() as int) =~= h@);
        assert(out@.map_values(|s: Vec<u8>| s@) + split_acc(h@, cur@) =~= split_acc(h@, cur@));
    }
    while i < h.len()
        invariant
            i <= h.len(),
            spec_split(h@) == out@.map_values(|s: Vec<u8>| s@) + split_acc(
                h@.subrange(i as int, h@.len() as int),
                cur@,
            ),
        decreases h.len() - i,
    {
        let ghost tail = h@.subrange(i as int, h@.len() as int);
        proof {
            assert(tail.len() > 0);
            assert(tail[0] == h@[i as int]);
            assert(tail.drop_first() =~= h@.subrange(i as int + 1, h@.len() as int));
        }
        let b = h[i];
        if b == SEMI {
            let ghost old_out = out@;
            let ghost old_cur = cur@;
            out.push(cur);
            cur = Vec::new();
            proof {
                assert(split_acc(tail, old_cur) == seq![old_cur] + split_acc(
                    tail.drop_first(),
                    Seq::empty(),
                ));
                assert(out@.map_values(|s: Vec<u8>| s@) =~= old_out.map_values(|s: Vec<u8>| s@)
                    + seq![old_cur]);
                assert(old_out.map_values(|s: Vec<u8>| s@) + (seq![old_cur] + split_acc(
                    tail.drop_first(),
                    Seq::empty(),
                )) =~= (old_out.map_values(|s: Vec<u8>| s@) + seq![old_cur]) + split_acc(
                    tail.drop_first(),
                    Seq::empty(),
                ));
            }
        } else {
            let ghost old_cur = cur@;
            cur.push(b);
            proof {
                assert(split_acc(tail, old_cur) == split_acc(tail.drop_first(), old_cur.push(b)));
            }
        }
        i = i + 1;
    }
    proof {
        assert(h@.subrange(i as int, h@.len() as int) =~= Seq::<u8>::empty());
        assert(split_acc(Seq::<u8>::empty(), cur@) == seq![cur@]);
    }
    let ghost old_out = out@;
    let ghost old_cur = cur@;
    out.push(cur);
    proof {
        assert(out@.map_values(|s: Vec<u8>| s@) =~= old_out.map_values(|s: Vec<u8>| s@)
            + seq![old_cur]);
    }
    out
}

} // verus!
