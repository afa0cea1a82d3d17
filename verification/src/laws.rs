//! Laws of the jar model: properties that tie several operations together,
//! stated over the model and proved once and for all. The contracts of
//! [`crate::Inner`]'s operations deliver their hypotheses.

use vstd::prelude::*;

use crate::jar::parsed_cookie;
use crate::model::{
    apply_delta, header_pairs, headers_pairs, line_for, lines_for_delta, lists_map, originals_of,
    parsed_pairs, spec_split, split_acc, SEMI,
};

verus! {

proof fn lemma_split_acc_concat(b1: Seq<u8>, b2: Seq<u8>, cur: Seq<u8>)
    ensures
        split_acc(b1 + seq![SEMI] + b2, cur) == split_acc(b1, cur) + split_acc(b2, Seq::empty()),
    decreases b1.len(),
{
    let s = b1 + seq![SEMI] + b2;
    if b1.len() == 0 {
        assert(s =~= seq![SEMI] + b2);
        assert(s[0] == SEMI);
        assert(s.drop_first() =~= b2);
        assert(split_acc(s, cur) == seq![cur] + split_acc(b2, Seq::empty()));
    } else {
        assert(s.len() > 0);
        assert(s[0] == b1[0]);
        assert(s.drop_first() =~= b1.drop_first() + seq![SEMI] + b2);
        if b1[0] == SEMI {
            lemma_split_acc_concat(b1.drop_first(), b2, Seq::empty());
            assert(seq![cur] + (split_acc(b1.drop_first(), Seq::empty()) + split_acc(
                b2,
                Seq::empty(),
            )) =~= (seq![cur] + split_acc(b1.drop_first(), Seq::empty())) + split_acc(
                b2,
                Seq::empty(),
            ));
        } else {
            lemma_split_acc_concat(b1.drop_first(), b2, cur.push(b1[0]));
        }
    }
}

proof fn lemma_parsed_pairs_concat(a: Seq<Seq<u8>>, b: Seq<Seq<u8>>)
    ensures
        parsed_pairs(a + b) == parsed_pairs(a) + parsed_pairs(b),
    decreases b.len(),
{
    if b.len() == 0 {
        assert(a + b =~= a);
        assert(parsed_pairs(a) + parsed_pairs(b) =~= parsed_pairs(a));
    } else {
        lemma_parsed_pairs_concat(a, b.drop_last());
        assert((a + b).drop_last() =~= a + b.drop_last());
        assert((a + b).last() == b.last());
        let tail = match parsed_cookie(b.last()) {
            Some(p) => seq![p],
            None => Seq::<(Seq<char>, Seq<char>)>::empty(),
        };
        assert(parsed_pairs(a) + (parsed_pairs(b.drop_last()) + tail) =~= (parsed_pairs(a)
            + parsed_pairs(b.drop_last())) + tail);
    }
}

proof fn lemma_semi_valid_utf8()
    ensures
        vstd::utf8::valid_utf8(seq![SEMI]),
{
    let s = seq![SEMI];
    assert(s.subrange(0, 0) =~= Seq::<u8>::empty());
    assert(vstd::utf8::partial_valid_utf8(s, 0));
    vstd::utf8::partial_valid_utf8_extend_ascii_block(s, 0, 1);
    assert(s.subrange(0, 1) =~= s);
}

/// Repeating the cookie header is the same as joining: two header lines
/// parse to exactly the original cookies of the one line joined with a
/// `';'` between them.
pub proof fn lemma_header_split_agrees(h1: Seq<u8>, h2: Seq<u8>)
    requires
        vstd::utf8::valid_utf8(h1),
        vstd::utf8::valid_utf8(h2),
    ensures
        originals_of(seq![h1, h2]) == originals_of(seq![h1 + seq![SEMI] + h2]),
{
    reveal_with_fuel(headers_pairs, 4);
    let joined = h1 + seq![SEMI] + h2;
    lemma_semi_valid_utf8();
    vstd::utf8::valid_utf8_concat(h1, seq![SEMI]);
    vstd::utf8::valid_utf8_concat(h1 + seq![SEMI], h2);
    assert((h1 + seq![SEMI]) + h2 =~= joined);
    assert(vstd::utf8::valid_utf8(joined));
    lemma_split_acc_concat(h1, h2, Seq::empty());
    lemma_parsed_pairs_concat(spec_split(h1), spec_split(h2));
    assert(header_pairs(joined) == header_pairs(h1) + header_pairs(h2));
    let two = seq![h1, h2];
    let one = seq![joined];
    assert(two.drop_last() =~= seq![h1]);
    assert(two.last() == h2);
    assert(seq![h1].drop_last() =~= Seq::<Seq<u8>>::empty());
    assert(seq![h1].last() == h1);
    assert(Seq::<(Seq<char>, Seq<char>)>::empty() + header_pairs(h1) =~= header_pairs(h1));
    assert(headers_pairs(two) == header_pairs(h1) + header_pairs(h2));
    assert(one.drop_last() =~= Seq::<Seq<u8>>::empty());
    assert(one.last() == joined);
    assert(Seq::<(Seq<char>, Seq<char>)>::empty() + header_pairs(joined) =~= header_pairs(joined));
    assert(headers_pairs(one) == header_pairs(joined));
    assert(headers_pairs(two) == headers_pairs(one));
}

/// The delta of a jar whose only mutations were two additions.
pub open spec fn delta_of_two_adds(
    n1: Seq<char>,
    v1: Seq<char>,
    n2: Seq<char>,
    v2: Seq<char>,
) -> Map<Seq<char>, Option<Seq<char>>> {
    Map::<Seq<char>, Option<Seq<char>>>::empty().insert(n1, Some(v1)).insert(n2, Some(v2))
}

/// The delta of a jar whose only mutation removed an originally present
/// name.
pub open spec fn delta_of_removal(n: Seq<char>) -> Map<Seq<char>, Option<Seq<char>>> {
    Map::<Seq<char>, Option<Seq<char>>>::empty().insert(n, None)
}

/// Adding two cookies with distinct names to an untouched jar owes exactly
/// two outgoing headers, one carrying each cookie, and leaves the current
/// value of every other name alone.
pub proof fn lemma_two_adds_owe_two_headers(
    orig: Map<Seq<char>, Seq<char>>,
    n1: Seq<char>,
    v1: Seq<char>,
    n2: Seq<char>,
    v2: Seq<char>,
    lines: Seq<Seq<char>>,
)
    requires
        n1 != n2,
        lines_for_delta(lines, delta_of_two_adds(n1, v1, n2, v2)),
    ensures
        lines.len() == 2,
        exists|i: int| 0 <= i < lines.len() && line_for(n1, Some(v1), #[trigger] lines[i]),
        exists|i: int| 0 <= i < lines.len() && line_for(n2, Some(v2), #[trigger] lines[i]),
        apply_delta(orig, delta_of_two_adds(n1, v1, n2, v2)).remove(n1).remove(n2) == orig.remove(
            n1,
        ).remove(n2),
{
    let d = delta_of_two_adds(n1, v1, n2, v2);
    assert(d.dom() =~= Set::<Seq<char>>::empty().insert(n1).insert(n2));
    assert(d.dom().len() == 2);
    assert(d.contains_key(n1) && d[n1] == Some(v1));
    assert(d.contains_key(n2) && d[n2] == Some(v2));
    assert(apply_delta(orig, d).remove(n1).remove(n2) =~= orig.remove(n1).remove(n2));
}

/// Removing an originally present cookie owes exactly one outgoing header,
/// a removal marker for that name.
pub proof fn lemma_removal_owes_one_header(n: Seq<char>, lines: Seq<Seq<char>>)
    requires
        lines_for_delta(lines, delta_of_removal(n)),
    ensures
        lines.len() == 1,
        line_for(n, None, lines[0]),
{
    let d = delta_of_removal(n);
    assert(d.dom() =~= Set::<Seq<char>>::empty().insert(n));
    assert(d.dom().len() == 1);
    assert(d.contains_key(n) && d[n] == (None::<Seq<char>>));
    let i = choose|i: int| 0 <= i < lines.len() && line_for(n, d[n], #[trigger] lines[i]);
    assert(i == 0);
}

/// A jar whose delta is empty — in particular one where a removal found
/// nothing and dropped no marker — owes no outgoing headers.
pub proof fn lemma_empty_delta_owes_nothing(lines: Seq<Seq<char>>)
    requires
        lines_for_delta(lines, Map::<Seq<char>, Option<Seq<char>>>::empty()),
    ensures
        lines.len() == 0,
{
    assert(Map::<Seq<char>, Option<Seq<char>>>::empty().dom() =~= Set::<Seq<char>>::empty());
}

/// Two snapshots of the same current contents list the same set of
/// cookies: listing and reading are idempotent while nothing mutates.
pub proof fn lemma_snapshots_agree(
    m: Map<Seq<char>, Seq<char>>,
    s1: Seq<(Seq<char>, Seq<char>)>,
    s2: Seq<(Seq<char>, Seq<char>)>,
)
    requires
        lists_map(s1, m),
        lists_map(s2, m),
    ensures
        s1.to_set() == s2.to_set(),
{
    assert forall|p: (Seq<char>, Seq<char>)| s1.to_set().contains(p) implies s2.to_set().contains(
        p,
    ) by {
        let i = choose|i: int| 0 <= i < s1.len() && s1[i] == p;
        assert(m.contains_key(s1[i].0));
        let t = choose|t: int| 0 <= t < s2.len() && s2[t].0 == p.0;
        assert(s2[t] == p);
        assert(s2.contains(p));
    }
    assert forall|p: (Seq<char>, Seq<char>)| s2.to_set().contains(p) implies s1.to_set().contains(
        p,
    ) by {
        let i = choose|i: int| 0 <= i < s2.len() && s2[i] == p;
        assert(m.contains_key(s2[i].0));
        let t = choose|t: int| 0 <= t < s1.len() && s1[t].0 == p.0;
        assert(s1[t] == p);
        assert(s1.contains(p));
    }
    assert(s1.to_set() =~= s2.to_set());
}

} // verus!
