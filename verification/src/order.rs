//! The order of texts that `String`'s `Ord` gives: lexicographic by code
//! point (which is the order of their UTF-8 bytes), a proper prefix first.

use vstd::prelude::*;
use crate::hex::chars_of;

verus! {

/// `a` comes before `b`.
pub open spec fn text_lt(a: Seq<char>, b: Seq<char>) -> bool
    decreases a.len(),
{
    if a.len() == 0 {
        b.len() > 0
    } else if b.len() == 0 {
        false
    } else if a[0] != b[0] {
        (a[0] as u32) < (b[0] as u32)
    } else {
        text_lt(a.drop_first(), b.drop_first())
    }
}

/// No element comes before an earlier one.
pub open spec fn sorted(s: Seq<Seq<char>>) -> bool {
    forall|i: int, j: int| 0 <= i < j < s.len() ==> !text_lt(#[trigger] s[j], #[trigger] s[i])
}

/// The texts of a list of strings.
pub open spec fn texts(v: Seq<String>) -> Seq<Seq<char>> {
    v.map_values(|s: String| s@)
}

/// Nothing comes before itself, and of two texts at most one comes first.
pub proof fn lemma_text_lt_asym(a: Seq<char>, b: Seq<char>)
    ensures
        text_lt(a, b) ==> !text_lt(b, a),
        !text_lt(a, a),
    decreases a.len(),
{
    if a.len() > 0 && b.len() > 0 && a[0] == b[0] {
        lemma_text_lt_asym(a.drop_first(), b.drop_first());
    }
    if a.len() > 0 {
        lemma_text_lt_asym(a.drop_first(), a.drop_first());
    }
}

/// Of two different texts one comes first.
pub proof fn lemma_text_lt_total(a: Seq<char>, b: Seq<char>)
    ensures
        a != b ==> text_lt(a, b) || text_lt(b, a),
    decreases a.len(),
{
    if a.len() > 0 && b.len() > 0 && a[0] == b[0] {
        lemma_text_lt_total(a.drop_first(), b.drop_first());
        if a.drop_first() == b.drop_first() {
            assert(a =~= seq![a[0]] + a.drop_first());
            assert(b =~= seq![b[0]] + b.drop_first());
        }
    }
    if a.len() == 0 && b.len() == 0 {
        assert(a =~= b);
    }
    if a.len() > 0 && b.len() > 0 && a[0] != b[0] {
        let x = a[0] as u32;
        let y = b[0] as u32;
        vstd::utf8::char_u32_cast(a[0], x);
        vstd::utf8::char_u32_cast(b[0], y);
        assert(x != y);
    }
}

/// The order is transitive.
pub proof fn lemma_text_lt_trans(a: Seq<char>, b: Seq<char>, c: Seq<char>)
    requires
        text_lt(a, b),
        text_lt(b, c),
    ensures
        text_lt(a, c),
    decreases a.len(),
{
    if a.len() > 0 && b.len() > 0 && c.len() > 0 && a[0] == b[0] && b[0] == c[0] {
        lemma_text_lt_trans(a.drop_first(), b.drop_first(), c.drop_first());
    }
}

/// Whether `a` comes before `b`.
pub fn text_less(a: &Vec<char>, b: &Vec<char>) -> (r: bool)
    ensures
        r == text_lt(a@, b@),
{
    let n = a.len();
    let m = b.len();
    let mut i: usize = 0;
    assert(a@.skip(0) =~= a@);
    assert(b@.skip(0) =~= b@);
    while i < n && i < m && a[i] == b[i]
        invariant
            i <= n,
            i <= m,
            n == a@.len(),
            m == b@.len(),
            text_lt(a@, b@) == text_lt(a@.skip(i as int), b@.skip(i as int)),
        decreases n - i,
    {
        proof {
            assert(a@.skip(i as int).drop_first() =~= a@.skip(i + 1));
            assert(b@.skip(i as int).drop_first() =~= b@.skip(i + 1));
        }
        i = i + 1;
    }
    if i == n {
        i < m
    } else if i == m {
        false
    } else {
        (a[i] as u32) < (b[i] as u32)
    }
}

proof fn lemma_texts_insert(v: Seq<String>, p: int, x: String)
    requires
        0 <= p <= v.len(),
    ensures
        texts(v.insert(p, x)) == texts(v).insert(p, x@),
{
    assert(texts(v.insert(p, x)) =~= texts(v).insert(p, x@));
}

proof fn lemma_multiset_insert(s: Seq<Seq<char>>, p: int, x: Seq<char>)
    requires
        0 <= p <= s.len(),
    ensures
        s.insert(p, x).to_multiset() == s.to_multiset().insert(x),
{
    broadcast use vstd::seq_lib::group_to_multiset_ensures;
    broadcast use vstd::multiset::group_multiset_axioms;

    let t = s.insert(p, x);
    assert(t.remove(p) =~= s);
    t.to_multiset_ensures();
    assert(t[p] == x);
    assert(t.to_multiset() =~= s.to_multiset().insert(x));
}

/// The texts in order, each as often as it was given.
pub fn sort_texts(names: &Vec<String>) -> (r: Vec<String>)
    ensures
        sorted(texts(r@)),
        texts(r@).to_multiset() == texts(names@).to_multiset(),
{
    let mut out: Vec<String> = Vec::new();
    let mut chars: Vec<Vec<char>> = Vec::new();
    let n = names.len();
    let mut i: usize = 0;
    assert(texts(out@) =~= texts(names@.take(0)));
    while i < n
        invariant
            i <= n,
            n == names@.len(),
            out@.len() == chars@.len(),
            forall|k: int| 0 <= k < out@.len() ==> #[trigger] chars@[k]@ == out@[k]@,
            sorted(texts(out@)),
            texts(out@).to_multiset() == texts(names@.take(i as int)).to_multiset(),
        decreases n - i,
    {
        let x = names[i].clone();
        let xc = chars_of(x.as_str());
        let m = out.len();
        let mut p: usize = 0;
        while p < m && !text_less(&xc, &chars[p])
            invariant
                p <= m,
                m == out@.len(),
                m == chars@.len(),
                xc@ == x@,
                forall|k: int| 0 <= k < out@.len() ==> #[trigger] chars@[k]@ == out@[k]@,
                forall|k: int| 0 <= k < p ==> !text_lt(x@, #[trigger] out@[k]@),
            decreases m - p,
        {
            p = p + 1;
        }
        let ghost before = texts(out@);
        proof {
            assert forall|q: int| p <= q < m implies text_lt(x@, #[trigger] before[q]) by {
                assert(text_lt(x@, before[p as int]));
                if q > p {
                    assert(!text_lt(before[q], before[p as int]));
                    lemma_text_lt_total(before[q], before[p as int]);
                    if before[q] != before[p as int] {
                        lemma_text_lt_trans(x@, before[p as int], before[q]);
                    }
                }
            }
            lemma_texts_insert(out@, p as int, x);
            lemma_multiset_insert(before, p as int, x@);
            assert(names@.take(i + 1) =~= names@.take(i as int).push(names@[i as int]));
            assert(texts(names@.take(i + 1)) =~= texts(names@.take(i as int)).push(x@));
            broadcast use vstd::seq_lib::group_to_multiset_ensures;
            assert(texts(names@.take(i as int)).push(x@).to_multiset() == texts(
                names@.take(i as int),
            ).to_multiset().insert(x@));
        }
        let ghost old_chars = chars@;
        let ghost old_out = out@;
        out.insert(p, x);
        chars.insert(p, xc);
        proof {
            let after = texts(out@);
            assert(after =~= before.insert(p as int, x@));
            assert forall|a: int, b: int| 0 <= a < b < after.len() implies !text_lt(
                #[trigger] after[b],
                #[trigger] after[a],
            ) by {
                if a < p && b < p {
                    assert(after[a] == before[a] && after[b] == before[b]);
                } else if a < p && b == p {
                    assert(after[a] == before[a]);
                } else if a < p && b > p {
                    assert(after[a] == before[a] && after[b] == before[b - 1]);
                    assert(!text_lt(before[b - 1], before[a]));
                } else if a == p {
                    assert(after[b] == before[b - 1]);
                    assert(text_lt(x@, before[b - 1]));
                    lemma_text_lt_asym(x@, before[b - 1]);
                } else {
                    assert(after[a] == before[a - 1] && after[b] == before[b - 1]);
                }
            }
            assert forall|k: int| 0 <= k < out@.len() implies #[trigger] chars@[k]@ == out@[k]@ by {
                if k < p {
                    assert(chars@[k] == old_chars[k] && out@[k] == old_out[k]);
                } else if k > p {
                    assert(chars@[k] == old_chars[k - 1] && out@[k] == old_out[k - 1]);
                }
            }
        }
        i = i + 1;
    }
    assert(names@.take(n as int) =~= names@);
    out
}

} // verus!
