//! The order of texts: lexicographic by character, which is the order
//! `String`'s `Ord` gives (UTF-8 byte order agrees with code-point order).

use vstd::prelude::*;
use crate::text::chars_of;

verus! {

/// `a` sorts strictly before `b`.
pub open spec fn text_lt(a: Seq<char>, b: Seq<char>) -> bool
    decreases a.len(),
{
    if a.len() == 0 {
        b.len() > 0
    } else if b.len() == 0 {
        false
    } else if a[0] < b[0] {
        true
    } else if a[0] == b[0] {
        text_lt(a.drop_first(), b.drop_first())
    } else {
        false
    }
}

pub proof fn lemma_text_lt_irreflexive(a: Seq<char>)
    ensures
        !text_lt(a, a),
    decreases a.len(),
{
    if a.len() > 0 {
        lemma_text_lt_irreflexive(a.drop_first());
    }
}

pub proof fn lemma_text_lt_asymmetric(a: Seq<char>, b: Seq<char>)
    ensures
        !(text_lt(a, b) && text_lt(b, a)),
    decreases a.len(),
{
    if a.len() > 0 && b.len() > 0 && a[0] == b[0] {
        lemma_text_lt_asymmetric(a.drop_first(), b.drop_first());
    }
}

pub proof fn lemma_text_lt_transitive(a: Seq<char>, b: Seq<char>, c: Seq<char>)
    requires
        text_lt(a, b),
        text_lt(b, c),
    ensures
        text_lt(a, c),
    decreases a.len(),
{
    if a.len() > 0 && b.len() > 0 && c.len() > 0 {
        if a[0] == b[0] && b[0] == c[0] {
            lemma_text_lt_transitive(a.drop_first(), b.drop_first(), c.drop_first());
        }
    }
}

pub proof fn lemma_text_lt_total(a: Seq<char>, b: Seq<char>)
    requires
        a != b,
    ensures
        text_lt(a, b) || text_lt(b, a),
    decreases a.len(),
{
    if a.len() > 0 && b.len() > 0 {
        if a[0] == b[0] {
            if a.drop_first() == b.drop_first() {
                assert(a =~= seq![a[0]] + a.drop_first());
                assert(b =~= seq![b[0]] + b.drop_first());
            }
            lemma_text_lt_total(a.drop_first(), b.drop_first());
        } else {
        }
    } else if a.len() == 0 && b.len() == 0 {
        assert(a =~= b);
    }
}

/// The three outcomes of comparing two texts.
#[derive(Debug, Clone, Copy, PartialEq, Eq, Structural)]
pub enum TextOrder {
    Less,
    Equal,
    Greater,
}

/// Compares two texts in the order of [`text_lt`].
pub fn compare_chars(a: &Vec<char>, b: &Vec<char>) -> (r: TextOrder)
    ensures
        r == TextOrder::Less <==> text_lt(a@, b@),
        r == TextOrder::Equal <==> a@ == b@,
        r == TextOrder::Greater <==> text_lt(b@, a@),
{
    let mut k: usize = 0;
    assert(a@.skip(0) =~= a@);
    assert(b@.skip(0) =~= b@);
    while k < a.len() && k < b.len()
        invariant
            k <= a.len(),
            k <= b.len(),
            a@.take(k as int) == b@.take(k as int),
            text_lt(a@, b@) == text_lt(a@.skip(k as int), b@.skip(k as int)),
            text_lt(b@, a@) == text_lt(b@.skip(k as int), a@.skip(k as int)),
        decreases a.len() - k,
    {
        let x = a[k];
        let y = b[k];
        assert(a@.skip(k as int)[0] == x);
        assert(b@.skip(k as int)[0] == y);
        if x < y {
            proof {
                lemma_text_lt_asymmetric(a@, b@);
                assert(a@ != b@) by {
                    assert(a@[k as int] != b@[k as int]);
                }
            }
            return TextOrder::Less;
        }
        if y < x {
            proof {
                lemma_text_lt_asymmetric(a@, b@);
                assert(a@ != b@) by {
                    assert(a@[k as int] != b@[k as int]);
                }
            }
            return TextOrder::Greater;
        }
        assert(x == y);
        assert(a@.skip(k as int).drop_first() =~= a@.skip(k + 1));
        assert(b@.skip(k as int).drop_first() =~= b@.skip(k + 1));
        assert(a@.take(k + 1) =~= a@.take(k as int).push(x));
        assert(b@.take(k + 1) =~= b@.take(k as int).push(y));
        k = k + 1;
    }
    proof {
        lemma_text_lt_irreflexive(a@);
        lemma_text_lt_asymmetric(a@, b@);
    }
    if a.len() == b.len() {
        assert(a@ =~= a@.take(k as int));
        assert(b@ =~= b@.take(k as int));
        TextOrder::Equal
    } else if a.len() < b.len() {
        assert(a@.skip(k as int).len() == 0);
        assert(a@ != b@);
        TextOrder::Less
    } else {
        assert(b@.skip(k as int).len() == 0);
        assert(a@ != b@);
        TextOrder::Greater
    }
}

/// The views of a list of strings.
pub open spec fn text_views(v: Seq<String>) -> Seq<Seq<char>> {
    v.map_values(|s: String| s@)
}

/// `s` is in ascending order.
pub open spec fn ascending(s: Seq<Seq<char>>) -> bool {
    forall|i: int, j: int| 0 <= i < j < s.len() ==> !text_lt(#[trigger] s[j], #[trigger] s[i])
}

/// The position in the ascending `sorted` at which `x` goes: after every
/// text that does not sort after it.
fn insertion_point(sorted: &Vec<String>, x: &String) -> (r: usize)
    requires
        ascending(text_views(sorted@)),
    ensures
        r <= sorted.len(),
        forall|k: int| 0 <= k < r ==> !text_lt(x@, #[trigger] sorted@[k]@),
        r < sorted.len() ==> text_lt(x@, sorted@[r as int]@),
{
    let xc = chars_of(x.as_str());
    let mut k: usize = 0;
    while k < sorted.len()
        invariant
            k <= sorted.len(),
            xc@ == x@,
            forall|m: int| 0 <= m < k ==> !text_lt(x@, #[trigger] sorted@[m]@),
        decreases sorted.len() - k,
    {
        let here = chars_of(sorted[k].as_str());
        match compare_chars(&xc, &here) {
            TextOrder::Less => {
                return k;
            },
            _ => {},
        }
        k = k + 1;
    }
    k
}

proof fn lemma_insert_keeps_ascending(s: Seq<Seq<char>>, pos: int, x: Seq<char>)
    requires
        ascending(s),
        0 <= pos <= s.len(),
        forall|k: int| 0 <= k < pos ==> !text_lt(x, #[trigger] s[k]),
        pos < s.len() ==> text_lt(x, s[pos]),
    ensures
        ascending(s.insert(pos, x)),
{
    let t = s.insert(pos, x);
    assert forall|i: int, j: int| 0 <= i < j < t.len() implies !text_lt(#[trigger] t[j], #[trigger] t[i]) by {
        if j == pos {
            assert(t[i] == s[i]);
        } else if i == pos {
            assert(t[j] == s[j - 1]);
            lemma_text_lt_asymmetric(x, s[pos]);
            if text_lt(s[j - 1], x) {
                if j - 1 > pos {
                    lemma_text_lt_transitive(s[j - 1], x, s[pos]);
                } else {
                    lemma_text_lt_asymmetric(x, s[pos]);
                }
            }
        } else {
            let si = if i < pos { i } else { i - 1 };
            let sj = if j < pos { j } else { j - 1 };
            assert(t[i] == s[si]);
            assert(t[j] == s[sj]);
        }
    }
}

/// Sorts strings in ascending order ([`text_lt`]); the result holds the same
/// texts.
pub fn sort_texts(v: &mut Vec<String>)
    ensures
        text_views(final(v)@).to_multiset() == text_views(old(v)@).to_multiset(),
        ascending(text_views(final(v)@)),
{
    broadcast use vstd::seq_lib::group_to_multiset_ensures;
    broadcast use vstd::multiset::group_multiset_axioms;
    let ghost initial = text_views(v@);
    let mut out: Vec<String> = Vec::new();
    assert(text_views(out@) =~= Seq::<Seq<char>>::empty());
    assert(text_views(out@).to_multiset().add(text_views(v@).to_multiset()) =~= initial.to_multiset());
    while v.len() > 0
        invariant
            text_views(out@).to_multiset().add(text_views(v@).to_multiset()) == initial.to_multiset(),
            ascending(text_views(out@)),
        decreases v.len(),
    {
        let ghost before = v@;
        let x = v.pop().unwrap();
        assert(text_views(before) =~= text_views(v@).push(x@));
        let pos = insertion_point(&out, &x);
        proof {
            lemma_insert_keeps_ascending(text_views(out@), pos as int, x@);
        }
        let ghost out_before = out@;
        out.insert(pos, x);
        assert(text_views(out@) =~= text_views(out_before).insert(pos as int, x@));
        proof {
            let a = text_views(out_before).to_multiset();
            let b = text_views(v@).to_multiset();
            vstd::seq_lib::to_multiset_insert(text_views(out_before), pos as int, x@);
            vstd::seq_lib::to_multiset_build(text_views(v@), x@);
            assert(a.insert(x@).add(b) =~= a.add(b.insert(x@)));
        }
    }
    assert(text_views(v@) =~= Seq::<Seq<char>>::empty());
    assert(text_views(out@).to_multiset() =~= initial.to_multiset());
    *v = out;
}

} // verus!
