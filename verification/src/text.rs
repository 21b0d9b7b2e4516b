//! Character-level helpers shared by the path, security and snippet logic.
//! Text is handled as sequences of `char`, which is what the view of a
//! `str` or `String` is.

use vstd::prelude::*;

verus! {

/// ASCII lower-casing of one character, as `char::to_ascii_lowercase` does.
pub open spec fn lower_char(c: char) -> char {
    if 'A' <= c && c <= 'Z' {
        ((c as u32) + 32) as char
    } else {
        c
    }
}

/// ASCII lower-casing of a whole text, as `str::to_ascii_lowercase` does.
pub open spec fn lower_text(s: Seq<char>) -> Seq<char> {
    s.map_values(|c: char| lower_char(c))
}

/// `sub` occurs in `s` starting at position `i`.
pub open spec fn occurs_at(s: Seq<char>, sub: Seq<char>, i: int) -> bool {
    0 <= i && i + sub.len() <= s.len() && s.subrange(i, i + sub.len()) == sub
}

/// `sub` occurs somewhere in `s` (as `str::contains` with a `&str` pattern).
pub open spec fn contains_text(s: Seq<char>, sub: Seq<char>) -> bool {
    exists|i: int| occurs_at(s, sub, i)
}

/// `s` starts with `prefix`.
pub open spec fn starts_with_text(s: Seq<char>, prefix: Seq<char>) -> bool {
    prefix.len() <= s.len() && s.subrange(0, prefix.len() as int) == prefix
}

/// `s` ends with `suffix`.
pub open spec fn ends_with_text(s: Seq<char>, suffix: Seq<char>) -> bool {
    suffix.len() <= s.len() && s.subrange(s.len() - suffix.len(), s.len() as int) == suffix
}

/// The characters of a string slice, in order.
pub fn chars_of(s: &str) -> (v: Vec<char>)
    ensures
        v@ == s@,
{
    let mut v: Vec<char> = Vec::new();
    for c in it: s.chars()
        invariant
            v@ == it.seq().take(it.index() as int),
            it.seq() == s@,
    {
        v.push(c);
    }
    v
}

/// Builds a `String` holding exactly the given characters.
/// Trusted: `String: FromIterator<char>` collects the characters in order.
#[verifier::external_body]
pub(crate) fn string_of(v: &Vec<char>) -> (s: String)
    ensures
        s@ == v@,
{
    v.iter().collect()
}

/// Whether two character sequences are equal.
pub fn chars_eq(a: &Vec<char>, b: &Vec<char>) -> (r: bool)
    ensures
        r == (a@ == b@),
{
    if a.len() != b.len() {
        return false;
    }
    let mut i: usize = 0;
    while i < a.len()
        invariant
            a.len() == b.len(),
            i <= a.len(),
            forall|k: int| 0 <= k < i ==> a@[k] == b@[k],
        decreases a.len() - i,
    {
        if a[i] != b[i] {
            return false;
        }
        i = i + 1;
    }
    assert(a@ =~= b@);
    true
}

/// Whether two string slices hold the same text.
pub fn text_eq(a: &str, b: &str) -> (r: bool)
    ensures
        r == (a@ == b@),
{
    let va = chars_of(a);
    let vb = chars_of(b);
    chars_eq(&va, &vb)
}

/// ASCII lower-casing of one character.
pub fn lower_char_exec(c: char) -> (r: char)
    ensures
        r == lower_char(c),
{
    if 'A' <= c && c <= 'Z' {
        let x: u32 = (c as u32) + 32;
        let b: u8 = x as u8;
        b as char
    } else {
        c
    }
}

/// ASCII lower-casing of a character sequence.
pub fn lower_chars(s: &Vec<char>) -> (r: Vec<char>)
    ensures
        r@ == lower_text(s@),
{
    let mut r: Vec<char> = Vec::new();
    let mut i: usize = 0;
    while i < s.len()
        invariant
            i <= s.len(),
            r@ == lower_text(s@.take(i as int)),
        decreases s.len() - i,
    {
        let c = lower_char_exec(s[i]);
        r.push(c);
        assert(s@.take(i + 1) == s@.take(i as int).push(s@[i as int]));
        assert(lower_text(s@.take(i + 1)) =~= lower_text(s@.take(i as int)).push(lower_char(s@[i as int])));
        i = i + 1;
    }
    assert(s@.take(s.len() as int) == s@);
    r
}

/// Whether `sub` occurs in `s` at position `i`.
pub fn occurs_at_exec(s: &Vec<char>, sub: &Vec<char>, i: usize) -> (r: bool)
    ensures
        r == occurs_at(s@, sub@, i as int),
{
    if i > s.len() || sub.len() > s.len() - i {
        return false;
    }
    let mut k: usize = 0;
    while k < sub.len()
        invariant
            i + sub.len() <= s.len(),
            k <= sub.len(),
            forall|j: int| 0 <= j < k ==> s@[i + j] == sub@[j],
        decreases sub.len() - k,
    {
        if s[i + k] != sub[k] {
            assert(s@.subrange(i as int, i + sub.len())[k as int] != sub@[k as int]);
            return false;
        }
        k = k + 1;
    }
    assert(s@.subrange(i as int, i + sub.len()) =~= sub@);
    true
}

/// Whether `sub` occurs anywhere in `s`.
pub fn contains_exec(s: &Vec<char>, sub: &Vec<char>) -> (r: bool)
    ensures
        r == contains_text(s@, sub@),
{
    if sub.len() > s.len() {
        assert forall|i: int| !occurs_at(s@, sub@, i) by {}
        return false;
    }
    let limit: usize = s.len() - sub.len();
    let mut i: usize = 0;
    loop
        invariant
            sub.len() <= s.len(),
            limit == s.len() - sub.len(),
            i <= limit,
            forall|j: int| 0 <= j < i ==> !occurs_at(s@, sub@, j),
        ensures
            forall|j: int| 0 <= j <= limit ==> !occurs_at(s@, sub@, j),
        decreases limit - i,
    {
        if occurs_at_exec(s, sub, i) {
            return true;
        }
        if i == limit {
            break;
        }
        i = i + 1;
    }
    assert forall|j: int| !occurs_at(s@, sub@, j) by {
        if 0 <= j <= limit {
        }
    }
    false
}

/// Whether `s` ends with `suffix`.
pub fn ends_with_exec(s: &Vec<char>, suffix: &Vec<char>) -> (r: bool)
    ensures
        r == ends_with_text(s@, suffix@),
{
    if suffix.len() > s.len() {
        return false;
    }
    occurs_at_exec(s, suffix, s.len() - suffix.len())
}

/// Whether `s` starts with `prefix`.
pub fn starts_with_exec(s: &Vec<char>, prefix: &Vec<char>) -> (r: bool)
    ensures
        r == starts_with_text(s@, prefix@),
{
    occurs_at_exec(s, prefix, 0)
}

/// The characters of `s` from position `start` up to `end`.
pub fn slice_chars(s: &Vec<char>, start: usize, end: usize) -> (r: Vec<char>)
    requires
        start <= end <= s.len(),
    ensures
        r@ == s@.subrange(start as int, end as int),
{
    let mut r: Vec<char> = Vec::new();
    let mut i: usize = start;
    while i < end
        invariant
            start <= i <= end <= s.len(),
            r@ == s@.subrange(start as int, i as int),
        decreases end - i,
    {
        r.push(s[i]);
        assert(s@.subrange(start as int, i + 1) == s@.subrange(start as int, i as int).push(s@[i as int]));
        i = i + 1;
    }
    r
}

/// Appends the characters of `extra` to `out`.
pub fn push_all(out: &mut Vec<char>, extra: &Vec<char>)
    ensures
        final(out)@ == old(out)@ + extra@,
{
    let mut i: usize = 0;
    while i < extra.len()
        invariant
            i <= extra.len(),
            out@ == old(out)@ + extra@.take(i as int),
        decreases extra.len() - i,
    {
        out.push(extra[i]);
        assert(extra@.take(i + 1) == extra@.take(i as int).push(extra@[i as int]));
        i = i + 1;
    }
    assert(extra@.take(extra.len() as int) == extra@);
}

/// The concatenation of two texts.
pub fn concat(a: &str, b: &str) -> (r: String)
    ensures
        r@ == a@ + b@,
{
    let mut v = chars_of(a);
    let w = chars_of(b);
    push_all(&mut v, &w);
    string_of(&v)
}

/// White space as `char::is_whitespace` defines it (the Unicode
/// `White_Space` property).
pub open spec fn is_space(c: char) -> bool {
    ||| c == ' '
    ||| ('\t' <= c && c <= '\r')
    ||| c == '\u{85}'
    ||| c == '\u{a0}'
    ||| c == '\u{1680}'
    ||| ('\u{2000}' <= c && c <= '\u{200a}')
    ||| c == '\u{2028}'
    ||| c == '\u{2029}'
    ||| c == '\u{202f}'
    ||| c == '\u{205f}'
    ||| c == '\u{3000}'
}

pub fn is_space_exec(c: char) -> (r: bool)
    ensures
        r == is_space(c),
{
    c == ' ' || ('\t' <= c && c <= '\r') || c == '\u{85}' || c == '\u{a0}' || c == '\u{1680}'
        || ('\u{2000}' <= c && c <= '\u{200a}') || c == '\u{2028}' || c == '\u{2029}'
        || c == '\u{202f}' || c == '\u{205f}' || c == '\u{3000}'
}

/// The first position at or after `i` that holds no white space (or the end).
pub open spec fn first_non_space(s: Seq<char>, i: int) -> int
    decreases s.len() - i,
{
    if i >= s.len() || i < 0 {
        s.len() as int
    } else if !is_space(s[i]) {
        i
    } else {
        first_non_space(s, i + 1)
    }
}

/// One past the last position before `end` that holds no white space (or 0).
pub open spec fn last_non_space_end(s: Seq<char>, end: int) -> int
    decreases end,
{
    if end <= 0 {
        0
    } else if !is_space(s[end - 1]) {
        end
    } else {
        last_non_space_end(s, end - 1)
    }
}

/// `s` without white space at either end (`str::trim`).
pub open spec fn trim_text(s: Seq<char>) -> Seq<char> {
    let a = first_non_space(s, 0);
    if a >= s.len() {
        Seq::empty()
    } else {
        s.subrange(a, last_non_space_end(s, s.len() as int))
    }
}

pub proof fn lemma_first_non_space_bounds(s: Seq<char>, i: int)
    requires
        0 <= i <= s.len(),
    ensures
        i <= first_non_space(s, i) <= s.len(),
        first_non_space(s, i) < s.len() ==> !is_space(s[first_non_space(s, i)]),
    decreases s.len() - i,
{
    if i < s.len() && is_space(s[i]) {
        lemma_first_non_space_bounds(s, i + 1);
    }
}

pub proof fn lemma_last_non_space_end_bounds(s: Seq<char>, end: int, a: int)
    requires
        0 <= a < end <= s.len(),
        !is_space(s[a]),
    ensures
        a < last_non_space_end(s, end) <= end,
    decreases end,
{
    if is_space(s[end - 1]) {
        lemma_last_non_space_end_bounds(s, end - 1, a);
    }
}

/// Trimming gives a piece of the text.
pub proof fn lemma_trim_is_piece(s: Seq<char>)
    ensures
        exists|a: int, b: int| 0 <= a <= b <= s.len() && trim_text(s) == s.subrange(a, b),
{
    lemma_first_non_space_bounds(s, 0);
    let a = first_non_space(s, 0);
    if a >= s.len() {
        assert(trim_text(s) == s.subrange(0, 0));
    } else {
        lemma_last_non_space_end_bounds(s, s.len() as int, a);
        assert(trim_text(s) == s.subrange(a, last_non_space_end(s, s.len() as int)));
    }
}

/// `s` without white space at either end.
pub fn trim_chars(s: &Vec<char>) -> (r: Vec<char>)
    ensures
        r@ == trim_text(s@),
{
    let mut a: usize = 0;
    while a < s.len() && is_space_exec(s[a])
        invariant
            a <= s.len(),
            first_non_space(s@, a as int) == first_non_space(s@, 0),
        decreases s.len() - a,
    {
        a = a + 1;
    }
    if a >= s.len() {
        return Vec::new();
    }
    let mut b: usize = s.len();
    while b > 0 && is_space_exec(s[b - 1])
        invariant
            b <= s.len(),
            last_non_space_end(s@, b as int) == last_non_space_end(s@, s.len() as int),
        decreases b,
    {
        b = b - 1;
    }
    proof {
        lemma_last_non_space_end_bounds(s@, s.len() as int, a as int);
    }
    slice_chars(s, a, b)
}

} // verus!
