//! Text primitives over character sequences: conversion, equality,
//! lexicographic order and substring search.

use vstd::prelude::*;

verus! {

/// `pattern` occurs in `text` as a contiguous run of characters.
pub open spec fn is_substring(text: Seq<char>, pattern: Seq<char>) -> bool {
    exists|i: int| occurs_at(text, pattern, i)
}

/// `pattern` occurs in `text` starting at offset `i`.
pub open spec fn occurs_at(text: Seq<char>, pattern: Seq<char>, i: int) -> bool {
    0 <= i && i + pattern.len() <= text.len() && text.subrange(i, i + pattern.len()) == pattern
}

/// `text` ends with `suffix`.
pub open spec fn has_suffix(text: Seq<char>, suffix: Seq<char>) -> bool {
    suffix.len() <= text.len() && text.subrange(text.len() - suffix.len(), text.len() as int)
        == suffix
}

/// `s` holds no character `c`.
pub open spec fn free_of(s: Seq<char>, c: char) -> bool {
    forall|i: int| 0 <= i < s.len() ==> s[i] != c
}

/// A text is cut at the first `c` in one way only: if two texts without `c`,
/// each followed by `c` and a rest, make the same text, they are one text,
/// and so are the rests.
pub proof fn lemma_split_unique(x: Seq<char>, u: Seq<char>, y: Seq<char>, v: Seq<char>, c: char)
    requires
        free_of(x, c),
        free_of(y, c),
        x.push(c) + u == y.push(c) + v,
    ensures
        x == y,
        u == v,
{
    let l = x.push(c) + u;
    let r = y.push(c) + v;
    if x.len() < y.len() {
        assert(l[x.len() as int] == c);
        assert(r[x.len() as int] == y[x.len() as int]);
    }
    if y.len() < x.len() {
        assert(r[y.len() as int] == c);
        assert(l[y.len() as int] == x[y.len() as int]);
    }
    assert(x =~= y) by {
        assert forall|i: int| 0 <= i < x.len() implies x[i] == y[i] by {
            assert(l[i] == x[i]);
            assert(r[i] == y[i]);
        }
    }
    assert(l.len() == r.len());
    assert(u =~= v) by {
        assert forall|i: int| 0 <= i < u.len() implies u[i] == v[i] by {
            assert(l[x.len() + 1 + i] == u[i]);
            assert(r[y.len() + 1 + i] == v[i]);
        }
    }
}

/// `a` and `b` agree on their first `k` characters.
pub open spec fn agree_upto(a: Seq<char>, b: Seq<char>, k: int) -> bool {
    0 <= k <= a.len() && k <= b.len() && forall|i: int| 0 <= i < k ==> a[i] == b[i]
}

/// `a` sorts before `b`, decided at offset `k`: the two agree before `k`,
/// and there `a` ends or holds the smaller code point.
pub open spec fn lt_at(a: Seq<char>, b: Seq<char>, k: int) -> bool {
    agree_upto(a, b, k) && k < b.len() && (k == a.len() || (a[k] as int) < (b[k] as int))
}

/// Strict lexicographic order on character sequences, by code point.
pub open spec fn seq_lt(a: Seq<char>, b: Seq<char>) -> bool {
    exists|k: int| lt_at(a, b, k)
}

/// Non-strict lexicographic order.
pub open spec fn seq_le(a: Seq<char>, b: Seq<char>) -> bool {
    !seq_lt(b, a)
}

/// The outcome of comparing two values in an order.
#[derive(Clone, Copy, Debug, PartialEq, Eq, Structural)]
pub enum Rank {
    Before,
    Same,
    After,
}

/// No sequence sorts before itself.
pub proof fn lemma_lt_irreflexive(a: Seq<char>)
    ensures
        !seq_lt(a, a),
{
}

/// The order is transitive.
pub proof fn lemma_lt_transitive(a: Seq<char>, b: Seq<char>, c: Seq<char>)
    requires
        seq_lt(a, b),
        seq_lt(b, c),
    ensures
        seq_lt(a, c),
{
    let k1 = choose|k: int| lt_at(a, b, k);
    let k2 = choose|k: int| lt_at(b, c, k);
    let k = if k1 <= k2 { k1 } else { k2 };
    assert(lt_at(a, c, k));
}

/// Two sequences that agree on their first `k` characters are equal or
/// ordered one way or the other.
proof fn lemma_total_from(a: Seq<char>, b: Seq<char>, k: int)
    requires
        agree_upto(a, b, k),
    ensures
        a == b || seq_lt(a, b) || seq_lt(b, a),
    decreases a.len() - k,
{
    if k == a.len() && k == b.len() {
        assert(a =~= b);
    } else if k == a.len() {
        assert(lt_at(a, b, k));
    } else if k == b.len() {
        assert(lt_at(b, a, k));
    } else if a[k] != b[k] {
        if (a[k] as int) < (b[k] as int) {
            assert(lt_at(a, b, k));
        } else {
            assert(lt_at(b, a, k));
        }
    } else {
        lemma_total_from(a, b, k + 1);
    }
}

/// The order is total: distinct sequences are ordered one way or the other.
pub proof fn lemma_lt_total(a: Seq<char>, b: Seq<char>)
    ensures
        a == b || seq_lt(a, b) || seq_lt(b, a),
{
    lemma_total_from(a, b, 0);
}

/// The order is asymmetric.
pub proof fn lemma_lt_asymmetric(a: Seq<char>, b: Seq<char>)
    requires
        seq_lt(a, b),
    ensures
        !seq_lt(b, a),
{
    if seq_lt(b, a) {
        lemma_lt_transitive(a, b, a);
        lemma_lt_irreflexive(a);
    }
}

/// The characters of a string slice, in order.
pub fn chars_of(s: &str) -> (v: Vec<char>)
    ensures
        v@ == s@,
{
    let mut v: Vec<char> = Vec::new();
    for c in it: s.chars()
        invariant
            it.seq() == s@,
            v@ == it.seq().take(it.index() as int),
    {
        v.push(c);
    }
    assert(v@ == s@);
    v
}

/// Compares two character vectors lexicographically.
pub fn compare_chars(a: &Vec<char>, b: &Vec<char>) -> (r: Rank)
    ensures
        r == Rank::Before <==> seq_lt(a@, b@),
        r == Rank::Same <==> a@ == b@,
        r == Rank::After <==> seq_lt(b@, a@),
{
    let mut i: usize = 0;
    while i < a.len() && i < b.len()
        invariant
            agree_upto(a@, b@, i as int),
        decreases a.len() - i,
    {
        if a[i] != b[i] {
            if a[i] < b[i] {
                proof {
                    assert(lt_at(a@, b@, i as int));
                    lemma_lt_asymmetric(a@, b@);
                }
                return Rank::Before;
            } else {
                proof {
                    assert(lt_at(b@, a@, i as int));
                    lemma_lt_asymmetric(b@, a@);
                }
                return Rank::After;
            }
        }
        i = i + 1;
    }
    if i < b.len() {
        proof {
            assert(lt_at(a@, b@, i as int));
            lemma_lt_asymmetric(a@, b@);
        }
        Rank::Before
    } else if i < a.len() {
        proof {
            assert(lt_at(b@, a@, i as int));
            lemma_lt_asymmetric(b@, a@);
        }
        Rank::After
    } else {
        proof {
            assert(a@ =~= b@);
            lemma_lt_irreflexive(a@);
        }
        Rank::Same
    }
}

/// Compares two strings lexicographically by code point.
pub fn compare(a: &str, b: &str) -> (r: Rank)
    ensures
        r == Rank::Before <==> seq_lt(a@, b@),
        r == Rank::Same <==> a@ == b@,
        r == Rank::After <==> seq_lt(b@, a@),
{
    let x = chars_of(a);
    let y = chars_of(b);
    compare_chars(&x, &y)
}

/// Whether two strings hold the same characters.
pub fn str_eq(a: &str, b: &str) -> (r: bool)
    ensures
        r == (a@ == b@),
{
    compare(a, b) == Rank::Same
}

/// Whether `pattern` occurs in `text` at offset `i`.
fn matches_at(text: &Vec<char>, pattern: &Vec<char>, i: usize) -> (r: bool)
    requires
        i + pattern.len() <= text.len(),
    ensures
        r == occurs_at(text@, pattern@, i as int),
{
    let mut j: usize = 0;
    while j < pattern.len()
        invariant
            i + pattern.len() <= text.len(),
            j <= pattern.len(),
            forall|k: int| 0 <= k < j ==> text@[i + k] == pattern@[k],
        decreases pattern.len() - j,
    {
        if text[i + j] != pattern[j] {
            assert(text@.subrange(i as int, i + pattern.len())[j as int] != pattern@[j as int]);
            return false;
        }
        j = j + 1;
    }
    assert(text@.subrange(i as int, i + pattern.len()) =~= pattern@);
    true
}

/// Substring containment, as `str::contains` with a string pattern.
pub fn contains(text: &str, pattern: &str) -> (r: bool)
    ensures
        r == is_substring(text@, pattern@),
{
    let t = chars_of(text);
    let p = chars_of(pattern);
    if p.len() > t.len() {
        return false;
    }
    let last: usize = t.len() - p.len();
    let mut i: usize = 0;
    while i < last
        invariant
            last == t.len() - p.len(),
            i <= last,
            t@ == text@,
            p@ == pattern@,
            forall|k: int| 0 <= k < i ==> !occurs_at(t@, p@, k),
        decreases last - i,
    {
        if matches_at(&t, &p, i) {
            return true;
        }
        i = i + 1;
    }
    matches_at(&t, &p, last)
}

/// Whether `text` ends with `suffix`.
pub fn ends_with(text: &str, suffix: &str) -> (r: bool)
    ensures
        r == has_suffix(text@, suffix@),
{
    let t = chars_of(text);
    let p = chars_of(suffix);
    if p.len() > t.len() {
        return false;
    }
    matches_at(&t, &p, t.len() - p.len())
}

/// The lowercase form of a character sequence, as `str::to_lowercase`
/// computes it from the Unicode case mappings.
pub uninterp spec fn lowercase(s: Seq<char>) -> Seq<char>;

/// Calls `str::to_lowercase`. The contract only names the result: the
/// lowercase form depends on the text alone.
#[verifier::external_body]
pub(crate) fn to_lowercase(s: &str) -> (r: String)
    ensures
        r@ == lowercase(s@),
{
    s.to_lowercase()
}

} // verus!
