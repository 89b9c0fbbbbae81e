//! Lexicographic order on byte strings.
//!
//! Migration directories are ordered by the bytes of their names (the same
//! order a path sort gives), so the whole registry order rests on this one
//! total order and its laws.

use vstd::prelude::*;

verus! {

/// `a` is lexicographically at or before `b`, byte by byte: the empty string
/// comes first, and a proper prefix comes before every extension of it.
pub open spec fn lex_le(a: Seq<u8>, b: Seq<u8>) -> bool
    decreases a.len(),
{
    if a.len() == 0 {
        true
    } else if b.len() == 0 {
        false
    } else if a[0] < b[0] {
        true
    } else if a[0] > b[0] {
        false
    } else {
        lex_le(a.drop_first(), b.drop_first())
    }
}

/// Strict lexicographic order.
pub open spec fn lex_lt(a: Seq<u8>, b: Seq<u8>) -> bool {
    lex_le(a, b) && a != b
}

/// Any two byte strings are comparable.
pub proof fn lemma_lex_le_total(a: Seq<u8>, b: Seq<u8>)
    ensures
        lex_le(a, b) || lex_le(b, a),
    decreases a.len(),
{
    if a.len() == 0 || b.len() == 0 {
    } else if a[0] == b[0] {
        lemma_lex_le_total(a.drop_first(), b.drop_first());
    }
}

/// The order is antisymmetric: mutual `lex_le` forces equality.
pub proof fn lemma_lex_le_antisymmetric(a: Seq<u8>, b: Seq<u8>)
    requires
        lex_le(a, b),
        lex_le(b, a),
    ensures
        a == b,
    decreases a.len(),
{
    if a.len() == 0 {
        assert(b.len() == 0);
        assert(a =~= b);
    } else {
        lemma_lex_le_antisymmetric(a.drop_first(), b.drop_first());
        assert(a =~= seq![a[0]] + a.drop_first());
        assert(b =~= seq![b[0]] + b.drop_first());
    }
}

/// The order is transitive.
pub proof fn lemma_lex_le_transitive(a: Seq<u8>, b: Seq<u8>, c: Seq<u8>)
    requires
        lex_le(a, b),
        lex_le(b, c),
    ensures
        lex_le(a, c),
    decreases a.len(),
{
    if a.len() == 0 || b.len() == 0 || c.len() == 0 {
    } else if a[0] == b[0] && b[0] == c[0] {
        lemma_lex_le_transitive(a.drop_first(), b.drop_first(), c.drop_first());
    }
}

/// Comparing the suffixes of two byte strings whose first `i` bytes agree
/// decides the comparison of the whole strings.
proof fn lemma_lex_le_common_prefix(a: Seq<u8>, b: Seq<u8>, i: int)
    requires
        0 <= i <= a.len(),
        i <= b.len(),
        forall|k: int| 0 <= k < i ==> a[k] == b[k],
    ensures
        lex_le(a, b) == lex_le(a.skip(i), b.skip(i)),
    decreases i,
{
    if i > 0 {
        assert(a.len() > 0 && b.len() > 0);
        assert(a[0] == b[0]);
        lemma_lex_le_common_prefix(a.drop_first(), b.drop_first(), i - 1);
        assert(a.drop_first().skip(i - 1) =~= a.skip(i));
        assert(b.drop_first().skip(i - 1) =~= b.skip(i));
    } else {
        assert(a.skip(0) =~= a);
        assert(b.skip(0) =~= b);
    }
}

/// Decides `lex_le` on the suffixes of `a` and `b` that start at `i`.
fn le_from(a: &[u8], b: &[u8], i: usize) -> (r: bool)
    requires
        i <= a@.len(),
        i <= b@.len(),
    ensures
        r == lex_le(a@.skip(i as int), b@.skip(i as int)),
    decreases a@.len() - i,
{
    let ghost sa = a@.skip(i as int);
    let ghost sb = b@.skip(i as int);
    if i == a.len() {
        assert(sa.len() == 0);
        true
    } else if i == b.len() {
        assert(sb.len() == 0 && sa.len() > 0);
        false
    } else {
        assert(sa[0] == a@[i as int] && sb[0] == b@[i as int]);
        if a[i] < b[i] {
            true
        } else if a[i] > b[i] {
            false
        } else {
            let r = le_from(a, b, i + 1);
            assert(sa.drop_first() =~= a@.skip(i + 1));
            assert(sb.drop_first() =~= b@.skip(i + 1));
            r
        }
    }
}

/// Compares two byte strings lexicographically.
pub fn bytes_le(a: &[u8], b: &[u8]) -> (r: bool)
    ensures
        r == lex_le(a@, b@),
{
    let r = le_from(a, b, 0);
    assert(a@.skip(0) =~= a@);
    assert(b@.skip(0) =~= b@);
    r
}

} // verus!
