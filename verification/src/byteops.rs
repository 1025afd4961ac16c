//! Byte-level helpers: big-endian encoding of integers, equality and
//! lexicographic order of fixed-width byte strings.

use vstd::prelude::*;

verus! {

/// Big-endian byte `i` (0 is the most significant) of a 64-bit integer.
pub open spec fn be_byte(x: u64, i: int) -> u8 {
    (x >> (((7 - i) * 8) as u64)) as u8
}

/// The eight big-endian bytes of a 64-bit integer.
pub open spec fn be_bytes(x: u64) -> Seq<u8> {
    Seq::new(8, |i: int| be_byte(x, i))
}

/// Append the eight big-endian bytes of `x`.
pub fn push_be_bytes(out: &mut Vec<u8>, x: u64)
    ensures
        final(out)@ == old(out)@ + be_bytes(x),
{
    out.push(#[verifier::truncate] ((x >> 56) as u8));
    out.push(#[verifier::truncate] ((x >> 48) as u8));
    out.push(#[verifier::truncate] ((x >> 40) as u8));
    out.push(#[verifier::truncate] ((x >> 32) as u8));
    out.push(#[verifier::truncate] ((x >> 24) as u8));
    out.push(#[verifier::truncate] ((x >> 16) as u8));
    out.push(#[verifier::truncate] ((x >> 8) as u8));
    out.push(#[verifier::truncate] (x as u8));
    proof {
        assert(x >> 0 == x) by (bit_vector);
        assert(final(out)@ =~= old(out)@ + be_bytes(x));
    }
}

/// Equality of two 32-byte strings.
pub fn bytes32_eq(a: &[u8; 32], b: &[u8; 32]) -> (r: bool)
    ensures
        r == (a@ == b@),
{
    let mut i: usize = 0;
    while i < 32
        invariant
            0 <= i <= 32,
            forall|j: int| 0 <= j < i ==> a@[j] == b@[j],
        decreases 32 - i,
    {
        if a[i] != b[i] {
            return false;
        }
        i += 1;
    }
    proof {
        assert(a@ =~= b@);
    }
    true
}

/// Equality of two 64-byte strings.
pub fn bytes64_eq(a: &[u8; 64], b: &[u8; 64]) -> (r: bool)
    ensures
        r == (a@ == b@),
{
    let mut i: usize = 0;
    while i < 64
        invariant
            0 <= i <= 64,
            forall|j: int| 0 <= j < i ==> a@[j] == b@[j],
        decreases 64 - i,
    {
        if a[i] != b[i] {
            return false;
        }
        i += 1;
    }
    proof {
        assert(a@ =~= b@);
    }
    true
}

/// Lexicographic strictly-less on 64-byte strings, decided from byte `i` on.
pub open spec fn lex_lt_from(a: Seq<u8>, b: Seq<u8>, i: int) -> bool
    decreases 64 - i,
{
    if i < 0 || i >= 64 {
        false
    } else if a[i] < b[i] {
        true
    } else if a[i] == b[i] {
        lex_lt_from(a, b, i + 1)
    } else {
        false
    }
}

/// Lexicographic strictly-less on 64-byte strings; the canonical total order
/// on validator keys.
pub open spec fn lex_lt(a: Seq<u8>, b: Seq<u8>) -> bool {
    lex_lt_from(a, b, 0)
}

/// Lexicographic comparison of two 64-byte strings.
pub fn bytes64_lt(a: &[u8; 64], b: &[u8; 64]) -> (r: bool)
    ensures
        r == lex_lt(a@, b@),
{
    let mut i: usize = 0;
    while i < 64
        invariant
            0 <= i <= 64,
            lex_lt(a@, b@) == lex_lt_from(a@, b@, i as int),
        decreases 64 - i,
    {
        if a[i] < b[i] {
            return true;
        }
        if a[i] > b[i] {
            return false;
        }
        i += 1;
    }
    false
}

proof fn lemma_lex_from_connected(a: Seq<u8>, b: Seq<u8>, i: int)
    requires
        a.len() == 64,
        b.len() == 64,
        0 <= i <= 64,
    ensures
        lex_lt_from(a, b, i) || lex_lt_from(b, a, i) || (forall|j: int|
            i <= j < 64 ==> a[j] == b[j]),
    decreases 64 - i,
{
    if i < 64 && a[i] == b[i] {
        lemma_lex_from_connected(a, b, i + 1);
    }
}

proof fn lemma_lex_from_asymmetric(a: Seq<u8>, b: Seq<u8>, i: int)
    requires
        0 <= i <= 64,
    ensures
        !(lex_lt_from(a, b, i) && lex_lt_from(b, a, i)),
    decreases 64 - i,
{
    if i < 64 && a[i] == b[i] {
        lemma_lex_from_asymmetric(a, b, i + 1);
    }
}

/// The order on 64-byte strings is total: exactly one of `a < b`, `a == b`
/// and `b < a` holds.
pub proof fn lemma_lex_trichotomy(a: Seq<u8>, b: Seq<u8>)
    requires
        a.len() == 64,
        b.len() == 64,
    ensures
        lex_lt(a, b) || lex_lt(b, a) || a == b,
        !(lex_lt(a, b) && lex_lt(b, a)),
        lex_lt(a, b) ==> a != b,
        lex_lt(b, a) ==> a != b,
    decreases 64int,
{
    lemma_lex_from_connected(a, b, 0);
    lemma_lex_from_asymmetric(a, b, 0);
    if !lex_lt(a, b) && !lex_lt(b, a) {
        assert(a =~= b);
    }
    if a == b {
        lemma_lex_from_asymmetric(a, a, 0);
    }
}

proof fn lemma_lex_from_transitive(a: Seq<u8>, b: Seq<u8>, c: Seq<u8>, i: int)
    requires
        0 <= i <= 64,
        lex_lt_from(a, b, i),
        lex_lt_from(b, c, i),
    ensures
        lex_lt_from(a, c, i),
    decreases 64 - i,
{
    if i < 64 && a[i] == b[i] && b[i] == c[i] {
        lemma_lex_from_transitive(a, b, c, i + 1);
    }
}

/// The order on 64-byte strings is transitive.
pub proof fn lemma_lex_transitive(a: Seq<u8>, b: Seq<u8>, c: Seq<u8>)
    requires
        lex_lt(a, b),
        lex_lt(b, c),
    ensures
        lex_lt(a, c),
{
    lemma_lex_from_transitive(a, b, c, 0);
}

} // verus!
