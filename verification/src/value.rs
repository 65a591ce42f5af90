//! The mathematical value of a limb vector, and the arithmetic lemmas about
//! it that the constant-time primitives and the sampler are proved against.
//!
//! A vector of 64-bit limbs, least significant limb first, denotes the
//! natural number `sum limb[i] * 2^(64*i)`; a byte sequence likewise denotes
//! `sum byte[i] * 2^(8*i)`.

use vstd::arithmetic::mul::lemma_mul_inequality;
use vstd::arithmetic::power2::{lemma_pow2_adds, lemma_pow2_pos, pow2};
use vstd::prelude::*;

verus! {

/// The natural number denoted by a little-endian vector of 64-bit limbs.
pub open spec fn limbs_value(s: Seq<u64>) -> nat
    decreases s.len(),
{
    if s.len() == 0 {
        0
    } else {
        (s[0] + limbs_value(s.subrange(1, s.len() as int)) * pow2(64)) as nat
    }
}

/// The natural number denoted by a little-endian byte sequence.
pub open spec fn bytes_value(s: Seq<u8>) -> nat
    decreases s.len(),
{
    if s.len() == 0 {
        0
    } else {
        (s[0] + bytes_value(s.subrange(1, s.len() as int)) * pow2(8)) as nat
    }
}

/// Peeling the least significant limb off a slice of `s`.
pub proof fn lemma_limbs_value_unfold(s: Seq<u64>, lo: int, hi: int)
    requires
        0 <= lo < hi <= s.len(),
    ensures
        limbs_value(s.subrange(lo, hi)) == s[lo] + limbs_value(s.subrange(lo + 1, hi)) * pow2(64),
{
    let t = s.subrange(lo, hi);
    assert(t.subrange(1, t.len() as int) =~= s.subrange(lo + 1, hi));
}

/// A limb vector denotes zero exactly when every limb is zero.
pub proof fn lemma_limbs_value_zero_iff(s: Seq<u64>)
    ensures
        limbs_value(s) == 0 <==> (forall|i: int| 0 <= i < s.len() ==> s[i] == 0),
    decreases s.len(),
{
    if s.len() == 0 {
    } else {
        let rest = s.subrange(1, s.len() as int);
        lemma_limbs_value_zero_iff(rest);
        lemma_pow2_pos(64);
        let r = limbs_value(rest);
        assert(r * pow2(64) == 0 <==> r == 0) by (nonlinear_arith)
            requires
                pow2(64) > 0,
        ;
        if limbs_value(s) == 0 {
            assert forall|i: int| 0 <= i < s.len() implies s[i] == 0 by {
                if i > 0 {
                    assert(s[i] == rest[i - 1]);
                }
            }
        } else {
            if forall|i: int| 0 <= i < s.len() ==> s[i] == 0 {
                assert forall|i: int| 0 <= i < rest.len() implies rest[i] == 0 by {
                    assert(rest[i] == s[i + 1]);
                }
                assert(limbs_value(s) == 0);
            }
        }
    }
}

/// Comparing two numbers given as a low digit (below the base) and a high
/// part: the high parts decide unless they are equal.
pub proof fn lemma_place_value_cmp(b: nat, alow: nat, ahigh: nat, blow: nat, bhigh: nat)
    by (nonlinear_arith)
    requires
        alow < b,
        blow < b,
    ensures
        (alow + ahigh * b < blow + bhigh * b) <==> (ahigh < bhigh || (ahigh == bhigh && alow
            < blow)),
        (alow + ahigh * b == blow + bhigh * b) <==> (ahigh == bhigh && alow == blow),
{
}

/// The value of `len` bytes is below `2^(8*len)`.
pub proof fn lemma_bytes_value_bound(s: Seq<u8>)
    ensures
        bytes_value(s) < pow2(8 * s.len()),
    decreases s.len(),
{
    if s.len() == 0 {
        vstd::arithmetic::power2::lemma2_to64();
    } else {
        let rest = s.subrange(1, s.len() as int);
        lemma_bytes_value_bound(rest);
        lemma_pow2_pos(8);
        lemma_pow2_adds(8 * rest.len(), 8);
        assert(8 * s.len() == 8 * rest.len() + 8);
        let r = bytes_value(rest);
        let p = pow2(8 * rest.len());
        lemma_mul_inequality(r as int, p - 1, pow2(8) as int);
        assert((p - 1) * pow2(8) == p * pow2(8) - pow2(8)) by (nonlinear_arith);
        assert(s[0] < pow2(8)) by {
            vstd::arithmetic::power2::lemma2_to64();
        }
    }
}

/// Peeling the least significant byte off a slice of `s`.
pub proof fn lemma_bytes_value_unfold(s: Seq<u8>, lo: int, hi: int)
    requires
        0 <= lo < hi <= s.len(),
    ensures
        bytes_value(s.subrange(lo, hi)) == s[lo] + bytes_value(s.subrange(lo + 1, hi)) * pow2(8),
{
    let t = s.subrange(lo, hi);
    assert(t.subrange(1, t.len() as int) =~= s.subrange(lo + 1, hi));
}

} // verus!
