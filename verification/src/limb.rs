//! Constant-time comparison over limb vectors, the public top-limb mask
//! helper, and the little-endian byte decoding used by the sampler.
//!
//! Limbs are ordered least significant first. The comparison functions walk
//! every limb with bitwise mask arithmetic only, so their control flow and
//! memory access pattern depend on the vector length alone, never on the
//! limb values.

use crate::mask::{
    is_mask_word, mask_from_word, word_eq_mask, word_lt_mask, word_nonzero_mask, LimbMask,
    WORD_FALSE, WORD_TRUE,
};
use crate::value::{
    bytes_value, lemma_bytes_value_bound, lemma_bytes_value_unfold, lemma_limbs_value_unfold,
    lemma_limbs_value_zero_iff, lemma_place_value_cmp, limbs_value,
};
use vstd::arithmetic::power2::{lemma2_to64, lemma2_to64_rest, lemma_pow2_adds, pow2};
use vstd::bits::{
    lemma_u64_pow2_no_overflow, lemma_u64_shl_is_mul, lemma_u64_shr_is_div, low_bits_mask,
};
use vstd::pervasive::VecAdditionalExecFns;
use vstd::prelude::*;
use vstd::std_specs::bits::{axiom_u64_leading_zeros, u64_leading_zeros};

verus! {

/// A machine word of the multi-precision representation.
pub type Limb = u64;

/// Bits in one limb.
pub const LIMB_BITS: usize = 64;

/// Bytes in one limb.
pub const LIMB_BYTES: usize = 8;

/// Whether all limbs are zero, i.e. whether the represented integer is zero.
///
/// Every limb is folded into an accumulator with bitwise or, and only the
/// aggregate is turned into a mask, so no branch depends on a limb value.
pub fn limbs_are_zero_constant_time(limbs: &[Limb]) -> (r: LimbMask)
    ensures
        r == LimbMask::True <==> limbs_value(limbs@) == 0,
{
    let n: usize = limbs.len();
    let mut acc: u64 = 0;
    let mut i: usize = 0;
    while i < n
        invariant
            i <= n,
            n == limbs@.len(),
            (acc == 0) <==> (forall|j: int| 0 <= j < i ==> limbs@[j] == 0),
        decreases n - i,
    {
        let li: u64 = limbs[i];
        proof {
            assert((acc | li == 0) <==> (acc == 0 && li == 0)) by (bit_vector);
        }
        acc = acc | li;
        i = i + 1;
    }
    proof {
        lemma_limbs_value_zero_iff(limbs@);
    }
    let nz: u64 = word_nonzero_mask(acc);
    proof {
        assert(!0u64 == 0xffff_ffff_ffff_ffffu64) by (bit_vector);
        assert(!0xffff_ffff_ffff_ffffu64 == 0u64) by (bit_vector);
    }
    mask_from_word(!nz)
}

/// Whether the integer in `a` is strictly below the integer in `b`.
///
/// The walk runs from the most significant limb to the least, keeping an
/// "already decided" mask and folding each limb comparison in with bitwise
/// mask arithmetic only; there is no early exit on a found inequality.
pub fn limbs_less_than_limbs_constant_time(a: &[Limb], b: &[Limb]) -> (r: LimbMask)
    requires
        a@.len() == b@.len(),
    ensures
        r == LimbMask::True <==> limbs_value(a@) < limbs_value(b@),
{
    let n: usize = a.len();
    let mut lt: u64 = WORD_FALSE;
    let mut eq: u64 = WORD_TRUE;
    let mut i: usize = n;
    while i > 0
        invariant
            i <= n,
            n == a@.len(),
            n == b@.len(),
            is_mask_word(lt),
            is_mask_word(eq),
            (eq == WORD_TRUE) <==> (limbs_value(a@.subrange(i as int, n as int)) == limbs_value(
                b@.subrange(i as int, n as int),
            )),
            (lt == WORD_TRUE) <==> (limbs_value(a@.subrange(i as int, n as int)) < limbs_value(
                b@.subrange(i as int, n as int),
            )),
        decreases i,
    {
        i = i - 1;
        let ai: u64 = a[i];
        let bi: u64 = b[i];
        let wlt: u64 = word_lt_mask(ai, bi);
        let weq: u64 = word_eq_mask(ai, bi);
        let lt_new: u64 = lt | (eq & wlt);
        let eq_new: u64 = eq & weq;
        proof {
            let m: u64 = 0xffff_ffff_ffff_ffffu64;
            assert((lt | (eq & wlt) == m <==> (lt == m || (eq == m && wlt == m))) && (lt | (eq
                & wlt) == 0 || lt | (eq & wlt) == m) && (eq & weq == m <==> (eq == m && weq == m))
                && (eq & weq == 0 || eq & weq == m)) by (bit_vector)
                requires
                    m == 0xffff_ffff_ffff_ffffu64,
                    lt == 0 || lt == m,
                    eq == 0 || eq == m,
                    wlt == 0 || wlt == m,
                    weq == 0 || weq == m,
            ;
            lemma_limbs_value_unfold(a@, i as int, n as int);
            lemma_limbs_value_unfold(b@, i as int, n as int);
            lemma2_to64_rest();
            lemma_place_value_cmp(
                pow2(64),
                ai as nat,
                limbs_value(a@.subrange(i + 1, n as int)),
                bi as nat,
                limbs_value(b@.subrange(i + 1, n as int)),
            );
        }
        lt = lt_new;
        eq = eq_new;
    }
    proof {
        assert(a@.subrange(0, n as int) =~= a@);
        assert(b@.subrange(0, n as int) =~= b@);
    }
    mask_from_word(lt)
}

/// Returns the mask with the same number of leading zeros as
/// `most_significant_limb` and every following bit set; all ones when the
/// top bit is already set, and zero for a zero input.
///
/// Not constant-time: the input is the public bound's top limb.
pub fn most_significant_limb_mask_variable_time(most_significant_limb: Limb) -> (r: Limb)
    ensures
        most_significant_limb == 0 ==> r == 0,
        most_significant_limb != 0 ==> r as nat == low_bits_mask(
            (64 - u64_leading_zeros(most_significant_limb)) as nat,
        ),
        most_significant_limb <= r,
{
    proof {
        axiom_u64_leading_zeros(most_significant_limb);
    }
    let bits_to_mask_off: u32 = most_significant_limb.leading_zeros();
    if bits_to_mask_off == 0 {
        proof {
            lemma2_to64_rest();
        }
        0xffff_ffff_ffff_ffff
    } else {
        let shift: u64 = 64 - (bits_to_mask_off as u64);
        proof {
            lemma_u64_pow2_no_overflow(shift as nat);
            lemma_u64_shl_is_mul(1u64, shift);
            if most_significant_limb != 0 {
                lemma_u64_shr_is_div(most_significant_limb, shift);
                assert(most_significant_limb < pow2(shift as nat)) by (nonlinear_arith)
                    requires
                        most_significant_limb as nat / pow2(shift as nat) == 0,
                        pow2(shift as nat) > 0,
                ;
            } else {
                lemma2_to64();
            }
        }
        (1u64 << shift) - 1
    }
}

/// Decodes `bytes` as little-endian limbs into `dest`: limb `i` receives
/// the value of bytes `8*i .. 8*i + 8`.
pub fn limbs_fill_from_le_bytes(dest: &mut Vec<Limb>, bytes: &Vec<u8>)
    requires
        bytes@.len() == old(dest)@.len() * 8,
    ensures
        final(dest)@.len() == old(dest)@.len(),
        forall|k: int|
            0 <= k < final(dest)@.len() ==> final(dest)@[k] as nat == bytes_value(
                bytes@.subrange(8 * k, 8 * k + 8),
            ),
{
    let n: usize = dest.len();
    let nbytes: usize = bytes.len();
    let mut i: usize = 0;
    while i < n
        invariant
            i <= n,
            n == dest@.len(),
            bytes@.len() == n * 8,
            nbytes == n * 8,
            forall|k: int|
                0 <= k < i ==> dest@[k] as nat == bytes_value(bytes@.subrange(8 * k, 8 * k + 8)),
        decreases n - i,
    {
        let mut acc: u64 = 0;
        let mut j: usize = 8;
        while j > 0
            invariant
                j <= 8,
                i < n,
                n == dest@.len(),
                bytes@.len() == n * 8,
                nbytes == n * 8,
                acc as nat == bytes_value(bytes@.subrange(8 * i + j, 8 * i + 8)),
            decreases j,
        {
            j = j - 1;
            proof {
                assert(8 * i + j < 8 * n && 8 * i <= 8 * n) by (nonlinear_arith)
                    requires
                        i < n,
                        j < 8,
                ;
            }
            let b: u8 = bytes[8 * i + j];
            proof {
                let e: nat = (56 - 8 * (j as int)) as nat;
                lemma_bytes_value_unfold(bytes@, 8 * i + j, 8 * i + 8);
                lemma_bytes_value_bound(bytes@.subrange(8 * i + j + 1, 8 * i + 8));
                assert(acc < pow2(e));
                lemma_pow2_adds(e, 8);
                lemma2_to64();
                lemma2_to64_rest();
                if e + 8 < 64 {
                    vstd::arithmetic::power2::lemma_pow2_strictly_increases(e + 8, 64);
                }
                assert(acc * 256 + b < pow2(e) * pow2(8)) by (nonlinear_arith)
                    requires
                        acc < pow2(e),
                        b < 256,
                        pow2(8) == 256,
                ;
            }
            acc = acc * 256 + (b as u64);
        }
        dest.set(i, acc);
        i = i + 1;
    }
}

} // verus!
