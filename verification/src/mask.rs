//! The boolean mask type used by the constant-time primitives, and the
//! branchless word-level operations that produce such masks.
//!
//! A mask word is either all ones (true) or all zeros (false), so results of
//! secret-dependent comparisons can be combined with bitwise `&`, `|` and `!`
//! instead of data-dependent branches.

use vstd::prelude::*;

verus! {

/// A boolean carried as a machine-word sentinel: all one bits for true,
/// all zero bits for false.
#[derive(Debug, PartialEq, Eq, Structural)]
pub enum LimbMask {
    True,
    False,
}

/// The all-ones mask word.
pub const WORD_TRUE: u64 = 0xffff_ffff_ffff_ffff;

/// The all-zeros mask word.
pub const WORD_FALSE: u64 = 0;

/// A word is a well-formed mask when it is all ones or all zeros.
pub open spec fn is_mask_word(w: u64) -> bool {
    w == WORD_TRUE || w == WORD_FALSE
}

/// Returns all ones iff `x` is nonzero, using only bitwise smearing:
/// first every set bit is propagated down to bit 0, then bit 0 is
/// propagated back up through the whole word.
pub fn word_nonzero_mask(x: u64) -> (r: u64)
    ensures
        r == (if x == 0 { WORD_FALSE } else { WORD_TRUE }),
{
    let a: u64 = x | (x >> 1);
    let b: u64 = a | (a >> 2);
    let c: u64 = b | (b >> 4);
    let d: u64 = c | (c >> 8);
    let e: u64 = d | (d >> 16);
    let f: u64 = e | (e >> 32);
    let g: u64 = f | (f << 1);
    let h: u64 = g | (g << 2);
    let k: u64 = h | (h << 4);
    let l: u64 = k | (k << 8);
    let m: u64 = l | (l << 16);
    let n: u64 = m | (m << 32);
    proof {
        assert(n == (if x == 0 { 0u64 } else { 0xffff_ffff_ffff_ffffu64 })) by (bit_vector)
            requires
                a == x | (x >> 1),
                b == a | (a >> 2),
                c == b | (b >> 4),
                d == c | (c >> 8),
                e == d | (d >> 16),
                f == e | (e >> 32),
                g == f | (f << 1),
                h == g | (g << 2),
                k == h | (h << 4),
                l == k | (k << 8),
                m == l | (l << 16),
                n == m | (m << 32),
        ;
    }
    n
}

/// Returns all ones iff `x == y`.
pub fn word_eq_mask(x: u64, y: u64) -> (r: u64)
    ensures
        r == (if x == y { WORD_TRUE } else { WORD_FALSE }),
{
    let nz: u64 = word_nonzero_mask(x ^ y);
    proof {
        assert((x ^ y) == 0 <==> x == y) by (bit_vector);
        assert(!0u64 == 0xffff_ffff_ffff_ffffu64) by (bit_vector);
        assert(!0xffff_ffff_ffff_ffffu64 == 0u64) by (bit_vector);
    }
    !nz
}

/// Returns all ones iff `x < y` as unsigned words. The most significant
/// differing bit is isolated by smearing `x ^ y` downward; `x < y` exactly
/// when `y` holds that bit.
pub fn word_lt_mask(x: u64, y: u64) -> (r: u64)
    ensures
        r == (if x < y { WORD_TRUE } else { WORD_FALSE }),
{
    let z: u64 = x ^ y;
    let a: u64 = z | (z >> 1);
    let b: u64 = a | (a >> 2);
    let c: u64 = b | (b >> 4);
    let d: u64 = c | (c >> 8);
    let e: u64 = d | (d >> 16);
    let f: u64 = e | (e >> 32);
    let top: u64 = f & !(f >> 1);
    let w: u64 = y & top;
    proof {
        assert(w != 0 <==> x < y) by (bit_vector)
            requires
                z == x ^ y,
                a == z | (z >> 1),
                b == a | (a >> 2),
                c == b | (b >> 4),
                d == c | (c >> 8),
                e == d | (d >> 16),
                f == e | (e >> 32),
                top == f & !(f >> 1),
                w == y & top,
        ;
    }
    word_nonzero_mask(w)
}

/// Converts a well-formed mask word into the sentinel type.
pub fn mask_from_word(w: u64) -> (r: LimbMask)
    requires
        is_mask_word(w),
    ensures
        r == (if w == WORD_TRUE { LimbMask::True } else { LimbMask::False }),
{
    if w == WORD_TRUE {
        LimbMask::True
    } else {
        LimbMask::False
    }
}

} // verus!
