//! The positive integer interval `[1, max_exclusive)` and rejection
//! sampling of a uniform value from it.

use crate::limb::{
    limbs_are_zero_constant_time, limbs_fill_from_le_bytes, limbs_less_than_limbs_constant_time,
    most_significant_limb_mask_variable_time, Limb,
};
use crate::mask::LimbMask;
use crate::rand_source::{SecureRandom, Unspecified};
use crate::value::{bytes_value, lemma_bytes_value_bound, limbs_value};
use vstd::arithmetic::power2::pow2;
use vstd::pervasive::VecAdditionalExecFns;
use vstd::prelude::*;

verus! {

/// References a positive integer range `[1..max_exclusive)`.
/// `max_exclusive` is assumed to be public, not secret.
pub struct Range<'a> {
    pub max_exclusive: &'a [Limb],
}

impl<'a> Range<'a> {
    /// The bound is normalized and nonzero: at least one limb, and the most
    /// significant limb is not zero.
    pub open spec fn wf(self) -> bool {
        self.max_exclusive@.len() > 0 && self.max_exclusive@[self.max_exclusive@.len() - 1] != 0
    }

    /// Wraps a normalized, nonzero bound.
    pub fn from_max_exclusive(max_exclusive: &[Limb]) -> (r: Range)
        requires
            max_exclusive@.len() > 0,
            max_exclusive@[max_exclusive@.len() - 1] != 0,
        ensures
            r.wf(),
            r.max_exclusive@ == max_exclusive@,
    {
        Range { max_exclusive }
    }

    /// Are these little-endian limbs within the range?
    ///
    /// Checks in constant time: the two comparisons walk every limb and are
    /// combined with a constant-time boolean and; only the final yes/no
    /// answer, which is not treated as secret, becomes a plain boolean.
    pub fn are_limbs_within(&self, limbs: &[Limb]) -> (r: bool)
        requires
            limbs@.len() == self.max_exclusive@.len(),
        ensures
            r <==> (1 <= limbs_value(limbs@) < limbs_value(self.max_exclusive@)),
    {
        let is_zero = limbs_are_zero_constant_time(limbs);
        let is_lt_max = limbs_less_than_limbs_constant_time(limbs, self.max_exclusive);

        is_zero == LimbMask::False && is_lt_max == LimbMask::True
    }

    /// One rejection-sampling attempt on an already drawn byte string:
    /// decodes the bytes as little-endian limbs into `dest`, masks the most
    /// significant limb with `top_mask`, and accepts exactly when the
    /// masked candidate lies in the range. The candidate left in `dest` and
    /// the decision are both functions of the draw alone.
    pub fn accept_candidate(
        &self,
        dest: &mut Vec<Limb>,
        bytes: &Vec<u8>,
        top_mask: Limb,
    ) -> (accepted: bool)
        requires
            self.max_exclusive@.len() > 0,
            old(dest)@.len() == self.max_exclusive@.len(),
            bytes@.len() == old(dest)@.len() * 8,
        ensures
            final(dest)@.len() == old(dest)@.len(),
            forall|k: int|
                0 <= k < final(dest)@.len() - 1 ==> final(dest)@[k] as nat == bytes_value(
                    bytes@.subrange(8 * k, 8 * k + 8),
                ),
            final(dest)@[final(dest)@.len() - 1] as nat == (bytes_value(
                bytes@.subrange(8 * (final(dest)@.len() - 1), 8 * (final(dest)@.len() - 1) + 8),
            ) as u64 & top_mask) as nat,
            accepted <==> (1 <= limbs_value(final(dest)@) < limbs_value(self.max_exclusive@)),
    {
        let n: usize = dest.len();
        limbs_fill_from_le_bytes(dest, bytes);
        let top: Limb = dest[n - 1] & top_mask;
        proof {
            lemma_bytes_value_bound(bytes@.subrange(8 * (n - 1), 8 * (n - 1) + 8));
        }
        dest.set(n - 1, top);
        self.are_limbs_within(dest.as_slice())
    }

    /// Chooses a positive integer within the range and stores it into
    /// `dest`, by rejection sampling with a budget of 100 attempts: each
    /// attempt draws fresh bytes from `rng`, masks the top limb down to the
    /// bound's bit length, and keeps the candidate only if it lies in the
    /// range. A failure of the random source itself aborts the call at
    /// once; an exhausted budget is reported through the same opaque
    /// signal.
    ///
    /// This function is intended to be suitable for generating private
    /// keys.
    pub fn sample_into_limbs<R: SecureRandom>(
        &self,
        dest: &mut Vec<Limb>,
        rng: &R,
    ) -> (result: Result<(), Unspecified>)
        requires
            self.wf(),
            old(dest)@.len() == self.max_exclusive@.len(),
            old(dest)@.len() * 8 <= usize::MAX,
        ensures
            final(dest)@.len() == old(dest)@.len(),
            result is Ok ==> 1 <= limbs_value(final(dest)@) < limbs_value(self.max_exclusive@),
    {
        let n: usize = self.max_exclusive.len();
        let most_significant_limb: Limb = self.max_exclusive[n - 1];
        let most_significant_limb_mask: Limb = most_significant_limb_mask_variable_time(
            most_significant_limb,
        );

        let mut bytes: Vec<u8> = Vec::with_capacity(n * 8);
        let mut t: usize = 0;
        while t < n * 8
            invariant
                t <= n * 8,
                n * 8 <= usize::MAX,
                bytes@.len() == t,
            decreases n * 8 - t,
        {
            bytes.push(0u8);
            t = t + 1;
        }

        let mut attempts: usize = 0;
        while attempts < 100
            invariant
                dest@.len() == n,
                dest@.len() == old(dest)@.len(),
                bytes@.len() == n * 8,
                n == self.max_exclusive@.len(),
                self.wf(),
            decreases 100 - attempts,
        {
            match rng.fill(&mut bytes) {
                Ok(_) => {},
                Err(e) => {
                    return Err(e);
                },
            }
            if self.accept_candidate(dest, &bytes, most_significant_limb_mask) {
                return Ok(());
            }
            attempts = attempts + 1;
        }

        Err(Unspecified)
    }
}

/// Law: the minimal range `[1, 2)` admits exactly one value, so every
/// in-range candidate against the single-limb bound 2 is exactly 1.
pub proof fn lemma_minimal_range_forces_one(bound: Seq<u64>, s: Seq<u64>)
    requires
        bound.len() == 1,
        bound[0] == 2,
        s.len() == 1,
        1 <= limbs_value(s) < limbs_value(bound),
    ensures
        s[0] == 1,
{
    assert(limbs_value(bound.subrange(1, 1)) == 0);
    assert(limbs_value(s.subrange(1, 1)) == 0);
    assert(limbs_value(bound) == bound[0] + limbs_value(bound.subrange(1, 1)) * pow2(64));
    assert(limbs_value(s) == s[0] + limbs_value(s.subrange(1, 1)) * pow2(64));
}

} // verus!
