//! Constant-time multi-precision range membership testing and uniform
//! rejection sampling over a bounded positive integer interval.
//!
//! Integers are represented as fixed-length little-endian vectors of 64-bit
//! limbs. The comparison primitives avoid any control flow that depends on
//! limb values; the sampler draws candidates from an external secure random
//! source and rejects those outside the target interval `[1, max_exclusive)`.

pub mod extensions;
pub mod limb;
pub mod mask;
pub mod rand_source;
pub mod range;
pub mod value;
