//! The external secure random capability, and the single opaque failure
//! signal of the library.
//!
//! Random-source failure and retry-budget exhaustion are deliberately
//! reported through the same featureless marker, so an observer cannot
//! distinguish an entropy outage from an improbable rejection streak.

use vstd::prelude::*;

verus! {

/// The opaque failure signal: it carries no information about what failed.
#[derive(Clone, Copy, Debug, PartialEq, Eq, Structural)]
pub struct Unspecified;

/// A source of cryptographically secure random bytes.
///
/// Nothing can be promised about the bytes themselves; an implementation
/// only guarantees that a successful fill leaves the buffer length
/// unchanged. Filling may fail, for example when entropy is unavailable.
pub trait SecureRandom {
    /// Fills `dest` with fresh random bytes, or fails.
    fn fill(&self, dest: &mut Vec<u8>) -> (result: Result<(), Unspecified>)
        ensures
            final(dest)@.len() == old(dest)@.len(),
    ;
}

/// The operating system's secure random source.
pub struct SystemRandom {}

impl SystemRandom {
    /// A fresh handle; the source itself is global and stateless here.
    pub fn new() -> (r: SystemRandom) {
        SystemRandom {  }
    }
}

/// Relies on `getrandom::fill`: fills the whole slice with random bytes
/// from the system's preferred source, or reports an error; the slice
/// itself (and so its length) is unchanged in either case.
#[verifier::external_body]
fn os_fill(dest: &mut Vec<u8>) -> (result: Result<(), Unspecified>)
    ensures
        final(dest)@.len() == old(dest)@.len(),
{
    match getrandom::fill(dest.as_mut_slice()) {
        Ok(()) => Ok(()),
        Err(_) => Err(Unspecified),
    }
}

impl SecureRandom for SystemRandom {
    fn fill(&self, dest: &mut Vec<u8>) -> (result: Result<(), Unspecified>) {
        os_fill(dest)
    }
}

} // verus!
