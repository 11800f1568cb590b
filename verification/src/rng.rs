//! The single point where the interpreter touches the host's randomness.

use vstd::prelude::*;

verus! {

/// Relies on `rand::random`: draws one byte from the process-wide
/// generator, seeded once at process start.  Nothing can be promised of the
/// value, so the callers are verified for every byte this may return.
#[verifier::external_body]
pub(crate) fn random_byte() -> u8 {
    rand::random::<u8>()
}

} // verus!
