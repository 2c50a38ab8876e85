//! The source of the bytes that random instructions draw.

use vstd::prelude::*;

verus! {

/// A byte from the `rand` crate's generator of the calling thread, as
/// `rand::random::<u8>()` hands it out.
///
/// Nothing is claimed of the byte: it may be any of the 256, and two calls
/// need not agree. `rand` seeds the generator from the operating system the
/// first time a thread uses it, and panics if the system gives it no seed.
#[verifier::external_body]
pub(crate) fn random_byte() -> (byte: u8) {
    rand::random::<u8>()
}

} // verus!
