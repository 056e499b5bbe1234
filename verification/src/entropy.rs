//! The source of the random byte that the `Random` instruction draws.

use rand::Rng;
use vstd::prelude::*;

verus! {

/// Draws one byte from `rand::thread_rng()` with `Rng::gen`.
///
/// The byte depends on chance, so nothing is claimed of it beyond its type:
/// callers are verified for every value it may take.
///
/// The call can panic, on grounds that no argument decides. The generator
/// is seeded from the operating system on its first use in a thread and
/// reseeded from it after every 64 KiB drawn and after a fork; `rand`
/// panics where seeding or a reseed fails. On Unix it also registers a
/// fork handler on first use and panics where the system refuses that.
#[verifier::external_body]
pub(crate) fn random_byte() -> (byte: u8) {
    let mut rng = rand::thread_rng();
    rng.gen()
}

} // verus!
