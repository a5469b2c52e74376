use vstd::prelude::*;

verus! {

/// A fair coin from the thread-local generator: `rand::random::<bool>()`,
/// which takes the sign bit of a fresh `u32` from `rand::thread_rng()`.
/// Nothing is promised of the result: it is chance.
#[verifier::external_body]
pub(crate) fn coin_flip() -> bool {
    rand::random::<bool>()
}

} // verus!
