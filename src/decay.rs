//! The random decay draw that drives each propagation step.
use vstd::prelude::*;

verus! {

/// Exclusive upper bound of a decay draw: draws are 0, 1 or 2.
pub const DECAY_BOUND: u8 = 3;

/// Relies on rand's `thread_rng` and `Rng::gen_range` over `0..3`, which
/// returns a value inside the (non-empty) range.
#[verifier::external_body]
pub(crate) fn random_decay() -> (d: u8)
    ensures
        d < DECAY_BOUND,
{
    rand::Rng::gen_range(&mut rand::thread_rng(), 0..3u8)
}

} // verus!
