//! The one random source the simulation draws from: uniform integers below a
//! bound, used by the spawner for its probability gate and its lane and
//! variant choices, and by the motion updater for the exit-target choice.

use vstd::prelude::*;
use rand::Rng;

verus! {

/// Relies on rand::Rng::gen_range on the range `0..n`: a uniform draw in
/// `[0, n)` from the thread-local generator. The call panics on an empty
/// range, so the bound must be positive. Nothing more is promised of the
/// result: it is random.
#[verifier::external_body]
pub(crate) fn draw_below(n: u32) -> (r: u32)
    requires
        n > 0,
    ensures
        r < n,
{
    rand::thread_rng().gen_range(0..n)
}

} // verus!
