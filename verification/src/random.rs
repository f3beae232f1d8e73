//! The random source behind every roll.

use rand::rngs::ThreadRng;
use rand::Rng;
use vstd::prelude::*;

verus! {

/// `rand::rngs::ThreadRng`, the handle to the thread-local generator. Its
/// state is opaque here.
#[verifier::external_type_specification]
#[verifier::external_body]
pub struct ExThreadRng(ThreadRng);

/// `rand::thread_rng` hands out the handle; nothing is claimed about it. rand
/// panics where the system cannot seed the generator.
pub assume_specification[ rand::thread_rng ]() -> (rd: ThreadRng);

/// Draws one integer with `Rng::gen_range(low..=high)`. Trusted: the draw
/// lies in the closed range it was asked for. `gen_range` panics on an empty
/// range, so `low <= high` is required. Two draws from the same range may
/// differ; nothing is claimed about which value comes back.
#[verifier::external_body]
pub(crate) fn draw_inclusive(rd: &mut ThreadRng, low: i32, high: i32) -> (r: i32)
    requires
        low <= high,
    ensures
        low <= r <= high,
{
    rd.gen_range(low..=high)
}

/// Draws one index with `Rng::gen_range(low..high)`. Trusted: the draw lies
/// in the half-open range it was asked for. `gen_range` panics on an empty
/// range, so `low < high` is required.
#[verifier::external_body]
pub(crate) fn draw_below(rd: &mut ThreadRng, low: usize, high: usize) -> (r: usize)
    requires
        low < high,
    ensures
        low <= r < high,
{
    rd.gen_range(low..high)
}

} // verus!
