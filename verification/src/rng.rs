use vstd::prelude::*;

verus! {

use crate::primitive::NetworkPrimitive;

/// The engine's one source of non-determinism, injected by the caller. A
/// deterministic implementation makes every random operation replayable.
pub trait RandomRangeGenerator<T: NetworkPrimitive> {
    /// Draws a value from `[low, high)`. The range must not be empty.
    fn random_range(&mut self, low: T, high: T) -> (r: T)
        requires
            low.value() < high.value(),
        ensures
            low.value() <= r.value() < high.value(),
    ;
}

/// A generator backed by the process-wide entropy source.
pub struct DefaultRng;

/// Relies on rand::random_range: it returns a value sampled uniformly
/// from the given half-open range and panics only when the range is
/// empty, which the contract rules out.
#[verifier::external_body]
fn entropy_range_u32(low: u32, high: u32) -> (r: u32)
    requires
        low < high,
    ensures
        low <= r < high,
{
    rand::random_range(low..high)
}

/// Relies on rand::random_range: it returns a value sampled uniformly
/// from the given half-open range and panics only when the range is
/// empty, which the contract rules out.
#[verifier::external_body]
fn entropy_range_u128(low: u128, high: u128) -> (r: u128)
    requires
        low < high,
    ensures
        low <= r < high,
{
    rand::random_range(low..high)
}

impl RandomRangeGenerator<u32> for DefaultRng {
    fn random_range(&mut self, low: u32, high: u32) -> u32 {
        entropy_range_u32(low, high)
    }
}

impl RandomRangeGenerator<u128> for DefaultRng {
    fn random_range(&mut self, low: u128, high: u128) -> u128 {
        entropy_range_u128(low, high)
    }
}

} // verus!
