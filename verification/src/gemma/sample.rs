//! The random numbers behind sampling.

use vstd::prelude::*;

verus! {

/// The step between two states of the generator.
pub const GOLDEN: u32 = 0x9E3779B9;

/// The number that a state stands for.
pub open spec fn mixed(state: u32) -> u32 {
    let a = (state ^ (state >> 16u32)).wrapping_mul(0x7feb352d);
    let b = (a ^ (a >> 15u32)).wrapping_mul(0x846ca68b);
    b ^ (b >> 16u32)
}

/// Moves the generator on and returns its next number.
pub fn splitmix32(state: &mut u32) -> (r: u32)
    ensures
        *final(state) == old(state).wrapping_add(GOLDEN),
        r == mixed(*final(state)),
{
    *state = state.wrapping_add(GOLDEN);
    let s: u32 = *state;
    let a: u32 = (s ^ (s >> 16u32)).wrapping_mul(0x7feb352d);
    let b: u32 = (a ^ (a >> 15u32)).wrapping_mul(0x846ca68b);
    b ^ (b >> 16u32)
}

} // verus!
