//! A xorshift step, usable for non-cryptographic nonces. A pure function:
//! the same seed always gives the same value.

use vstd::prelude::*;

verus! {

/// One step of the 32-bit xorshift generator: the seed xored with three
/// shifted copies of itself.
pub open spec fn spec_xorshift32(seed: u32) -> u32 {
    let a = seed ^ (seed << 13);
    let b = a ^ (a >> 17);
    b ^ (b << 15)
}

/// One step of the 32-bit xorshift generator.
pub fn xorshift32(seed: u32) -> (r: u32)
    ensures
        r == spec_xorshift32(seed),
{
    let a = seed ^ (seed << 13);
    let b = a ^ (a >> 17);
    b ^ (b << 15)
}

} // verus!
