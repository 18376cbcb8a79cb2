//! The xorshift32 step shared by every noise source of the engine.
use vstd::prelude::*;

verus! {

/// One step of Marsaglia's xorshift32 (shifts 13, 17, 5).
pub open spec fn xorshift32(x: u32) -> u32 {
    let a = x ^ (x << 13u32);
    let b = a ^ (a >> 17u32);
    b ^ (b << 5u32)
}

/// A nonzero state never steps to zero, so a generator seeded away from zero
/// can never lock up.
pub proof fn lemma_xorshift32_nonzero(x: u32)
    requires
        x != 0,
    ensures
        xorshift32(x) != 0,
{
    assert(x != 0 ==> ((x ^ (x << 13u32)) ^ ((x ^ (x << 13u32)) >> 17u32)) ^ (((x ^ (x
        << 13u32)) ^ ((x ^ (x << 13u32)) >> 17u32)) << 5u32) != 0) by (bit_vector);
}

/// Advances a state by one step.
pub fn xorshift32_step(x: u32) -> (r: u32)
    ensures
        r == xorshift32(x),
{
    let a = x ^ (x << 13u32);
    let b = a ^ (a >> 17u32);
    b ^ (b << 5u32)
}

} // verus!
