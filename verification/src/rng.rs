//! The pseudo-random stream that decides where things spawn.

use vstd::prelude::*;

verus! {

/// One step of the 64-bit xorshift generator with shifts 13, 7 and 17:
/// the state that follows `a`, which is also the number drawn.
pub open spec fn xorshift(a: u64) -> u64 {
    let x1 = a ^ (a << 13);
    let x2 = x1 ^ (x1 >> 7);
    x2 ^ (x2 << 17)
}

/// A reproducible stream of 64-bit numbers. It is not secret: whoever knows
/// the state knows every number that follows.
#[derive(Clone, Copy, Debug, PartialEq, Eq)]
pub struct XorShift64 {
    pub a: u64,
}

impl XorShift64 {
    /// A stream that starts from `seed`.
    pub fn new(seed: u64) -> (r: XorShift64)
        ensures
            r.a == seed,
    {
        XorShift64 { a: seed }
    }

    /// Draws the next number, which becomes the new state.
    pub fn next(&mut self) -> (r: u64)
        ensures
            r == xorshift(old(self).a),
            final(self).a == r,
    {
        let mut x: u64 = self.a;
        x ^= x << 13;
        x ^= x >> 7;
        x ^= x << 17;
        self.a = x;
        x
    }
}

/// The first number drawn from state 1.
pub proof fn lemma_xorshift_of_one()
    ensures
        xorshift(1) == 1082269761u64,
{
    assert(xorshift(1) == 1082269761u64) by (bit_vector);
}

/// A stream in state 0 stays there, and no other state ever leads to 0.
pub proof fn lemma_xorshift_zero(a: u64)
    ensures
        xorshift(a) == 0 <==> a == 0,
{
    assert(xorshift(a) == 0 <==> a == 0) by (bit_vector);
}

} // verus!
