//! Tiny deterministic pseudo-random source used by the turbulence modulator.

use vstd::prelude::*;

verus! {

/// One step of the 32-bit xorshift generator with shifts (13, 17, 5).
pub open spec fn xorshift_step(x: u32) -> u32 {
    let a = x ^ (x << 13u32);
    let b = a ^ (a >> 17u32);
    b ^ (b << 5u32)
}

/// The state a generator starts from for a given seed: a zero seed (the one
/// fixed point of the step) is replaced by one.
pub open spec fn seed_state(seed: u32) -> u32 {
    if seed == 0 {
        1
    } else {
        seed
    }
}

/// The state after `n` steps from `x`.
pub open spec fn xorshift_iterate(x: u32, n: nat) -> u32
    decreases n,
{
    if n == 0 {
        x
    } else {
        xorshift_step(xorshift_iterate(x, (n - 1) as nat))
    }
}

/// A step of the generator maps a non-zero state to a non-zero state.
pub proof fn lemma_step_nonzero(x: u32)
    requires
        x != 0,
    ensures
        xorshift_step(x) != 0,
{
    assert(x != 0 ==> (x ^ (x << 13u32)) != 0) by (bit_vector);
    let a = x ^ (x << 13u32);
    assert(a != 0 ==> (a ^ (a >> 17u32)) != 0) by (bit_vector);
    let b = a ^ (a >> 17u32);
    assert(b != 0 ==> (b ^ (b << 5u32)) != 0) by (bit_vector);
}

/// A seed is kept as the starting state unless it is zero, which becomes one.
pub proof fn lemma_seed_state(seed: u32)
    ensures
        seed != 0 ==> seed_state(seed) == seed,
        seed == 0 ==> seed_state(seed) == 1,
        seed_state(seed) != 0,
{
}

/// The step is linear over bit vectors: stepping the exclusive or of two
/// states gives the exclusive or of their steps (the generator is a linear
/// shift register), and the zero state is its fixed point.
pub proof fn lemma_step_linear(x: u32, y: u32)
    ensures
        xorshift_step(x ^ y) == xorshift_step(x) ^ xorshift_step(y),
        xorshift_step(0) == 0,
{
    assert(((x ^ y) ^ ((x ^ y) << 13u32)) == (x ^ (x << 13u32)) ^ (y ^ (y << 13u32)))
        by (bit_vector);
    let a = x ^ (x << 13u32);
    let b = y ^ (y << 13u32);
    assert(((a ^ b) ^ ((a ^ b) >> 17u32)) == (a ^ (a >> 17u32)) ^ (b ^ (b >> 17u32)))
        by (bit_vector);
    let c = a ^ (a >> 17u32);
    let d = b ^ (b >> 17u32);
    assert(((c ^ d) ^ ((c ^ d) << 5u32)) == (c ^ (c << 5u32)) ^ (d ^ (d << 5u32)))
        by (bit_vector);
    assert((0u32 ^ (0u32 << 13u32)) == 0u32) by (bit_vector);
    assert((0u32 ^ (0u32 >> 17u32)) == 0u32) by (bit_vector);
    assert((0u32 ^ (0u32 << 5u32)) == 0u32) by (bit_vector);
}

/// Every state reached from a seeded generator is non-zero, so the stream
/// never collapses onto the all-zero fixed point.
pub proof fn lemma_iterate_nonzero(seed: u32, n: nat)
    ensures
        xorshift_iterate(seed_state(seed), n) != 0,
    decreases n,
{
    if n > 0 {
        lemma_iterate_nonzero(seed, (n - 1) as nat);
        lemma_step_nonzero(xorshift_iterate(seed_state(seed), (n - 1) as nat));
    }
}

/// Seeds zero and one start the same stream.
pub proof fn lemma_zero_seed_is_seed_one(n: nat)
    ensures
        xorshift_iterate(seed_state(0), n) == xorshift_iterate(seed_state(1), n),
{
}

/// Xorshift32 pseudo-random generator.
#[derive(Debug)]
pub struct XorShift32 {
    state: u32,
}

impl View for XorShift32 {
    type V = u32;

    closed spec fn view(&self) -> u32 {
        self.state
    }
}

impl Clone for XorShift32 {
    /// A copy continues the same stream independently.
    fn clone(&self) -> (r: Self)
        ensures
            r@ == self@,
    {
        proof {
            use_type_invariant(self);
        }
        Self { state: self.state }
    }
}

impl XorShift32 {
    #[verifier::type_invariant]
    spec fn state_nonzero(self) -> bool {
        self.state != 0
    }

    /// Creates a generator; a zero seed is treated as one.
    pub fn new(seed: u32) -> (r: Self)
        ensures
            r@ == seed_state(seed),
            seed != 0 ==> r@ == seed,
            seed == 0 ==> r@ == 1,
            r@ != 0,
    {
        let state = if seed == 0 {
            1
        } else {
            seed
        };
        Self { state }
    }

    /// Advances the generator one step and returns the new state.
    pub fn next_u32(&mut self) -> (r: u32)
        ensures
            r == xorshift_step(old(self)@),
            final(self)@ == r,
            r != 0,
    {
        proof {
            use_type_invariant(&*self);
            lemma_step_nonzero(self.state);
        }
        let mut x = self.state;
        x ^= x << 13u32;
        x ^= x >> 17u32;
        x ^= x << 5u32;
        self.state = x;
        x
    }
}

} // verus!
