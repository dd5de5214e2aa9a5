//! A fast pseudo-random number generator.
use vstd::prelude::*;

verus! {

/// One xorshift step of the state.
pub open spec fn xorshift_step(s: u64) -> u64 {
    let a = s ^ (s >> 12u64);
    let b = a ^ ((a << 25u64) as u64);
    b ^ (b >> 27u64)
}

/// The number drawn from a state (after its step): the state times a fixed odd constant, modulo 2^64.
pub open spec fn draw_of(s: u64) -> u64 {
    ((s as u128 * 2685821657736338717u128) as u128) as u64
}

/// A xorshift* generator.
pub struct Prng {
    s: u64,
}

impl Prng {
    /// The state.
    pub closed spec fn state(&self) -> u64 {
        self.s
    }

    /// A generator whose state is `seed`.
    pub fn new(seed: u64) -> (r: Prng)
        ensures
            r.state() == seed,
    {
        Prng { s: seed }
    }

    /// Steps the state and returns the number drawn from it.
    pub fn rnd64(&mut self) -> (r: u64)
        ensures
            final(self).state() == xorshift_step(old(self).state()),
            r == draw_of(xorshift_step(old(self).state())),
        no_unwind
    {
        self.s = self.s ^ (self.s >> 12u64);
        self.s = self.s ^ (self.s << 25u64);
        self.s = self.s ^ (self.s >> 27u64);
        assert((self.s as u128) * 2685821657736338717u128 <= u128::MAX) by (nonlinear_arith)
            requires
                self.s <= u64::MAX,
        ;
        ((self.s as u128) * 2685821657736338717u128) as u64
    }

    /// Steps the state and returns the number drawn, reduced below `n`.
    pub fn rnd(&mut self, n: u64) -> (r: u64)
        requires
            n > 0,
        ensures
            final(self).state() == xorshift_step(old(self).state()),
            r == draw_of(xorshift_step(old(self).state())) % n,
            r < n,
        no_unwind
    {
        self.rnd64() % n
    }
}

} // verus!
