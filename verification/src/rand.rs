//! Deterministic pseudo-randomness for the lockstep simulation.
//!
//! A linear congruential generator: the state transition is
//! `x' = (a * x + c) mod m`. The generator is itself part of the
//! rollback-tracked state, so it is a plain value type: identical seed and
//! identical call sequence give bit-identical outputs on every peer, and no
//! external entropy ever enters it.

use vstd::prelude::*;

verus! {

/// The modulus of the generator: the Mersenne prime 2^31 - 1.
pub const RNG_MODULUS: u64 = 2_147_483_647;

/// The multiplier of the generator.
pub const RNG_MULTIPLIER: u64 = 48_271;

/// Seeds at or above this bound are rejected: they could overflow the
/// 64-bit product `a * x` on the first transition.
pub const RNG_MAX_SEED: u64 = 0x1_0000_0000_0000;

/// Linear congruential generator over the full 64-bit state word.
#[derive(Clone, Copy, Debug, PartialEq, Eq, Structural)]
pub struct Rng {
    x: u64,
    m: u64,
    a: u64,
    c: u64,
}

/// The generator's transition function on its state numerator.
pub open spec fn lcg(x: u64) -> u64 {
    ((RNG_MULTIPLIER * x) % (RNG_MODULUS as int)) as u64
}

/// The integer scaling of a state numerator `x` (a fraction `x / m` of the
/// unit interval) into `[0, span)`.
pub open spec fn lcg_scaled(x: u64, span: u64) -> u64 {
    ((x * span) / (RNG_MODULUS as int)) as u64
}

impl Rng {
    /// The generator's parameters never change and its state stays small
    /// enough that a transition cannot overflow.
    pub closed spec fn inv(&self) -> bool {
        &&& self.m == RNG_MODULUS
        &&& self.a == RNG_MULTIPLIER
        &&& self.c == 0
        &&& self.x < RNG_MAX_SEED
    }

    /// The current state numerator; the generator's last output was
    /// `state() / RNG_MODULUS` of the unit interval.
    pub closed spec fn state(&self) -> u64 {
        self.x
    }

    /// The generator after exactly one transition.
    pub closed spec fn spec_advanced(self) -> Rng {
        Rng { x: lcg(self.x), m: self.m, a: self.a, c: self.c }
    }

    /// One transition takes the state to `lcg` of it and preserves the
    /// invariant.
    pub proof fn lemma_advanced(self)
        ensures
            self.spec_advanced().state() == lcg(self.state()),
            self.inv() ==> self.spec_advanced().inv(),
    {
    }

    /// The state numerator as a plain word, for checksumming.
    pub fn state_word(&self) -> (r: u64)
        ensures
            r == self.state(),
    {
        self.x
    }

    /// Reseed for a new match or round: same seed, same stream.
    pub fn new(seed: u64) -> (rng: Rng)
        requires
            seed < RNG_MAX_SEED,
        ensures
            rng.inv(),
            rng.state() == seed,
    {
        Rng { x: seed, m: RNG_MODULUS, a: RNG_MULTIPLIER, c: 0 }
    }

    /// Advance the state once and return the new numerator: the fresh draw
    /// is the fraction `numerator / RNG_MODULUS` of the unit interval.
    pub fn next_numerator(&mut self) -> (numerator: u64)
        requires
            old(self).inv(),
        ensures
            final(self).inv(),
            *final(self) == old(self).spec_advanced(),
            final(self).state() == lcg(old(self).state()),
            numerator == final(self).state(),
            numerator < RNG_MODULUS,
    {
        self.x = (self.a * self.x + self.c) % self.m;
        self.x
    }

    /// A draw scaled into `[min, max)`, or `min` when the range is empty.
    /// The state advances exactly once either way.
    pub fn next_i32(&mut self, min: i32, max: i32) -> (r: i32)
        requires
            old(self).inv(),
            min <= max,
        ensures
            final(self).inv(),
            *final(self) == old(self).spec_advanced(),
            final(self).state() == lcg(old(self).state()),
            r == min + lcg_scaled(final(self).state(), (max - min) as u64),
            min < max ==> min <= r < max,
            min == max ==> r == min,
    {
        let numerator = self.next_numerator();
        let span: u64 = (max as i64 - min as i64) as u64;
        proof {
            assert(numerator * span <= u64::MAX) by (nonlinear_arith)
                requires
                    numerator < RNG_MODULUS,
                    span <= u32::MAX,
            ;
        }
        let t: u64 = (numerator * span) / RNG_MODULUS;
        proof {
            if span > 0 {
                lemma_scale_in_span(numerator, span);
            } else {
                assert(numerator * span == 0) by (nonlinear_arith)
                    requires
                        span == 0,
                ;
            }
        }
        (min as i64 + t as i64) as i32
    }

    /// A draw scaled into `[min, max)`, or `min` when the range is empty.
    /// The state advances exactly once either way.
    pub fn next_usize(&mut self, min: usize, max: usize) -> (r: usize)
        requires
            old(self).inv(),
            min <= max,
            max - min <= u32::MAX,
        ensures
            final(self).inv(),
            *final(self) == old(self).spec_advanced(),
            final(self).state() == lcg(old(self).state()),
            r == min + lcg_scaled(final(self).state(), (max - min) as u64),
            min < max ==> min <= r < max,
            min == max ==> r == min,
    {
        let numerator = self.next_numerator();
        let span: u64 = (max - min) as u64;
        proof {
            assert(numerator * span <= u64::MAX) by (nonlinear_arith)
                requires
                    numerator < RNG_MODULUS,
                    span <= u32::MAX,
            ;
        }
        let t: u64 = (numerator * span) / RNG_MODULUS;
        proof {
            if span > 0 {
                lemma_scale_in_span(numerator, span);
            } else {
                assert(numerator * span == 0) by (nonlinear_arith)
                    requires
                        span == 0,
                ;
            }
        }
        min + t as usize
    }

    /// Remove a uniformly chosen element from the vector and return it.
    /// The hole is filled by the last element, so the order of the
    /// remaining elements is not preserved.
    pub fn extract_random<T>(&mut self, c: &mut Vec<T>) -> (r: T)
        requires
            old(self).inv(),
            old(c).len() > 0,
            old(c).len() <= u32::MAX,
        ensures
            final(self).inv(),
            *final(self) == old(self).spec_advanced(),
            final(self).state() == lcg(old(self).state()),
            ({
                let i = lcg_scaled(final(self).state(), old(c).len() as u64) as int;
                &&& 0 <= i < old(c).len()
                &&& r == old(c)@[i]
                &&& final(c)@ == old(c)@.update(i, old(c)@.last()).drop_last()
            }),
    {
        let n = self.next_usize(0, c.len());
        c.swap_remove(n)
    }
}

impl Default for Rng {
    /// The generator as the game first constructs it.
    fn default() -> (rng: Rng)
        ensures
            rng.inv(),
            rng.state() == 1024,
    {
        Rng { x: 1024, m: RNG_MODULUS, a: RNG_MULTIPLIER, c: 0 }
    }
}

/// Scaling a numerator below the modulus into a non-empty span stays
/// strictly inside the span.
proof fn lemma_scale_in_span(x: u64, span: u64)
    requires
        x < RNG_MODULUS,
        0 < span,
    ensures
        (x * span) / (RNG_MODULUS as int) < span,
{
    assert(x * span <= (RNG_MODULUS - 1) * span) by (nonlinear_arith)
        requires
            x < RNG_MODULUS,
            0 < span,
    ;
    assert(((RNG_MODULUS - 1) * span) / (RNG_MODULUS as int) < span) by (nonlinear_arith)
        requires
            0 < span,
    ;
    assert((x * span) / (RNG_MODULUS as int) <= ((RNG_MODULUS - 1) * span) / (RNG_MODULUS as int))
        by {
        vstd::arithmetic::div_mod::lemma_div_is_ordered(
            (x * span) as int,
            ((RNG_MODULUS - 1) * span) as int,
            RNG_MODULUS as int,
        );
    }
}

} // verus!
