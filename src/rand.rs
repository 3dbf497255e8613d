//! The legacy linear congruential generator, bit-compatible with `java.util.Random`.

use vstd::prelude::*;

verus! {

/// The multiplier of the generator.
pub const MULTIPLIER: u64 = 0x5DEECE66D;

/// The increment of the generator.
pub const INCREMENT: u64 = 0xB;

/// The modulus of the generator, the state holds 48 bits.
pub const MODULUS: u64 = 0x1_0000_0000_0000;

/// The number of draws that a bounded draw may reject before giving up. The generator
/// has a full period of `2^48`, so a run of rejections never gets this long.
pub const MAX_REJECTIONS: u64 = 0x1_0000_0000_0000;

/// The state after one step of the generator.
pub open spec fn lcg_next(s: u64) -> u64 {
    ((s as int * MULTIPLIER as int + INCREMENT as int) % MODULUS as int) as u64
}

/// The state that a seed gives.
pub open spec fn scramble(seed: i64) -> u64 {
    ((seed as u64) ^ MULTIPLIER) & 0xFFFF_FFFF_FFFF
}

/// The value of `next(bits)` drawn from the state `s`: the top bits of the next state.
pub open spec fn bits_from(s: u64, bits: u32) -> i32 {
    (lcg_next(s) >> ((48 - bits) as u64)) as i32
}

/// Whether the draw `bits` is rejected for a bound that is not a power of two.
pub open spec fn rejects(bits: int, bound: int) -> bool {
    bits - bits % bound + (bound - 1) >= 0x8000_0000
}

/// Whether a positive bound is a power of two, by the test the legacy generator makes.
pub open spec fn is_pow2_bound(bound: i32) -> bool {
    bound & ((-bound) as i32) == bound
}

/// The state and value of a bounded draw from state `s`, with at most `fuel` draws.
#[verifier::opaque]
pub open spec fn bounded_from(s: u64, bound: i32, fuel: nat) -> (u64, i32)
    decreases fuel,
{
    if fuel == 0 {
        (s, 0)
    } else {
        let bits = bits_from(s, 31);
        let val = bits % bound;
        if rejects(bits as int, bound as int) {
            bounded_from(lcg_next(s), bound, (fuel - 1) as nat)
        } else {
            (lcg_next(s), val as i32)
        }
    }
}

/// The state and value of `next_int_bounded(bound)` drawn from state `s`.
#[verifier::opaque]
pub open spec fn int_bounded(s: u64, bound: i32) -> (u64, i32) {
    if is_pow2_bound(bound) {
        (lcg_next(s), ((bound as int * bits_from(s, 31) as int) / 0x8000_0000) as i32)
    } else {
        bounded_from(s, bound, MAX_REJECTIONS as nat)
    }
}

proof fn lemma_bounded_from_range(s: u64, bound: i32, fuel: nat)
    requires
        bound > 0,
    ensures
        0 <= bounded_from(s, bound, fuel).1 < bound,
    decreases fuel,
{
    reveal_with_fuel(bounded_from, 1);
    if fuel > 0 {
        lemma_step_bounds(s);
        lemma_bounded_from_range(lcg_next(s), bound, (fuel - 1) as nat);
    }
}

/// A bounded draw lies in `0..bound`.
pub proof fn lemma_int_bounded_range(s: u64, bound: i32)
    requires
        bound > 0,
    ensures
        0 <= int_bounded(s, bound).1 < bound,
{
    reveal(int_bounded);
    lemma_step_bounds(s);
    if is_pow2_bound(bound) {
        let bits = bits_from(s, 31);
        assert(0 <= (bound as int * bits as int) / 0x8000_0000 < bound) by (nonlinear_arith)
            requires
                0 <= bits < 0x8000_0000,
                bound > 0,
        ;
    } else {
        lemma_bounded_from_range(s, bound, MAX_REJECTIONS as nat);
    }
}

/// The legacy pseudo-random number generator.
#[derive(Clone, Copy, Debug)]
pub struct JavaRandom {
    seed: u64,
}

impl View for JavaRandom {
    type V = u64;

    /// The 48-bit state of the generator.
    closed spec fn view(&self) -> u64 {
        self.seed
    }
}

proof fn lemma_step_bounds(s: u64)
    ensures
        lcg_next(s) < MODULUS,
        bits_from(s, 31) >= 0,
        bits_from(s, 31) < 0x8000_0000,
{
    let n = lcg_next(s);
    assert(n >> 17u64 < 0x8000_0000u64) by (bit_vector)
        requires
            n < 0x1_0000_0000_0000u64,
    ;
}

proof fn lemma_high_bits(s: u64)
    ensures
        0 <= bits_from(s, 26) < 0x400_0000,
        0 <= bits_from(s, 27) < 0x800_0000,
{
    let n = lcg_next(s);
    assert(n >> 22u64 < 0x400_0000u64 && n >> 21u64 < 0x800_0000u64) by (bit_vector)
        requires
            n < 0x1_0000_0000_0000u64,
    ;
}

impl JavaRandom {
    /// A generator seeded the legacy way: the seed is scrambled with the multiplier.
    pub fn new(seed: i64) -> (r: JavaRandom)
        ensures
            r@ == scramble(seed),
    {
        JavaRandom { seed: ((seed as u64) ^ MULTIPLIER) & 0xFFFF_FFFF_FFFF }
    }

    /// A generator whose state is the given 48 bits, unscrambled.
    pub fn from_state(state: u64) -> (r: JavaRandom)
        ensures
            r@ == state,
    {
        JavaRandom { seed: state }
    }

    /// The current 48-bit state.
    pub fn state(&self) -> (r: u64)
        ensures
            r == self@,
    {
        self.seed
    }

    /// Reseed the generator the legacy way.
    pub fn set_seed(&mut self, seed: i64)
        ensures
            final(self)@ == scramble(seed),
    {
        self.seed = ((seed as u64) ^ MULTIPLIER) & 0xFFFF_FFFF_FFFF;
    }

    fn step(&mut self)
        ensures
            final(self)@ == lcg_next(old(self)@),
    {
        let seed = self.seed;
        assert(seed as int * MULTIPLIER as int <= 0xFFFF_FFFF_FFFF_FFFF * 0x5DEECE66D) by (nonlinear_arith)
            requires
                seed <= 0xFFFF_FFFF_FFFF_FFFFu64,
        ;
        let n = (seed as u128 * MULTIPLIER as u128 + INCREMENT as u128) % (MODULUS as u128);
        self.seed = n as u64;
    }

    /// Draw `bits` random bits, the top bits of the next state.
    pub fn next_bits(&mut self, bits: u32) -> (r: i32)
        requires
            1 <= bits <= 32,
        ensures
            final(self)@ == lcg_next(old(self)@),
            r == bits_from(old(self)@, bits),
    {
        self.step();
        (self.seed >> ((48 - bits) as u64)) as i32
    }

    /// Draw a uniformly distributed 32-bit integer.
    pub fn next_int(&mut self) -> (r: i32)
        ensures
            final(self)@ == lcg_next(old(self)@),
            r == bits_from(old(self)@, 32),
    {
        self.next_bits(32)
    }

    /// Draw an integer in `0..bound`, by the legacy algorithm: a scaled draw for a
    /// power of two, else rejection of the draws that would bias the remainder.
    pub fn next_int_bounded(&mut self, bound: i32) -> (r: i32)
        requires
            bound > 0,
        ensures
            (final(self)@, r) == int_bounded(old(self)@, bound),
            0 <= r < bound,
    {
        let start = Ghost(self@);
        let neg = -bound;
        if bound & neg == bound {
            let r = self.next_scaled(bound);
            assert((self@, r) == int_bounded(start@, bound)) by {
                reveal(int_bounded);
            }
            return r;
        }
        assert(int_bounded(start@, bound) == bounded_from(start@, bound, MAX_REJECTIONS as nat)) by {
            reveal(int_bounded);
        }
        let mut fuel: u64 = MAX_REJECTIONS;
        while fuel > 0
            invariant
                fuel <= MAX_REJECTIONS,
                bound > 0,
                start@ == old(self)@,
                int_bounded(start@, bound) == bounded_from(start@, bound, MAX_REJECTIONS as nat),
                bounded_from(start@, bound, MAX_REJECTIONS as nat) == bounded_from(self@, bound, fuel as nat),
            decreases fuel,
        {
            let before = Ghost(self@);
            let drawn = self.draw_remainder(bound);
            assert(bounded_from(before@, bound, fuel as nat) == (match drawn {
                Some(v) => (self@, v),
                None => bounded_from(self@, bound, (fuel - 1) as nat),
            })) by {
                reveal_with_fuel(bounded_from, 1);
            }
            if let Some(v) = drawn {
                return v;
            }
            fuel = fuel - 1;
        }
        assert(bounded_from(self@, bound, 0) == (self@, 0i32)) by {
            reveal_with_fuel(bounded_from, 1);
        }
        0
    }

    /// One draw of the rejection method: the remainder, or `None` where it is rejected.
    fn draw_remainder(&mut self, bound: i32) -> (r: Option<i32>)
        requires
            bound > 0,
        ensures
            final(self)@ == lcg_next(old(self)@),
            ({
                let bits = bits_from(old(self)@, 31);
                match r {
                    Some(v) => !rejects(bits as int, bound as int) && v == bits % bound,
                    None => rejects(bits as int, bound as int),
                }
            }),
    {
        proof {
            lemma_step_bounds(self@);
        }
        let bits = self.next_bits(31);
        let val = (bits as u32 % bound as u32) as i32;
        let span = bits as i64 - val as i64 + (bound as i64 - 1);
        if span < 0x8000_0000i64 {
            Some(val)
        } else {
            None
        }
    }

    /// Draw the 53 bits of a legacy `nextDouble`: the double is this value over `2^53`.
    pub fn next_double_bits(&mut self) -> (r: u64)
        ensures
            final(self)@ == lcg_next(lcg_next(old(self)@)),
            r == bits_from(old(self)@, 26) as int * 0x800_0000 + bits_from(lcg_next(old(self)@), 27) as int,
    {
        proof {
            lemma_high_bits(self@);
            lemma_high_bits(lcg_next(self@));
        }
        let high = self.next_bits(26);
        let low = self.next_bits(27);
        high as u64 * 0x800_0000u64 + low as u64
    }

    fn next_scaled(&mut self, bound: i32) -> (r: i32)
        requires
            bound > 0,
        ensures
            final(self)@ == lcg_next(old(self)@),
            r == ((bound as int * bits_from(old(self)@, 31) as int) / 0x8000_0000) as i32,
            0 <= r < bound,
    {
        proof {
            lemma_step_bounds(self@);
        }
        let bits = self.next_bits(31);
        assert(bound as int * bits as int <= 0x7FFF_FFFF * 0x7FFF_FFFF) by (nonlinear_arith)
            requires
                0 <= bits < 0x8000_0000,
                0 < bound < 0x8000_0000,
        ;
        let scaled = (bound as u64 * bits as u64) / 0x8000_0000u64;
        assert(scaled < bound) by (nonlinear_arith)
            requires
                scaled == (bound as int * bits as int) / 0x8000_0000,
                0 <= bits < 0x8000_0000,
                bound > 0,
        ;
        scaled as i32
    }
}

} // verus!
