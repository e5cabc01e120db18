//! The number generator behind generated levels: a linear congruential one, so
//! that a seed always gives the same level.

use vstd::prelude::*;

verus! {

/// The seed of a game that names none.
pub const DEFAULT_SEED: u64 = 7;

/// What each state is multiplied by.
pub const MULTIPLIER: u64 = 6364136223846793005;

/// What is then added.
pub const INCREMENT: u64 = 1442695040888963407;

/// The state that follows `state`, modulo two to the 64.
pub open spec fn next_state(state: u64) -> u64 {
    ((state * MULTIPLIER + INCREMENT) % 0x1_0000_0000_0000_0000) as u64
}

/// The state that a seed starts from.
pub open spec fn first_state(seed: u64) -> u64 {
    if seed == 0 {
        1
    } else {
        seed
    }
}

/// The state after a draw below `upper`: drawing from nothing draws no number.
pub open spec fn state_after_range(state: u64, upper: nat) -> u64 {
    if upper == 0 {
        state
    } else {
        next_state(state)
    }
}

/// The number that a draw below `upper` gives.
pub open spec fn range_value(state: u64, upper: nat) -> nat {
    if upper == 0 {
        0
    } else {
        (next_state(state) as usize) as nat % upper
    }
}

/// A linear congruential generator.
#[derive(Debug)]
pub struct Lcg {
    pub state: u64,
}

impl Clone for Lcg {
    fn clone(&self) -> (copy: Self)
        ensures
            copy == *self,
    {
        Self { state: self.state }
    }
}

impl Lcg {
    /// Starts from `seed`, or from one where the seed is zero.
    pub fn new(seed: u64) -> (rng: Self)
        ensures
            rng.state == first_state(seed),
    {
        Self { state: seed.max(1) }
    }

    /// Steps to the next state and returns it.
    pub fn next(&mut self) -> (value: u64)
        ensures
            final(self).state == next_state(old(self).state),
            value == next_state(old(self).state),
    {
        self.state = self.state.wrapping_mul(MULTIPLIER).wrapping_add(INCREMENT);
        proof {
            lemma_wrapping_step(old(self).state);
        }
        self.state
    }

    /// Draws a number below `upper`, or zero where `upper` is zero.
    pub fn range(&mut self, upper: usize) -> (value: usize)
        ensures
            final(self).state == state_after_range(old(self).state, upper as nat),
            value == range_value(old(self).state, upper as nat),
            upper > 0 ==> value < upper,
    {
        if upper == 0 {
            0
        } else {
            (self.next() as usize) % upper
        }
    }
}

/// Wrapping the product and then the sum is the same as wrapping once.
proof fn lemma_wrapping_step(state: u64)
    ensures
        state.wrapping_mul(MULTIPLIER).wrapping_add(INCREMENT) == next_state(state),
{
    let m: int = 0x1_0000_0000_0000_0000;
    vstd::arithmetic::div_mod::lemma_add_mod_noop(state * MULTIPLIER, INCREMENT as int, m);
    vstd::arithmetic::div_mod::lemma_small_mod(INCREMENT as nat, m as nat);
}

/// Successive states alternate between even and odd.
pub proof fn parity_alternates(state: u64)
    ensures
        next_state(state) % 2 == 0 <==> state % 2 == 1,
{
    let m: int = 0x1_0000_0000_0000_0000;
    let full = state * MULTIPLIER + INCREMENT;
    assert(full % 2 == (state + 1) % 2) by (nonlinear_arith)
        requires
            full == state * MULTIPLIER + INCREMENT,
            MULTIPLIER == 6364136223846793005u64,
            INCREMENT == 1442695040888963407u64,
    ;
    assert((full % m) % 2 == full % 2) by {
        vstd::arithmetic::div_mod::lemma_mod_mod(full, 2, 0x8000_0000_0000_0000);
    }
}

/// Each state follows from the one before by one multiplication and one addition of 64
/// bits, and a draw is the remainder of the state that it steps to.
pub proof fn draws_are_remainders(state: u64, upper: nat)
    requires
        upper <= usize::MAX,
    ensures
        next_state(state) == (state * 6364136223846793005 + 1442695040888963407)
            % 18446744073709551616,
        state_after_range(state, upper) == if upper > 0 {
            next_state(state)
        } else {
            state
        },
        upper > 0 ==> range_value(state, upper) < upper && (next_state(state) as usize
            - range_value(state, upper)) % (upper as int) == 0,
        upper == 0 ==> range_value(state, upper) == 0,
{
    if upper > 0 {
        let drawn = next_state(state) as usize as int;
        let n = upper as int;
        vstd::arithmetic::div_mod::lemma_fundamental_div_mod(drawn, n);
        vstd::arithmetic::div_mod::lemma_mod_multiples_basic(drawn / n, n);
        assert(drawn - drawn % n == (drawn / n) * n) by (nonlinear_arith)
            requires
                drawn == n * (drawn / n) + drawn % n,
        ;
    }
}

/// Modulo four, each state is one less than the one before.
pub proof fn remainders_by_four_count_down(state: u64)
    ensures
        next_state(state) % 4 == (state + 3) % 4,
{
    let product = state * MULTIPLIER + INCREMENT;
    let quarter = state * 1591034055961698251 + 360673760222240851;
    assert(product == 4 * quarter + (state + 3));
    vstd::arithmetic::div_mod::lemma_mod_mod(product, 4, 0x4000_0000_0000_0000);
    vstd::arithmetic::div_mod::lemma_mod_multiples_vanish(quarter, state + 3, 4);
}

/// A game starts from its seed, and from one where the seed is zero.
pub proof fn games_start_from_their_seed(seed: u64)
    ensures
        seed != 0 ==> first_state(seed) == seed,
        seed == 0 ==> first_state(seed) == 1,
{
}

} // verus!
