use vstd::prelude::*;
use crate::color::FINITE_MAX_BITS;

verus! {

/// Why a synthesis run's noise parameters are rejected.
#[derive(Clone, Copy, PartialEq, Eq, Structural, Debug)]
pub enum SynthError {
    /// A noise bound's bit pattern does not encode a positive finite double.
    NoiseNotPositiveFinite,
    /// The final noise exceeds the initial noise: the schedule would grow.
    NoiseIncreasing,
}

pub open spec fn pow2(e: nat) -> nat
    decreases e,
{
    if e == 0 {
        1
    } else {
        2 * pow2((e - 1) as nat)
    }
}

pub proof fn lemma_pow2_pos(e: nat)
    ensures
        pow2(e) >= 1,
    decreases e,
{
    if e > 0 {
        lemma_pow2_pos((e - 1) as nat);
    }
}

pub proof fn lemma_pow2_monotone(a: nat, b: nat)
    requires
        a <= b,
    ensures
        pow2(a) <= pow2(b),
    decreases b,
{
    if a < b {
        lemma_pow2_monotone(a, (b - 1) as nat);
        lemma_pow2_pos((b - 1) as nat);
    }
}

/// One subdivision doubles the side: after it a side of 2^i becomes 2^(i+1),
/// so a run of i+1 rounds from the 1-by-1 seed sides at exactly 2^(i+1).
pub proof fn lemma_doubled_size(i: nat)
    ensures
        2 * pow2(i) == pow2(i + 1),
{
}

pub fn pow2_usize(e: usize) -> (r: usize)
    requires
        pow2(e as nat) <= usize::MAX,
    ensures
        r == pow2(e as nat),
{
    let mut acc: usize = 1;
    let mut j: usize = 0;
    while j < e
        invariant
            j <= e,
            acc == pow2(j as nat),
            pow2(e as nat) <= usize::MAX,
        decreases e - j,
    {
        proof {
            lemma_pow2_monotone((j + 1) as nat, e as nat);
        }
        acc = acc * 2;
        j = j + 1;
    }
    acc
}

/// The exchange budget of round `i` out of `rounds`: `base_rate` swaps per
/// pixel, doubled once for every round still to come, so coarse rounds get
/// proportionally more optimization than fine ones.
pub fn exchange_budget(base_rate: usize, rounds: usize, i: usize) -> (r: usize)
    requires
        i < rounds,
        pow2((rounds - 1 - i) as nat) <= usize::MAX,
        base_rate * pow2((rounds - 1 - i) as nat) <= usize::MAX,
    ensures
        r == base_rate * pow2((rounds - 1 - i) as nat),
{
    let p = pow2_usize(rounds - 1 - i);
    base_rate * p
}

/// The exchange budgets of a whole run, one entry per round: entry `i` is
/// `base_rate * 2^(rounds - 1 - i)`, halving as the rounds refine.
#[verifier::loop_isolation(false)]
pub fn round_plan(base_rate: usize, rounds: usize) -> (plan: Vec<usize>)
    requires
        1 <= rounds,
        pow2((rounds - 1) as nat) <= usize::MAX,
        base_rate * pow2((rounds - 1) as nat) <= usize::MAX,
    ensures
        plan@.len() == rounds,
        forall|i: int|
            0 <= i < rounds ==> #[trigger] plan@[i] == base_rate * pow2((rounds - 1 - i) as nat),
{
    let mut plan: Vec<usize> = Vec::new();
    for i in 0..rounds
        invariant
            plan@.len() == i,
            forall|k: int|
                0 <= k < i ==> #[trigger] plan@[k] == base_rate * pow2((rounds - 1 - k) as nat),
    {
        proof {
            lemma_pow2_monotone((rounds - 1 - i) as nat, (rounds - 1) as nat);
            assert(base_rate * pow2((rounds - 1 - i) as nat) <= base_rate * pow2(
                (rounds - 1) as nat,
            )) by (nonlinear_arith)
                requires
                    0 <= base_rate,
                    pow2((rounds - 1 - i) as nat) <= pow2((rounds - 1) as nat),
            ;
        }
        let b = exchange_budget(base_rate, rounds, i);
        plan.push(b);
    }
    plan
}

/// The number of exchange trials a round runs: `per_pixel` trials for each of
/// the grid's `size * size` cells.
pub fn trial_count(size: usize, per_pixel: usize) -> (r: usize)
    requires
        size * size <= usize::MAX,
        size * size * per_pixel <= usize::MAX,
    ensures
        r == size * size * per_pixel,
{
    size * size * per_pixel
}

/// Validates the noise schedule's two bounds, handed over as the bit patterns
/// of the two doubles. A pattern between 1 and that of the largest finite
/// double encodes exactly a positive finite value, and for such sign-bit-clear
/// patterns integer order coincides with numeric order, so the checks are
/// plain integer comparisons: both bounds must be positive finite doubles and
/// the schedule must not grow from the final bound to the initial one.
pub fn check_schedule(initial_bits: u64, final_bits: u64) -> (r: Result<(), SynthError>)
    ensures
        r is Ok <==> 1 <= final_bits <= initial_bits <= FINITE_MAX_BITS,
        r == Err::<(), SynthError>(SynthError::NoiseNotPositiveFinite) <==> !(1 <= initial_bits
            <= FINITE_MAX_BITS) || !(1 <= final_bits <= FINITE_MAX_BITS),
        r == Err::<(), SynthError>(SynthError::NoiseIncreasing) <==> 1 <= initial_bits
            <= FINITE_MAX_BITS && 1 <= final_bits <= FINITE_MAX_BITS && final_bits > initial_bits,
{
    if initial_bits < 1 || initial_bits > FINITE_MAX_BITS || final_bits < 1 || final_bits
        > FINITE_MAX_BITS {
        Err(SynthError::NoiseNotPositiveFinite)
    } else if final_bits > initial_bits {
        Err(SynthError::NoiseIncreasing)
    } else {
        Ok(())
    }
}

} // verus!
