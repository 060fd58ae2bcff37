//! Integer powers by repeated squaring.
//!
//! The power is described as a chain of steps applied to an accumulator that
//! starts at one: squaring it, or multiplying it by the base. The chain for
//! an exponent `n` squares the power for `n / 2` and, when `n` is odd,
//! multiplies once more by the base, so its length grows with the logarithm
//! of `n`. Running the chain in any arithmetic gives the power in that
//! arithmetic; in floating point each step rounds once.
use vstd::prelude::*;

use vstd::arithmetic::logarithm::{lemma_log0, lemma_log_s, log};
use vstd::arithmetic::power::{lemma_pow0, lemma_pow1, lemma_pow_adds, pow};

verus! {

/// One step of a power chain.
#[derive(Clone, Copy, Debug, PartialEq, Eq)]
pub enum PowStep {
    /// The accumulator is replaced by its square.
    Square,
    /// The accumulator is multiplied by the base.
    MulBase,
}

/// The power of the base that the accumulator holds after `steps`.
pub open spec fn chain_exponent(steps: Seq<PowStep>) -> nat
    decreases steps.len(),
{
    if steps.len() == 0 {
        0
    } else {
        let e = chain_exponent(steps.drop_last());
        match steps.last() {
            PowStep::Square => 2 * e,
            PowStep::MulBase => e + 1,
        }
    }
}

/// The accumulator after `steps` with base `x`, in exact integer arithmetic.
pub open spec fn chain_value(steps: Seq<PowStep>, x: int) -> int
    decreases steps.len(),
{
    if steps.len() == 0 {
        1
    } else {
        let v = chain_value(steps.drop_last(), x);
        match steps.last() {
            PowStep::Square => v * v,
            PowStep::MulBase => v * x,
        }
    }
}

/// The chain for the exponent `n`: nothing for zero, the base alone for one,
/// and otherwise the chain for `n / 2`, a square, and for odd `n` one more
/// factor of the base.
pub open spec fn binary_chain(n: nat) -> Seq<PowStep>
    decreases n,
{
    if n == 0 {
        seq![]
    } else if n == 1 {
        seq![PowStep::MulBase]
    } else {
        let squared = binary_chain(n / 2).push(PowStep::Square);
        if n % 2 == 1 {
            squared.push(PowStep::MulBase)
        } else {
            squared
        }
    }
}

/// The binary chain for `n` reaches the power `n`.
pub proof fn lemma_binary_chain_exponent(n: nat)
    ensures
        chain_exponent(binary_chain(n)) == n,
    decreases n,
{
    if n > 1 {
        lemma_binary_chain_exponent(n / 2);
        let squared = binary_chain(n / 2).push(PowStep::Square);
        assert(squared.drop_last() =~= binary_chain(n / 2));
        assert(chain_exponent(squared) == 2 * (n / 2));
        if n % 2 == 1 {
            assert(squared.push(PowStep::MulBase).drop_last() =~= squared);
        }
    } else if n == 1 {
        assert(seq![PowStep::MulBase].drop_last() =~= Seq::<PowStep>::empty());
        assert(chain_exponent(Seq::<PowStep>::empty()) == 0);
    }
}

/// The chain for `n >= 1` holds at most two steps per binary digit of `n`
/// beyond the leading one, plus the first factor of the base.
pub proof fn lemma_binary_chain_length(n: nat)
    requires
        n >= 1,
    ensures
        binary_chain(n).len() <= 2 * log(2, n as int) + 1,
    decreases n,
{
    if n == 1 {
        lemma_log0(2, 1);
    } else {
        lemma_binary_chain_length(n / 2);
        lemma_log_s(2, n as int);
    }
}

/// Every chain computes the power of the base that it reaches: in exact
/// arithmetic its value is `x` to the power `chain_exponent(steps)`.
pub proof fn lemma_chain_value_is_power(steps: Seq<PowStep>, x: int)
    ensures
        chain_value(steps, x) == pow(x, chain_exponent(steps)),
    decreases steps.len(),
{
    if steps.len() == 0 {
        lemma_pow0(x);
    } else {
        let e = chain_exponent(steps.drop_last());
        lemma_chain_value_is_power(steps.drop_last(), x);
        match steps.last() {
            PowStep::Square => {
                lemma_pow_adds(x, e, e);
            },
            PowStep::MulBase => {
                lemma_pow_adds(x, e, 1);
                lemma_pow1(x);
            },
        }
    }
}

/// Repeated squaring computes `x^n` for every base and every exponent; the
/// exponent zero gives one whatever the base.
pub proof fn lemma_powi_is_power(x: int, n: nat)
    ensures
        chain_value(binary_chain(n), x) == pow(x, n),
        n == 0 ==> chain_value(binary_chain(n), x) == 1,
{
    lemma_binary_chain_exponent(n);
    lemma_chain_value_is_power(binary_chain(n), x);
}

/// The chain of squarings and multiplications that raises a base to `exp`.
///
/// Starting from one, the steps give the base to the power `exp`; for the
/// exponent zero there is no step, so the result is one for every base,
/// zero and NaN included.
pub fn powi_chain(exp: usize) -> (steps: Vec<PowStep>)
    ensures
        steps@ == binary_chain(exp as nat),
        chain_exponent(steps@) == exp,
        exp == 0 ==> steps@.len() == 0,
        exp >= 1 ==> steps@.len() <= 2 * log(2, exp as int) + 1,
    decreases exp,
{
    proof {
        lemma_binary_chain_exponent(exp as nat);
        if exp >= 1 {
            lemma_binary_chain_length(exp as nat);
        }
    }
    if exp == 0 {
        Vec::new()
    } else if exp == 1 {
        let mut steps: Vec<PowStep> = Vec::new();
        steps.push(PowStep::MulBase);
        proof {
            assert(steps@ =~= seq![PowStep::MulBase]);
        }
        steps
    } else {
        let mut steps = powi_chain(exp / 2);
        steps.push(PowStep::Square);
        if exp % 2 == 1 {
            steps.push(PowStep::MulBase);
        }
        steps
    }
}

} // verus!
