//! The reward accrual arithmetic: the effective rate of a position under an
//! optional lock bonus, and the settlement formula that converts elapsed
//! time and a rate into owed reward.

use vstd::prelude::*;

use vstd::arithmetic::div_mod::lemma_div_is_ordered;
use vstd::arithmetic::mul::lemma_mul_inequality;

use crate::error::Error;
use crate::state::Farmer;
use crate::state::accrued_at;
use crate::state::settle_farmer;

verus! {

/// The effective rate of a position, as a mathematical integer: the
/// whitelisted base rate raised by the lock's bonus percentage points, with
/// integer truncation toward zero.  Truncation deliberately favours protocol
/// solvency over staker-favourable rounding.
pub open spec fn effective_rate(base: int, factor: int) -> int {
    if factor == 0 {
        base
    } else {
        (factor + 100) * base / 100
    }
}

/// The outcome of computing the effective rate on machine words: the exact
/// value when every intermediate step fits in a `u64`, an arithmetic error
/// otherwise.
pub open spec fn calculate_reward_rate_spec(base: u64, factor: u64) -> Result<u64, Error> {
    if factor == 0 {
        Ok(base)
    } else if factor + 100 > u64::MAX {
        Err(Error::ArithmeticError)
    } else if (factor + 100) * base > u64::MAX {
        Err(Error::ArithmeticError)
    } else {
        Ok(((factor + 100) * base / 100) as u64)
    }
}

/// Effective rate of a position: the base rate when no bonus applies, else
/// `base * (factor + 100) / 100` with overflow-checked arithmetic that fails
/// rather than wraps.
pub fn calculate_reward_rate(base: u64, factor: u64) -> (r: Result<u64, Error>)
    ensures
        r == calculate_reward_rate_spec(base, factor),
        r matches Ok(rate) ==> rate == effective_rate(base as int, factor as int),
{
    if factor == 0 {
        return Ok(base);
    }
    let Some(raised) = factor.checked_add(100) else {
        return Err(Error::ArithmeticError);
    };
    let Some(product) = raised.checked_mul(base) else {
        return Err(Error::ArithmeticError);
    };
    Ok(product / 100)
}

/// The effective rate never falls below the base rate: a lock bonus raises
/// the payout, never lowers it.
pub proof fn lemma_effective_rate_at_least_base(base: u64, factor: u64)
    ensures
        effective_rate(base as int, factor as int) >= base,
{
    if factor != 0 {
        assert((factor + 100) * base >= 100 * base) by {
            lemma_mul_inequality(100, factor + 100, base as int);
        }
        lemma_div_is_ordered(100 * (base as int), (factor + 100) * base, 100);
        assert(100 * (base as int) / 100 == base);
    }
}

/// The effective rate is monotonically non-decreasing in the bonus factor
/// for a fixed base rate.
pub proof fn lemma_effective_rate_monotone(base: u64, factor1: u64, factor2: u64)
    requires
        factor1 <= factor2,
    ensures
        effective_rate(base as int, factor1 as int) <= effective_rate(base as int, factor2 as int),
{
    if factor1 == 0 {
        lemma_effective_rate_at_least_base(base, factor2);
    } else {
        lemma_mul_inequality(factor1 + 100, factor2 + 100, base as int);
        lemma_div_is_ordered((factor1 + 100) * base, (factor2 + 100) * base, 100);
    }
}

/// Settlement is additive over intervals: settling at an intermediate time
/// `t1` and reading the accrual integral at `t2` yields the same value as
/// reading it at `t2` directly.  The accrued reward of a farmer is therefore
/// the sum, over the settlement intervals, of the rate during the interval
/// times the interval's length, however often settlement runs.
pub proof fn lemma_settlement_additive(f: Farmer, t1: u64, t2: u64)
    requires
        f.last_update <= t1 <= t2,
        settle_farmer(f, t1) is Ok,
    ensures
        accrued_at(settle_farmer(f, t1).unwrap(), t2) == accrued_at(f, t2),
{
    let f1 = settle_farmer(f, t1).unwrap();
    assert(accrued_at(f1, t2) == f.accrued_rewards + (t1 - f.last_update) * f.reward_rate + (t2
        - t1) * f.reward_rate);
    assert((t1 - f.last_update) * f.reward_rate + (t2 - t1) * f.reward_rate == (t2
        - f.last_update) * f.reward_rate) by (nonlinear_arith);
}

} // verus!
