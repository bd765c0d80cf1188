use crate::accounts::FarmPoolAccount;
use crate::constants::{ACC_PRECISION, SECONDS_PER_DAY, YEAR_DAYS_PERCENT};
use crate::error::ErrorMsg;
use vstd::prelude::*;

verus! {

/// A lock duration in days, as a fixed-point number: the fixed-point length
/// of one second, rounded down, times the seconds.
pub open spec fn spec_duration_in_days(lock_duration: int) -> int {
    (ACC_PRECISION / SECONDS_PER_DAY) * lock_duration
}

/// The part of the principal that a position earns over the lock duration,
/// as a fixed-point number: the yearly percentage prorated by the days.
pub open spec fn spec_percentage(lock_duration: int, apy: int) -> int {
    spec_duration_in_days(lock_duration) * apy / (YEAR_DAYS_PERCENT as int)
}

/// The reward of a principal: the prorated part of it, rounded down.
pub open spec fn spec_reward(lock_duration: int, apy: int, amount: int) -> int {
    amount * spec_percentage(lock_duration, apy) / (ACC_PRECISION as int)
}

impl FarmPoolAccount {
    /// The reward that this pool pays on `amount`.
    pub open spec fn spec_reward_amount(&self, amount: u64) -> int {
        spec_reward(self.lock_duration as int, self.apy as int, amount as int)
    }

    /// Whether the reward on `amount` can be computed in 128 bits.
    pub open spec fn spec_reward_computable(&self, amount: u64) -> bool {
        &&& self.lock_duration >= 0
        &&& amount * spec_percentage(self.lock_duration as int, self.apy as int) <= u128::MAX
    }

    /// Computes the reward of a stake of `amount` from the pool's yearly
    /// percentage and lock duration. Fails with `Overflow` where the lock
    /// duration is negative or the computation leaves 128 bits.
    pub fn get_reward_amount(&self, amount: u64) -> (r: Result<u128, ErrorMsg>)
        ensures
            match r {
                Ok(reward) => self.spec_reward_computable(amount) && reward
                    == self.spec_reward_amount(amount),
                Err(e) => e == ErrorMsg::Overflow && !self.spec_reward_computable(amount),
            },
    {
        if self.lock_duration < 0 {
            return Err(ErrorMsg::Overflow);
        }
        let per_second: u128 = ACC_PRECISION / SECONDS_PER_DAY;
        assert(per_second == 1157407);
        let lock_duration_in_days: u128 = per_second * (self.lock_duration as u128);
        assert(lock_duration_in_days * self.apy <= 0xffff_ffff_ffff_ffff_ffff_ffff_ffff) by (
            nonlinear_arith)
            requires
                lock_duration_in_days <= 1157407 * 0x8000_0000_0000_0000,
                self.apy <= 255,
        ;
        let percentage: u128 = lock_duration_in_days * (self.apy as u128) / YEAR_DAYS_PERCENT;
        match (amount as u128).checked_mul(percentage) {
            Some(product) => Ok(product / ACC_PRECISION),
            None => Err(ErrorMsg::Overflow),
        }
    }
}

/// The prorated percentage of a pool with a lock duration and a yearly
/// percentage that are not negative is not negative, and not above the exact
/// quotient that it rounds.
pub proof fn lemma_percentage_rounds_down(lock_duration: int, apy: int)
    requires
        lock_duration >= 0,
        apy >= 0,
    ensures
        0 <= spec_percentage(lock_duration, apy),
        spec_percentage(lock_duration, apy) * (SECONDS_PER_DAY * YEAR_DAYS_PERCENT)
            <= lock_duration * apy * ACC_PRECISION,
{
    let per_second = (ACC_PRECISION / SECONDS_PER_DAY) as int;
    assert(per_second == 1157407);
    let days = spec_duration_in_days(lock_duration);
    assert(days == 1157407 * lock_duration);
    let scaled = days * apy;
    assert(scaled >= 0 && scaled == 1157407 * (lock_duration * apy)) by (nonlinear_arith)
        requires
            days == 1157407 * lock_duration,
            scaled == days * apy,
            lock_duration >= 0,
            apy >= 0,
    ;
    let pct = spec_percentage(lock_duration, apy);
    assert(pct == scaled / 36525);
    assert(0 <= pct && pct * 36525 <= scaled);
    assert(pct * (86400 * 36525) <= (lock_duration * apy) * 100_000_000_000);
    assert((lock_duration * apy) * 100_000_000_000 == lock_duration * apy * ACC_PRECISION);
}

/// The reward is never rounded up: it is not negative, not above the
/// fixed-point product that it rounds, and not above the exact share of the
/// principal, which is the yearly percentage prorated by the lock duration
/// over a year of 365.25 days.
pub proof fn lemma_reward_rounds_down(lock_duration: int, apy: int, amount: int)
    requires
        lock_duration >= 0,
        apy >= 0,
        amount >= 0,
    ensures
        0 <= spec_reward(lock_duration, apy, amount),
        spec_reward(lock_duration, apy, amount) * ACC_PRECISION <= amount * spec_percentage(
            lock_duration,
            apy,
        ),
        spec_reward(lock_duration, apy, amount) * (SECONDS_PER_DAY * YEAR_DAYS_PERCENT) <= amount
            * (lock_duration * apy),
{
    lemma_percentage_rounds_down(lock_duration, apy);
    let pct = spec_percentage(lock_duration, apy);
    let exact = lock_duration * apy;
    let product = amount * pct;
    let reward = spec_reward(lock_duration, apy, amount);
    assert(product >= 0) by (nonlinear_arith)
        requires
            product == amount * pct,
            amount >= 0,
            pct >= 0,
    ;
    assert(reward == product / 100_000_000_000);
    assert(0 <= reward && reward * 100_000_000_000 <= product);
    assert(exact >= 0) by (nonlinear_arith)
        requires
            exact == lock_duration * apy,
            lock_duration >= 0,
            apy >= 0,
    ;
    assert(reward * 3155760000 <= amount * exact) by (nonlinear_arith)
        requires
            reward * 100_000_000_000 <= amount * pct,
            pct * 3155760000 <= exact * 100_000_000_000,
            amount >= 0,
            reward >= 0,
            pct >= 0,
            exact >= 0,
    ;
}

/// A larger principal never earns a smaller reward.
pub proof fn lemma_reward_monotonic(lock_duration: int, apy: int, smaller: int, larger: int)
    requires
        lock_duration >= 0,
        apy >= 0,
        smaller <= larger,
    ensures
        spec_reward(lock_duration, apy, smaller) <= spec_reward(lock_duration, apy, larger),
{
    lemma_percentage_rounds_down(lock_duration, apy);
    let pct = spec_percentage(lock_duration, apy);
    assert(smaller * pct <= larger * pct) by (nonlinear_arith)
        requires
            smaller <= larger,
            pct >= 0,
    ;
    assert(spec_reward(lock_duration, apy, smaller) == (smaller * pct) / 100_000_000_000);
    assert(spec_reward(lock_duration, apy, larger) == (larger * pct) / 100_000_000_000);
}

/// In a pool whose lock duration is not negative, one more unit of
/// principal never lowers the reward, and no reward is rounded up.
pub proof fn lemma_pool_reward_rounding(pool: FarmPoolAccount, amount: u64)
    requires
        pool.lock_duration >= 0,
        amount < u64::MAX,
    ensures
        pool.spec_reward_amount(amount) <= pool.spec_reward_amount((amount + 1) as u64),
        0 <= pool.spec_reward_amount(amount),
        pool.spec_reward_amount(amount) * (SECONDS_PER_DAY * YEAR_DAYS_PERCENT) <= amount * (
        pool.lock_duration * pool.apy),
{
    lemma_reward_monotonic(pool.lock_duration as int, pool.apy as int, amount as int, amount + 1);
    lemma_reward_rounds_down(pool.lock_duration as int, pool.apy as int, amount as int);
}

} // verus!
