use enrex_stake::accounts::FarmPoolAccount;
use enrex_stake::constants::{ACC_PRECISION, SECONDS_PER_DAY, YEAR_DAYS_PERCENT};
use enrex_stake::error::ErrorMsg;
use enrex_stake::key::Key;

const DAY: i64 = 86_400;

fn pool(apy: u8, lock_duration: i64) -> FarmPoolAccount {
    FarmPoolAccount {
        authority: Key { bytes: [1; 32] },
        amount_staked: 0,
        amount_reward: 0,
        amount_reward_reserved: 0,
        min_stake_amount: 0,
        vault: Key { bytes: [2; 32] },
        count_stakes: 0,
        inc_stakes: 0,
        lock_duration,
        apy,
        index: 0,
    }
}

#[test]
fn constants_have_their_values() {
    assert_eq!(ACC_PRECISION, 100_000_000_000);
    assert_eq!(SECONDS_PER_DAY, 86_400);
    assert_eq!(YEAR_DAYS_PERCENT, 36_525);
}

#[test]
fn reward_of_ten_percent_over_thirty_days() {
    let p = pool(10, 30 * DAY);
    assert_eq!(p.get_reward_amount(500), Ok(4));
    assert_eq!(p.get_reward_amount(125_000), Ok(1026));
    assert_eq!(p.get_reward_amount(1_000_000), Ok(8213));
}

#[test]
fn reward_is_rounded_down_to_zero_for_small_principals() {
    let p = pool(10, 30 * DAY);
    assert_eq!(p.get_reward_amount(0), Ok(0));
    assert_eq!(p.get_reward_amount(100), Ok(0));
    assert_eq!(p.get_reward_amount(121), Ok(0));
    assert_eq!(p.get_reward_amount(122), Ok(1));
}

#[test]
fn reward_over_a_full_year_stays_below_the_exact_share() {
    // 100 % over 365.25 days would be the whole principal; the fixed-point
    // length of a second is rounded down, so the reward falls just short.
    let p = pool(100, 31_557_600);
    assert_eq!(p.get_reward_amount(1000), Ok(999));
    let p = pool(12, 365 * DAY);
    assert_eq!(p.get_reward_amount(1_000_000_000), Ok(119_917_822));
}

#[test]
fn reward_of_other_pools() {
    assert_eq!(pool(5, 7 * DAY).get_reward_amount(1_000_000), Ok(958));
    assert_eq!(pool(255, DAY).get_reward_amount(u64::MAX), Ok(128_786_258_083_122_250));
    assert_eq!(pool(10, 30 * DAY).get_reward_amount(u64::MAX), Ok(151_513_245_009_842_728));
}

#[test]
fn reward_is_zero_without_lock_or_without_yield() {
    assert_eq!(pool(10, 0).get_reward_amount(500), Ok(0));
    assert_eq!(pool(0, 30 * DAY).get_reward_amount(u64::MAX), Ok(0));
}

#[test]
fn reward_fails_on_negative_lock_duration() {
    assert_eq!(pool(10, -1).get_reward_amount(500), Err(ErrorMsg::Overflow));
    assert_eq!(pool(10, i64::MIN).get_reward_amount(0), Err(ErrorMsg::Overflow));
}

#[test]
fn reward_fails_where_the_product_leaves_128_bits() {
    let p = pool(255, i64::MAX);
    assert_eq!(
        p.get_reward_amount(4_565_766_083_859_438),
        Ok(3_402_823_669_209_384_373_040_797_588)
    );
    assert_eq!(p.get_reward_amount(4_565_766_083_859_439), Err(ErrorMsg::Overflow));
    assert_eq!(p.get_reward_amount(u64::MAX), Err(ErrorMsg::Overflow));
}

#[test]
fn reward_never_falls_when_the_principal_grows() {
    let p = pool(10, 30 * DAY);
    let mut last = 0;
    for amount in 0..5000u64 {
        let r = p.get_reward_amount(amount).unwrap();
        assert!(r >= last);
        last = r;
    }
    let p = pool(37, 91 * DAY + 17);
    for amount in [1u64, 999, 1_000_003, u64::MAX - 1] {
        assert!(p.get_reward_amount(amount).unwrap() <= p.get_reward_amount(amount + 1).unwrap());
    }
}

#[test]
fn reward_never_exceeds_the_exact_share() {
    for (apy, lock, amount) in [
        (10u8, 30 * DAY, 500u64),
        (10, 30 * DAY, 122),
        (100, 31_557_600, 1000),
        (255, DAY, u64::MAX),
        (1, 1, 1),
    ] {
        let r = pool(apy, lock).get_reward_amount(amount).unwrap();
        assert!(r * 86_400 * 36_525 <= (amount as u128) * (apy as u128) * (lock as u128));
    }
}
