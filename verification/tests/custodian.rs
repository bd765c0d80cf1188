use enrex_stake::accounts::{FarmPoolAccount, StakedInfo, StateAccount, TokenAccount};
use enrex_stake::context::Clock;
use enrex_stake::custodian::Custodian;
use enrex_stake::error::ErrorMsg;
use enrex_stake::key::Key;
use enrex_stake::model::PoolEntry;
use enrex_stake::token::{PoolSigner, Transfer};

const DAY: i64 = 86_400;

const START: i64 = 1_700_000_000;

const POOL_0: [u8; 32] = [
    48, 224, 108, 159, 237, 62, 105, 16, 169, 26, 111, 23, 179, 154, 233, 167, 215, 80, 242, 169,
    110, 221, 224, 25, 129, 162, 179, 131, 255, 117, 236, 104,
];

const VAULT_0: [u8; 32] = [
    85, 50, 49, 58, 0, 44, 27, 40, 52, 137, 2, 16, 40, 173, 144, 245, 116, 47, 149, 89, 81, 178,
    216, 166, 190, 202, 45, 227, 153, 251, 143, 23,
];

fn key(b: u8) -> Key {
    Key { bytes: [b; 32] }
}

fn admin() -> Key {
    key(1)
}

fn mint() -> Key {
    key(9)
}

fn alice() -> Key {
    key(30)
}

fn bob() -> Key {
    key(31)
}

fn at(unix_timestamp: i64) -> Clock {
    Clock { unix_timestamp }
}

fn wallet(owner: Key, amount: u64) -> TokenAccount {
    TokenAccount { key: Key { bytes: [owner.bytes[0] + 100; 32] }, mint: mint(), owner, amount }
}

fn custodian() -> Custodian {
    Custodian::new(admin(), mint(), at(START))
}

/// A custodian with pool 0 of 10 % a year, a minimum stake of `min_stake`,
/// a lock of 30 days and a budget of `budget`.
fn funded(min_stake: u64, budget: u64) -> Custodian {
    let mut c = custodian();
    assert_eq!(c.create_pool(&admin(), &mint(), 0, 10, min_stake, 30 * DAY), Ok(()));
    let mut purse = wallet(admin(), budget);
    assert!(c.fund_pool(&admin(), 0, &mut purse, budget).is_ok());
    assert_eq!(purse.amount, 0);
    c
}

fn ledger(c: &Custodian, index: u8) -> FarmPoolAccount {
    c.pool(index).unwrap().pool
}

fn vault_balance(c: &Custodian, index: u8) -> u64 {
    c.pool(index).unwrap().vault.amount
}

/// What the invariants of a pool say, on the positions with the given
/// sequence numbers.
fn check_pool(c: &Custodian, index: u8, active: &[u64]) {
    let entry = c.pool(index).unwrap();
    let positions: Vec<StakedInfo> =
        active.iter().map(|i| c.position(index, *i).unwrap()).collect();
    assert!(entry.pool.amount_reward_reserved <= entry.pool.amount_reward);
    assert_eq!(entry.pool.count_stakes, positions.len() as u64);
    assert_eq!(entry.pool.amount_staked, positions.iter().map(|p| p.amount).sum::<u64>());
    assert_eq!(
        entry.pool.amount_reward_reserved,
        positions.iter().map(|p| p.reward_amount).sum::<u64>()
    );
    assert_eq!(entry.vault.amount, entry.pool.amount_staked + entry.pool.amount_reward);
    for p in &positions {
        assert_eq!(p.pool, entry.key);
        assert!(p.stake_index < entry.pool.inc_stakes);
    }
}

#[test]
fn new_custodian_holds_the_registry_and_nothing_else() {
    let c = custodian();
    assert_eq!(
        c.state(),
        StateAccount { authority: admin(), token_mint: mint(), start_time: START }
    );
    assert_eq!(c.pool_count(), 0);
    assert_eq!(c.position_count(), 0);
    assert_eq!(c.pool(0), None);
    assert_eq!(c.position(0, 0), None);
}

#[test]
fn created_pool_has_derived_addresses_and_zero_counters() {
    let mut c = custodian();
    assert_eq!(c.create_pool(&admin(), &mint(), 0, 10, 100, 30 * DAY), Ok(()));
    assert_eq!(c.pool_count(), 1);
    assert_eq!(
        c.pool(0),
        Some(PoolEntry {
            key: Key { bytes: POOL_0 },
            bump: 255,
            pool: FarmPoolAccount {
                authority: admin(),
                amount_staked: 0,
                amount_reward: 0,
                amount_reward_reserved: 0,
                min_stake_amount: 100,
                vault: Key { bytes: VAULT_0 },
                count_stakes: 0,
                inc_stakes: 0,
                lock_duration: 30 * DAY,
                apy: 10,
                index: 0,
            },
            vault: TokenAccount {
                key: Key { bytes: VAULT_0 },
                mint: mint(),
                owner: Key { bytes: POOL_0 },
                amount: 0,
            },
        })
    );
    assert_eq!(c.pool(1), None);
}

#[test]
fn create_pool_is_for_the_registry_admin() {
    let mut c = custodian();
    assert_eq!(c.create_pool(&alice(), &mint(), 0, 10, 100, DAY), Err(ErrorMsg::Unauthorized));
    assert_eq!(c.pool_count(), 0);
}

#[test]
fn create_pool_with_another_mint_is_a_token_mismatch() {
    let mut c = custodian();
    assert_eq!(c.create_pool(&admin(), &key(8), 0, 10, 100, DAY), Err(ErrorMsg::TokenMismatch));
    assert_eq!(c.pool_count(), 0);
}

#[test]
fn create_pool_twice_under_one_index_is_a_duplicate() {
    let mut c = custodian();
    assert_eq!(c.create_pool(&admin(), &mint(), 4, 10, 100, DAY), Ok(()));
    let before = c.pool(4);
    assert_eq!(c.create_pool(&admin(), &mint(), 4, 20, 5, 2 * DAY), Err(ErrorMsg::DuplicatePool));
    assert_eq!(c.pool_count(), 1);
    assert_eq!(c.pool(4), before);
    assert_eq!(c.create_pool(&admin(), &mint(), 5, 20, 5, 2 * DAY), Ok(()));
    assert_eq!(c.pool_count(), 2);
    assert_ne!(c.pool(4).unwrap().key, c.pool(5).unwrap().key);
}

#[test]
fn create_pool_with_derived_addresses_in_hand() {
    let mut c = custodian();
    let pool = Some((key(50), 7));
    let vault = Some((key(51), 8));
    assert_eq!(
        c.create_pool_at(&admin(), &mint(), 0, 10, 100, -1, pool, vault),
        Err(ErrorMsg::Overflow)
    );
    assert_eq!(
        c.create_pool_at(&admin(), &mint(), 0, 10, 100, DAY, None, vault),
        Err(ErrorMsg::AccountNotFound)
    );
    assert_eq!(
        c.create_pool_at(&admin(), &mint(), 0, 10, 100, DAY, pool, None),
        Err(ErrorMsg::AccountNotFound)
    );
    assert_eq!(c.create_pool_at(&admin(), &mint(), 0, 10, 100, DAY, pool, vault), Ok(()));
    assert_eq!(c.pool(0).unwrap().key, key(50));
    assert_eq!(c.pool(0).unwrap().bump, 7);
    assert_eq!(c.pool(0).unwrap().vault.key, key(51));
    // another index, but an address that is taken
    assert_eq!(
        c.create_pool_at(&admin(), &mint(), 1, 10, 100, DAY, pool, vault),
        Err(ErrorMsg::DuplicatePool)
    );
    assert_eq!(c.pool_count(), 1);
}

#[test]
fn operations_on_a_missing_pool_find_no_account() {
    let mut c = funded(100, 1000);
    let mut purse = wallet(alice(), 1000);
    assert_eq!(c.fund_pool(&admin(), 1, &mut purse, 1), Err(ErrorMsg::AccountNotFound));
    assert_eq!(c.withdraw_pool(&admin(), 1, &mut purse, 1), Err(ErrorMsg::AccountNotFound));
    assert_eq!(c.stake(&alice(), 1, &mut purse, 500, at(START)), Err(ErrorMsg::AccountNotFound));
    assert_eq!(
        c.cancel_stake(&alice(), 1, 0, &mut purse, at(START)),
        Err(ErrorMsg::AccountNotFound)
    );
    assert_eq!(
        c.claim_stake(&alice(), 1, 0, &mut purse, at(START)),
        Err(ErrorMsg::AccountNotFound)
    );
    assert_eq!(purse, wallet(alice(), 1000));
    check_pool(&c, 0, &[]);
}

#[test]
fn stake_reserves_reward_until_the_budget_is_used() {
    let mut c = funded(100, 1000);
    let mut purse = wallet(alice(), 1_000_000);
    let first = c.stake(&alice(), 0, &mut purse, 500, at(START + 5)).unwrap();
    assert!(0 < first.reward_amount && first.reward_amount <= 1000);
    assert_eq!(first.reward_amount, 4);
    assert_eq!(ledger(&c, 0).amount_reward_reserved, 4);
    assert_eq!(ledger(&c, 0).amount_reward, 1000);
    check_pool(&c, 0, &[0]);
    // 125 000 would earn 1026: with the 4 reserved, more than the 1000 funded
    let before = c.pool(0);
    assert_eq!(
        c.stake(&alice(), 0, &mut purse, 125_000, at(START + 6)),
        Err(ErrorMsg::OverflowReservedReward)
    );
    assert_eq!(c.pool(0), before);
    assert_eq!(c.position_count(), 1);
    assert_eq!(purse.amount, 1_000_000 - 500);
    // 121 756 earns 1000, which alone would fit, but 4 are reserved
    assert_eq!(
        c.stake(&alice(), 0, &mut purse, 121_756, at(START + 6)),
        Err(ErrorMsg::OverflowReservedReward)
    );
    check_pool(&c, 0, &[0]);
}

#[test]
fn second_stake_of_the_same_size_finds_the_budget_used() {
    let mut c = funded(100, 7);
    let mut purse = wallet(alice(), 1000);
    let first = c.stake(&alice(), 0, &mut purse, 500, at(START)).unwrap();
    assert_eq!(first.reward_amount, 4);
    assert_eq!(
        c.stake(&alice(), 0, &mut purse, 500, at(START)),
        Err(ErrorMsg::OverflowReservedReward)
    );
    assert_eq!(ledger(&c, 0).amount_reward_reserved, 4);
    assert_eq!(c.position_count(), 1);
    assert_eq!(purse.amount, 500);
    // one more unit of budget, and it fits
    let mut admin_purse = wallet(admin(), 1);
    assert!(c.fund_pool(&admin(), 0, &mut admin_purse, 1).is_ok());
    assert!(c.stake(&alice(), 0, &mut purse, 500, at(START)).is_ok());
    assert_eq!(ledger(&c, 0).amount_reward_reserved, 8);
    check_pool(&c, 0, &[0, 1]);
}

#[test]
fn stake_below_the_minimum_creates_no_position() {
    let mut c = funded(300, 1000);
    let mut purse = wallet(alice(), 1000);
    let before = c.pool(0);
    assert_eq!(
        c.stake(&alice(), 0, &mut purse, 200, at(START)),
        Err(ErrorMsg::BelowMinStakeAmount)
    );
    assert_eq!(c.position_count(), 0);
    assert_eq!(c.position(0, 0), None);
    assert_eq!(c.pool(0), before);
    assert_eq!(purse.amount, 1000);
    assert!(c.stake(&alice(), 0, &mut purse, 300, at(START)).is_ok());
    assert_eq!(c.position_count(), 1);
}

#[test]
fn claim_waits_for_the_lock_and_pays_principal_and_reward() {
    let mut c = funded(100, 1000);
    let mut purse = wallet(alice(), 500);
    let position = c.stake(&alice(), 0, &mut purse, 500, at(START)).unwrap();
    assert_eq!(
        position,
        StakedInfo {
            pool: Key { bytes: POOL_0 },
            authority: alice(),
            amount: 500,
            reward_amount: 4,
            staked_time: START,
            stake_index: 0,
        }
    );
    assert_eq!(c.position(0, 0), Some(position));
    assert_eq!(purse.amount, 0);
    assert_eq!(vault_balance(&c, 0), 1500);
    let before = c.pool(0);
    assert_eq!(
        c.claim_stake(&alice(), 0, 0, &mut purse, at(START + 30 * DAY - 1)),
        Err(ErrorMsg::UnderLocked)
    );
    assert_eq!(c.pool(0), before);
    assert_eq!(c.position(0, 0), Some(position));
    assert_eq!(purse.amount, 0);

    let order = c.claim_stake(&alice(), 0, 0, &mut purse, at(START + 30 * DAY)).unwrap();
    assert_eq!(
        order,
        Transfer {
            from: Key { bytes: VAULT_0 },
            to: purse.key,
            authority: Key { bytes: POOL_0 },
            amount: 504,
            signer: Some(PoolSigner { token_mint: mint(), index: 0, bump: 255 }),
        }
    );
    assert_eq!(purse.amount, 504);
    assert_eq!(c.position(0, 0), None);
    assert_eq!(c.position_count(), 0);
    let pool = ledger(&c, 0);
    assert_eq!(pool.amount_reward, 996);
    assert_eq!(pool.amount_reward_reserved, 0);
    assert_eq!(pool.amount_staked, 0);
    assert_eq!(pool.count_stakes, 0);
    assert_eq!(pool.inc_stakes, 1);
    assert_eq!(vault_balance(&c, 0), 996);
    check_pool(&c, 0, &[]);
}

#[test]
fn cancel_pays_the_principal_only() {
    let mut c = funded(100, 1000);
    let mut purse = wallet(alice(), 500);
    c.stake(&alice(), 0, &mut purse, 500, at(START)).unwrap();
    assert_eq!(ledger(&c, 0).amount_reward_reserved, 4);
    let order = c.cancel_stake(&alice(), 0, 0, &mut purse, at(START)).unwrap();
    assert_eq!(order.amount, 500);
    assert_eq!(order.signer, Some(PoolSigner { token_mint: mint(), index: 0, bump: 255 }));
    assert_eq!(purse.amount, 500);
    let pool = ledger(&c, 0);
    assert_eq!(pool.amount_reward, 1000);
    assert_eq!(pool.amount_reward_reserved, 0);
    assert_eq!(pool.amount_staked, 0);
    assert_eq!(pool.count_stakes, 0);
    assert_eq!(vault_balance(&c, 0), 1000);
    assert_eq!(c.position(0, 0), None);
    // the freed reservation serves the next stake
    let mut rich = wallet(bob(), 200_000);
    let next = c.stake(&bob(), 0, &mut rich, 121_756, at(START)).unwrap();
    assert_eq!(next.reward_amount, 1000);
    check_pool(&c, 0, &[1]);
}

#[test]
fn cancel_long_after_the_lock_still_forfeits_the_reward() {
    let mut c = funded(100, 1000);
    let mut purse = wallet(alice(), 500);
    c.stake(&alice(), 0, &mut purse, 500, at(START)).unwrap();
    c.cancel_stake(&alice(), 0, 0, &mut purse, at(START + 400 * DAY)).unwrap();
    assert_eq!(purse.amount, 500);
    assert_eq!(ledger(&c, 0).amount_reward, 1000);
}

#[test]
fn withdraw_is_limited_to_the_unreserved_surplus() {
    let mut c = funded(100, 1000);
    let mut purse = wallet(alice(), 500);
    c.stake(&alice(), 0, &mut purse, 500, at(START)).unwrap();
    let mut admin_purse = wallet(admin(), 0);
    let before = c.pool(0);
    assert_eq!(
        c.withdraw_pool(&admin(), 0, &mut admin_purse, 997),
        Err(ErrorMsg::AlreadyReserved)
    );
    assert_eq!(c.pool(0), before);
    assert_eq!(admin_purse.amount, 0);
    let order = c.withdraw_pool(&admin(), 0, &mut admin_purse, 996).unwrap();
    assert_eq!(order.amount, 996);
    assert_eq!(order.from, Key { bytes: VAULT_0 });
    assert_eq!(order.authority, Key { bytes: POOL_0 });
    assert_eq!(admin_purse.amount, 996);
    assert_eq!(ledger(&c, 0).amount_reward, 4);
    assert_eq!(ledger(&c, 0).amount_reward_reserved, 4);
    assert_eq!(vault_balance(&c, 0), 504);
    assert_eq!(c.withdraw_pool(&admin(), 0, &mut admin_purse, 1), Err(ErrorMsg::AlreadyReserved));
    assert!(c.withdraw_pool(&admin(), 0, &mut admin_purse, 0).is_ok());
    check_pool(&c, 0, &[0]);
}

#[test]
fn fund_and_withdraw_are_for_the_admin() {
    let mut c = funded(100, 1000);
    let mut purse = wallet(alice(), 500);
    assert_eq!(c.fund_pool(&alice(), 0, &mut purse, 10), Err(ErrorMsg::Unauthorized));
    assert_eq!(c.withdraw_pool(&alice(), 0, &mut purse, 10), Err(ErrorMsg::Unauthorized));
    // the admin with somebody else's token account
    assert_eq!(c.fund_pool(&admin(), 0, &mut purse, 10), Err(ErrorMsg::Unauthorized));
    assert_eq!(purse.amount, 500);
    assert_eq!(ledger(&c, 0).amount_reward, 1000);
}

#[test]
fn fund_with_more_than_the_admin_holds_is_insufficient() {
    let mut c = funded(100, 1000);
    let mut purse = wallet(admin(), 10);
    assert_eq!(c.fund_pool(&admin(), 0, &mut purse, 11), Err(ErrorMsg::InsufficientFunds));
    assert_eq!(ledger(&c, 0).amount_reward, 1000);
    assert_eq!(vault_balance(&c, 0), 1000);
}

#[test]
fn fund_beyond_64_bits_overflows() {
    let mut c = custodian();
    c.create_pool(&admin(), &mint(), 0, 10, 100, 30 * DAY).unwrap();
    let mut purse = wallet(admin(), u64::MAX);
    c.fund_pool(&admin(), 0, &mut purse, u64::MAX).unwrap();
    let mut more = wallet(admin(), 5);
    assert_eq!(c.fund_pool(&admin(), 0, &mut more, 1), Err(ErrorMsg::Overflow));
    assert_eq!(ledger(&c, 0).amount_reward, u64::MAX);
    assert_eq!(more.amount, 5);
}

#[test]
fn only_the_owner_settles_a_position() {
    let mut c = funded(100, 1000);
    let mut purse = wallet(alice(), 500);
    c.stake(&alice(), 0, &mut purse, 500, at(START)).unwrap();
    let mut other = wallet(bob(), 0);
    assert_eq!(
        c.cancel_stake(&bob(), 0, 0, &mut other, at(START)),
        Err(ErrorMsg::Unauthorized)
    );
    assert_eq!(
        c.claim_stake(&bob(), 0, 0, &mut other, at(START + 31 * DAY)),
        Err(ErrorMsg::Unauthorized)
    );
    // the owner, into somebody else's token account
    assert_eq!(
        c.claim_stake(&alice(), 0, 0, &mut other, at(START + 31 * DAY)),
        Err(ErrorMsg::Unauthorized)
    );
    assert_eq!(other.amount, 0);
    assert_eq!(c.position_count(), 1);
    check_pool(&c, 0, &[0]);
}

#[test]
fn a_position_is_settled_once() {
    let mut c = funded(100, 1000);
    let mut purse = wallet(alice(), 1000);
    c.stake(&alice(), 0, &mut purse, 500, at(START)).unwrap();
    c.stake(&alice(), 0, &mut purse, 500, at(START)).unwrap();
    let late = at(START + 30 * DAY);

    c.cancel_stake(&alice(), 0, 0, &mut purse, late).unwrap();
    assert_eq!(c.cancel_stake(&alice(), 0, 0, &mut purse, late), Err(ErrorMsg::AccountNotFound));
    assert_eq!(c.claim_stake(&alice(), 0, 0, &mut purse, late), Err(ErrorMsg::AccountNotFound));

    c.claim_stake(&alice(), 0, 1, &mut purse, late).unwrap();
    assert_eq!(c.claim_stake(&alice(), 0, 1, &mut purse, late), Err(ErrorMsg::AccountNotFound));
    assert_eq!(c.cancel_stake(&alice(), 0, 1, &mut purse, late), Err(ErrorMsg::AccountNotFound));

    assert_eq!(purse.amount, 1004);
    assert_eq!(vault_balance(&c, 0), 996);
    // a number that was never issued
    assert_eq!(c.cancel_stake(&alice(), 0, 2, &mut purse, late), Err(ErrorMsg::AccountNotFound));
    check_pool(&c, 0, &[]);
}

#[test]
fn sequence_numbers_grow_and_are_not_reused() {
    let mut c = funded(100, 1000);
    let mut purse = wallet(alice(), 10_000);
    for expected in 0..3u64 {
        let p = c.stake(&alice(), 0, &mut purse, 500, at(START)).unwrap();
        assert_eq!(p.stake_index, expected);
        assert_eq!(ledger(&c, 0).inc_stakes, expected + 1);
    }
    c.cancel_stake(&alice(), 0, 1, &mut purse, at(START)).unwrap();
    assert_eq!(ledger(&c, 0).inc_stakes, 3);
    c.claim_stake(&alice(), 0, 2, &mut purse, at(START + 30 * DAY)).unwrap();
    assert_eq!(ledger(&c, 0).inc_stakes, 3);
    let p = c.stake(&alice(), 0, &mut purse, 500, at(START)).unwrap();
    assert_eq!(p.stake_index, 3);
    assert_eq!(ledger(&c, 0).inc_stakes, 4);
    assert_eq!(c.position(0, 1), None);
    assert_eq!(c.position(0, 2), None);
    // a rejected stake issues no number
    assert_eq!(
        c.stake(&alice(), 0, &mut purse, 1, at(START)),
        Err(ErrorMsg::BelowMinStakeAmount)
    );
    assert_eq!(ledger(&c, 0).inc_stakes, 4);
    check_pool(&c, 0, &[0, 3]);
}

#[test]
fn counters_follow_the_active_positions() {
    let mut c = funded(100, 1000);
    c.create_pool(&admin(), &mint(), 1, 20, 50, 7 * DAY).unwrap();
    let mut admin_purse = wallet(admin(), 500);
    c.fund_pool(&admin(), 1, &mut admin_purse, 500).unwrap();
    let mut a = wallet(alice(), 1_000_000);
    let mut b = wallet(bob(), 1_000_000);

    c.stake(&alice(), 0, &mut a, 500, at(START)).unwrap();
    check_pool(&c, 0, &[0]);
    c.stake(&bob(), 0, &mut b, 10_000, at(START + 1)).unwrap();
    check_pool(&c, 0, &[0, 1]);
    c.stake(&bob(), 1, &mut b, 50_000, at(START + 2)).unwrap();
    check_pool(&c, 0, &[0, 1]);
    check_pool(&c, 1, &[0]);
    c.stake(&alice(), 1, &mut a, 70, at(START + 3)).unwrap();
    check_pool(&c, 1, &[0, 1]);
    assert_eq!(c.position_count(), 4);

    c.cancel_stake(&bob(), 0, 1, &mut b, at(START + 4)).unwrap();
    check_pool(&c, 0, &[0]);
    check_pool(&c, 1, &[0, 1]);
    c.claim_stake(&bob(), 1, 0, &mut b, at(START + 2 + 7 * DAY)).unwrap();
    check_pool(&c, 0, &[0]);
    check_pool(&c, 1, &[1]);
    c.withdraw_pool(&admin(), 1, &mut admin_purse, 100).unwrap();
    check_pool(&c, 1, &[1]);
    c.claim_stake(&alice(), 0, 0, &mut a, at(START + 30 * DAY)).unwrap();
    check_pool(&c, 0, &[]);
    c.cancel_stake(&alice(), 1, 1, &mut a, at(START + 30 * DAY)).unwrap();
    check_pool(&c, 1, &[]);
    assert_eq!(c.position_count(), 0);

    // 50 000 at 20 % over 7 days earn 191
    assert_eq!(a.amount, 1_000_000 + 4);
    assert_eq!(b.amount, 1_000_000 + 191);
    assert_eq!(ledger(&c, 0).amount_reward, 996);
    assert_eq!(ledger(&c, 1).amount_reward, 500 - 191 - 100);
    assert_eq!(vault_balance(&c, 0), 996);
    assert_eq!(vault_balance(&c, 1), 209);
}

#[test]
fn pool_parameters_never_change() {
    let mut c = funded(100, 1000);
    let created = ledger(&c, 0);
    let mut purse = wallet(alice(), 10_000);
    let mut admin_purse = wallet(admin(), 10_000);
    c.stake(&alice(), 0, &mut purse, 500, at(START)).unwrap();
    c.fund_pool(&admin(), 0, &mut admin_purse, 10).unwrap();
    c.withdraw_pool(&admin(), 0, &mut admin_purse, 5).unwrap();
    c.cancel_stake(&alice(), 0, 0, &mut purse, at(START)).unwrap();
    let now = ledger(&c, 0);
    assert_eq!(now.apy, created.apy);
    assert_eq!(now.lock_duration, created.lock_duration);
    assert_eq!(now.min_stake_amount, created.min_stake_amount);
    assert_eq!(now.index, created.index);
    assert_eq!(now.vault, created.vault);
    assert_eq!(now.authority, created.authority);
}

#[test]
fn pool_without_lock_pays_no_reward_and_can_be_claimed_at_once() {
    let mut c = custodian();
    c.create_pool(&admin(), &mint(), 0, 50, 1, 0).unwrap();
    let mut purse = wallet(alice(), 1000);
    let p = c.stake(&alice(), 0, &mut purse, 1000, at(START)).unwrap();
    assert_eq!(p.reward_amount, 0);
    let order = c.claim_stake(&alice(), 0, 0, &mut purse, at(START)).unwrap();
    assert_eq!(order.amount, 1000);
    assert_eq!(purse.amount, 1000);
}

#[test]
fn stake_without_budget_is_rejected_unless_the_reward_is_zero() {
    let mut c = custodian();
    c.create_pool(&admin(), &mint(), 0, 10, 1, 30 * DAY).unwrap();
    let mut purse = wallet(alice(), 1000);
    assert_eq!(
        c.stake(&alice(), 0, &mut purse, 500, at(START)),
        Err(ErrorMsg::OverflowReservedReward)
    );
    assert!(c.stake(&alice(), 0, &mut purse, 100, at(START)).is_ok());
    check_pool(&c, 0, &[0]);
}

#[test]
fn stake_with_more_than_the_staker_holds_is_insufficient() {
    let mut c = funded(100, 1000);
    let mut purse = wallet(alice(), 499);
    assert_eq!(c.stake(&alice(), 0, &mut purse, 500, at(START)), Err(ErrorMsg::InsufficientFunds));
    assert_eq!(c.position_count(), 0);
    assert_eq!(purse.amount, 499);
    check_pool(&c, 0, &[]);
}
