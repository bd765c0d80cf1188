use crate::key::Key;
use vstd::prelude::*;

verus! {

/// The registry of a deployment: it binds the protocol to one admin
/// authority and one reward token.
#[derive(Clone, Copy, Debug, PartialEq, Eq)]
pub struct StateAccount {
    /// The creator of the registry, and the admin of every pool.
    pub authority: Key,
    /// The token that every pool stakes and rewards.
    pub token_mint: Key,
    /// When the registry was created.
    pub start_time: i64,
}

/// The ledger of one pool.
#[derive(Clone, Copy, Debug, PartialEq, Eq)]
pub struct FarmPoolAccount {
    /// The creator of the pool.
    pub authority: Key,
    /// Sum of the principals of the active positions.
    pub amount_staked: u64,
    /// The reward budget: what was funded and neither withdrawn nor paid out.
    pub amount_reward: u64,
    /// The part of the budget that is promised to the active positions.
    pub amount_reward_reserved: u64,
    /// The smallest principal that a stake may have.
    pub min_stake_amount: u64,
    /// Address of the token account that holds stakes and rewards.
    pub vault: Key,
    /// Number of active positions.
    pub count_stakes: u64,
    /// Sequence number of the next position. It only grows.
    pub inc_stakes: u64,
    /// Seconds for which a position is locked.
    pub lock_duration: i64,
    /// Yearly reward in percent of the principal.
    pub apy: u8,
    /// The index under which the pool's address is derived.
    pub index: u8,
}

/// One stake position.
#[derive(Clone, Copy, Debug, PartialEq, Eq)]
pub struct StakedInfo {
    /// Address of the pool that the position belongs to.
    pub pool: Key,
    /// The staker.
    pub authority: Key,
    /// The principal.
    pub amount: u64,
    /// The reward, fixed when the position was created.
    pub reward_amount: u64,
    /// When the position was created.
    pub staked_time: i64,
    /// The pool's sequence number at creation.
    pub stake_index: u64,
}

/// What the protocol reads of a token account.
#[derive(Clone, Copy, Debug, PartialEq, Eq)]
pub struct TokenAccount {
    /// Address of the token account.
    pub key: Key,
    /// The token that the account holds.
    pub mint: Key,
    /// The authority that may move tokens out of the account.
    pub owner: Key,
    /// The balance.
    pub amount: u64,
}

impl FarmPoolAccount {
    /// What holds of a pool after every operation: no more reward is
    /// promised than the budget holds, no position is counted that was not
    /// issued, and the lock duration is not negative.
    pub open spec fn wf(&self) -> bool {
        &&& self.amount_reward_reserved <= self.amount_reward
        &&& self.count_stakes <= self.inc_stakes
        &&& self.lock_duration >= 0
    }

    /// The part of the reward budget that is promised to no position.
    pub open spec fn spec_unreserved(&self) -> int {
        self.amount_reward - self.amount_reward_reserved
    }
}

} // verus!
