use crate::accounts::{FarmPoolAccount, StakedInfo, StateAccount, TokenAccount};
use crate::key::Key;
use vstd::prelude::*;

verus! {

/// The host's clock.
#[derive(Clone, Copy, Debug, PartialEq, Eq)]
pub struct Clock {
    /// Seconds since the Unix epoch.
    pub unix_timestamp: i64,
}

/// The records that creating the registry touches.
#[derive(Clone, Copy, Debug, PartialEq, Eq)]
pub struct CreateState {
    /// The registry, which the operation fills.
    pub state: StateAccount,
    /// The reward token of the deployment.
    pub token_mint: Key,
    /// The caller, who becomes the admin.
    pub authority: Key,
    pub clock: Clock,
}

/// The records that creating a pool touches.
#[derive(Clone, Copy, Debug, PartialEq, Eq)]
pub struct CreateFarmPool {
    /// The pool, which the operation fills.
    pub pool: FarmPoolAccount,
    /// Address of the pool.
    pub pool_key: Key,
    pub state: StateAccount,
    /// The pool's vault, which the operation opens for the pool.
    pub vault: TokenAccount,
    /// The token that the pool is configured for.
    pub mint: Key,
    /// The caller.
    pub authority: Key,
}

/// The records that funding a pool and withdrawing from it touch.
#[derive(Clone, Copy, Debug, PartialEq, Eq)]
pub struct FundPool {
    pub state: StateAccount,
    pub pool: FarmPoolAccount,
    /// Address of the pool.
    pub pool_key: Key,
    /// The caller.
    pub authority: Key,
    /// The pool's vault.
    pub pool_vault: TokenAccount,
    /// The admin's token account.
    pub user_vault: TokenAccount,
}

/// The records that a stake touches.
#[derive(Clone, Copy, Debug, PartialEq, Eq)]
pub struct Stake {
    /// The new position, which the operation fills.
    pub staked_info: StakedInfo,
    pub state: StateAccount,
    pub pool: FarmPoolAccount,
    /// Address of the pool.
    pub pool_key: Key,
    /// The caller, who becomes the position's owner.
    pub authority: Key,
    /// The pool's vault.
    pub pool_vault: TokenAccount,
    /// The staker's token account.
    pub user_vault: TokenAccount,
    pub clock: Clock,
}

/// The records that settling a position touches, on cancel and on claim.
#[derive(Clone, Copy, Debug, PartialEq, Eq)]
pub struct Unstake {
    /// The position to settle.
    pub staked_info: StakedInfo,
    pub state: StateAccount,
    pub pool: FarmPoolAccount,
    /// Address of the pool.
    pub pool_key: Key,
    /// The caller.
    pub authority: Key,
    /// The pool's vault.
    pub pool_vault: TokenAccount,
    /// The staker's token account.
    pub user_vault: TokenAccount,
    pub clock: Clock,
}

} // verus!
