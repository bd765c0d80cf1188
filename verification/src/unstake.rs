use crate::accounts::{FarmPoolAccount, TokenAccount};
use crate::address::{pool_bump, spec_bump, spec_pool_seeds};
use crate::context::Unstake;
use crate::error::ErrorMsg;
use crate::token::{spec_transfer_reject, transfer, PoolSigner, Transfer};
use vstd::prelude::*;

verus! {

impl Unstake {
    /// Whether the caller may settle the position with these records: the
    /// position is the caller's and the pool's, the receiving token account
    /// is the caller's own, and the vault is the pool's.
    pub open spec fn spec_authorized(&self) -> bool {
        &&& self.staked_info.authority == self.authority
        &&& self.staked_info.pool == self.pool_key
        &&& self.user_vault.owner == self.authority
        &&& self.pool_vault.key == self.pool.vault
    }

    /// Whether the lock period of the position has elapsed.
    pub open spec fn spec_matured(&self) -> bool {
        self.staked_info.staked_time + self.pool.lock_duration <= self.clock.unix_timestamp
    }

    /// Whether the pool's counters cover the position, so that releasing it
    /// leaves none of them below zero.
    pub open spec fn spec_covered(&self, pays_reward: bool) -> bool {
        &&& self.pool.count_stakes >= 1
        &&& self.pool.amount_staked >= self.staked_info.amount
        &&& self.pool.amount_reward_reserved >= self.staked_info.reward_amount
        &&& pays_reward ==> self.pool.amount_reward >= self.staked_info.reward_amount
    }

    /// The token movement that settles the position: `amount` out of the
    /// vault to the staker, on the pool's authority.
    pub open spec fn spec_order(&self, amount: u64, bump: u8) -> Transfer {
        Transfer {
            from: self.pool_vault.key,
            to: self.user_vault.key,
            authority: self.pool_key,
            amount,
            signer: Some(
                PoolSigner { token_mint: self.state.token_mint, index: self.pool.index, bump },
            ),
        }
    }

    /// The records after `amount` has left the vault for the staker and the
    /// pool has become `pool`.
    pub open spec fn spec_paid(&self, pool: FarmPoolAccount, amount: u64) -> Unstake {
        Unstake {
            pool,
            pool_vault: TokenAccount {
                amount: (self.pool_vault.amount - amount) as u64,
                ..self.pool_vault
            },
            user_vault: TokenAccount {
                amount: (self.user_vault.amount + amount) as u64,
                ..self.user_vault
            },
            ..*self
        }
    }

    /// Why a cancellation is rejected, if it is, given the pool's bump seed.
    /// The checks come in this order: authority, the pool's signing
    /// capability, the counters, the token transfer.
    pub open spec fn spec_cancel_reject(&self, bump: Option<u8>) -> Option<ErrorMsg> {
        if !self.spec_authorized() {
            Some(ErrorMsg::Unauthorized)
        } else if bump is None {
            Some(ErrorMsg::AccountNotFound)
        } else if !self.spec_covered(false) {
            Some(ErrorMsg::Overflow)
        } else {
            spec_transfer_reject(
                self.pool_vault,
                self.user_vault,
                self.pool_key,
                self.staked_info.amount,
            )
        }
    }

    /// The pool after the position was cancelled: the position is no longer
    /// counted, its principal has left and its reservation is free again.
    /// The reward budget is untouched.
    pub open spec fn spec_cancel_pool(&self) -> FarmPoolAccount {
        FarmPoolAccount {
            count_stakes: (self.pool.count_stakes - 1) as u64,
            amount_staked: (self.pool.amount_staked - self.staked_info.amount) as u64,
            amount_reward_reserved: (self.pool.amount_reward_reserved
                - self.staked_info.reward_amount) as u64,
            ..self.pool
        }
    }

    /// What a claim pays: principal and reward.
    pub open spec fn spec_payout(&self) -> int {
        self.staked_info.amount + self.staked_info.reward_amount
    }

    /// Why a claim is rejected, if it is, given the pool's bump seed. The
    /// checks come in this order: authority, the lock, the size of the
    /// payout, the pool's signing capability, the counters, the token
    /// transfer.
    pub open spec fn spec_claim_reject(&self, bump: Option<u8>) -> Option<ErrorMsg> {
        if !self.spec_authorized() {
            Some(ErrorMsg::Unauthorized)
        } else if !self.spec_matured() {
            Some(ErrorMsg::UnderLocked)
        } else if self.spec_payout() > u64::MAX {
            Some(ErrorMsg::Overflow)
        } else if bump is None {
            Some(ErrorMsg::AccountNotFound)
        } else if !self.spec_covered(true) {
            Some(ErrorMsg::Overflow)
        } else {
            spec_transfer_reject(
                self.pool_vault,
                self.user_vault,
                self.pool_key,
                self.spec_payout() as u64,
            )
        }
    }

    /// The pool after the position was claimed: the position is no longer
    /// counted, its principal has left, and its reward has left both the
    /// budget and the reservation.
    pub open spec fn spec_claim_pool(&self) -> FarmPoolAccount {
        FarmPoolAccount {
            count_stakes: (self.pool.count_stakes - 1) as u64,
            amount_reward: (self.pool.amount_reward - self.staked_info.reward_amount) as u64,
            amount_reward_reserved: (self.pool.amount_reward_reserved
                - self.staked_info.reward_amount) as u64,
            amount_staked: (self.pool.amount_staked - self.staked_info.amount) as u64,
            ..self.pool
        }
    }
}

/// Cancels the position with the pool's bump seed in hand: pays the
/// principal back and frees the reservation, whatever the lock. A rejected
/// cancellation changes nothing.
pub fn cancel_stake_with_bump(ctx: &mut Unstake, bump: Option<u8>) -> (r: Result<
    Transfer,
    ErrorMsg,
>)
    ensures
        match r {
            Ok(order) => {
                &&& old(ctx).spec_cancel_reject(bump) is None
                &&& bump matches Some(b)
                &&& order == old(ctx).spec_order(old(ctx).staked_info.amount, b)
                &&& *final(ctx) == old(ctx).spec_paid(
                    old(ctx).spec_cancel_pool(),
                    old(ctx).staked_info.amount,
                )
            },
            Err(e) => old(ctx).spec_cancel_reject(bump) == Some(e) && *final(ctx) == *old(ctx),
        },
        old(ctx).pool.wf() ==> final(ctx).pool.wf(),
        final(ctx).pool.inc_stakes == old(ctx).pool.inc_stakes,
        final(ctx).pool.amount_reward == old(ctx).pool.amount_reward,
{
    if ctx.staked_info.authority != ctx.authority || ctx.staked_info.pool != ctx.pool_key
        || ctx.user_vault.owner != ctx.authority || ctx.pool_vault.key != ctx.pool.vault {
        return Err(ErrorMsg::Unauthorized);
    }
    let amount: u64 = ctx.staked_info.amount;
    let bump: u8 = match bump {
        Some(bump) => bump,
        None => {
            return Err(ErrorMsg::AccountNotFound);
        },
    };
    if ctx.pool.count_stakes < 1 || ctx.pool.amount_staked < amount
        || ctx.pool.amount_reward_reserved < ctx.staked_info.reward_amount {
        return Err(ErrorMsg::Overflow);
    }
    let mut pool_vault = ctx.pool_vault;
    let mut user_vault = ctx.user_vault;
    match transfer(&mut pool_vault, &mut user_vault, &ctx.pool_key, amount) {
        Ok(()) => {},
        Err(e) => {
            return Err(e);
        },
    }
    let order = Transfer {
        from: ctx.pool_vault.key,
        to: ctx.user_vault.key,
        authority: ctx.pool_key,
        amount,
        signer: Some(
            PoolSigner { token_mint: ctx.state.token_mint, index: ctx.pool.index, bump },
        ),
    };
    ctx.pool.count_stakes = ctx.pool.count_stakes - 1;
    ctx.pool.amount_staked = ctx.pool.amount_staked - amount;
    ctx.pool.amount_reward_reserved = ctx.pool.amount_reward_reserved
        - ctx.staked_info.reward_amount;
    ctx.pool_vault = pool_vault;
    ctx.user_vault = user_vault;
    Ok(order)
}

/// Cancels the position: an exit at any time that pays the principal back,
/// forfeits the reward and frees its reservation. The pool signs for its
/// vault with the bump seed of its derived address.
pub fn cancel_stake(ctx: &mut Unstake) -> (r: Result<Transfer, ErrorMsg>)
    ensures
        ({
            let bump = spec_bump(spec_pool_seeds(old(ctx).state.token_mint, old(ctx).pool.index));
            match r {
                Ok(order) => {
                    &&& old(ctx).spec_cancel_reject(bump) is None
                    &&& bump matches Some(b)
                    &&& order == old(ctx).spec_order(old(ctx).staked_info.amount, b)
                    &&& *final(ctx) == old(ctx).spec_paid(
                        old(ctx).spec_cancel_pool(),
                        old(ctx).staked_info.amount,
                    )
                },
                Err(e) => old(ctx).spec_cancel_reject(bump) == Some(e) && *final(ctx) == *old(
                    ctx,
                ),
            }
        }),
        old(ctx).pool.wf() ==> final(ctx).pool.wf(),
        final(ctx).pool.inc_stakes == old(ctx).pool.inc_stakes,
        final(ctx).pool.amount_reward == old(ctx).pool.amount_reward,
{
    let bump = pool_bump(&ctx.state.token_mint, ctx.pool.index);
    cancel_stake_with_bump(ctx, bump)
}

/// Claims the position with the pool's bump seed in hand: once the lock has
/// elapsed, pays principal and reward. A rejected claim changes nothing.
pub fn claim_stake_with_bump(ctx: &mut Unstake, bump: Option<u8>) -> (r: Result<
    Transfer,
    ErrorMsg,
>)
    ensures
        match r {
            Ok(order) => {
                &&& old(ctx).spec_claim_reject(bump) is None
                &&& bump matches Some(b)
                &&& order == old(ctx).spec_order(old(ctx).spec_payout() as u64, b)
                &&& *final(ctx) == old(ctx).spec_paid(
                    old(ctx).spec_claim_pool(),
                    old(ctx).spec_payout() as u64,
                )
            },
            Err(e) => old(ctx).spec_claim_reject(bump) == Some(e) && *final(ctx) == *old(ctx),
        },
        old(ctx).pool.wf() ==> final(ctx).pool.wf(),
        final(ctx).pool.inc_stakes == old(ctx).pool.inc_stakes,
{
    if ctx.staked_info.authority != ctx.authority || ctx.staked_info.pool != ctx.pool_key
        || ctx.user_vault.owner != ctx.authority || ctx.pool_vault.key != ctx.pool.vault {
        return Err(ErrorMsg::Unauthorized);
    }
    if (ctx.staked_info.staked_time as i128) + (ctx.pool.lock_duration as i128) > (
    ctx.clock.unix_timestamp as i128) {
        return Err(ErrorMsg::UnderLocked);
    }
    let reward_amount: u64 = ctx.staked_info.reward_amount;
    let amount: u64 = match ctx.staked_info.amount.checked_add(reward_amount) {
        Some(amount) => amount,
        None => {
            return Err(ErrorMsg::Overflow);
        },
    };
    let bump: u8 = match bump {
        Some(bump) => bump,
        None => {
            return Err(ErrorMsg::AccountNotFound);
        },
    };
    if ctx.pool.count_stakes < 1 || ctx.pool.amount_staked < ctx.staked_info.amount
        || ctx.pool.amount_reward_reserved < reward_amount || ctx.pool.amount_reward
        < reward_amount {
        return Err(ErrorMsg::Overflow);
    }
    let mut pool_vault = ctx.pool_vault;
    let mut user_vault = ctx.user_vault;
    match transfer(&mut pool_vault, &mut user_vault, &ctx.pool_key, amount) {
        Ok(()) => {},
        Err(e) => {
            return Err(e);
        },
    }
    let order = Transfer {
        from: ctx.pool_vault.key,
        to: ctx.user_vault.key,
        authority: ctx.pool_key,
        amount,
        signer: Some(
            PoolSigner { token_mint: ctx.state.token_mint, index: ctx.pool.index, bump },
        ),
    };
    ctx.pool.count_stakes = ctx.pool.count_stakes - 1;
    ctx.pool.amount_reward = ctx.pool.amount_reward - reward_amount;
    ctx.pool.amount_reward_reserved = ctx.pool.amount_reward_reserved - reward_amount;
    ctx.pool.amount_staked = ctx.pool.amount_staked - ctx.staked_info.amount;
    ctx.pool_vault = pool_vault;
    ctx.user_vault = user_vault;
    Ok(order)
}

/// Claims the position: once its lock has elapsed, pays principal and
/// reward out of the vault and takes the reward off the budget and off the
/// reservation. The pool signs for its vault with the bump seed of its
/// derived address.
pub fn claim_stake(ctx: &mut Unstake) -> (r: Result<Transfer, ErrorMsg>)
    ensures
        ({
            let bump = spec_bump(spec_pool_seeds(old(ctx).state.token_mint, old(ctx).pool.index));
            match r {
                Ok(order) => {
                    &&& old(ctx).spec_claim_reject(bump) is None
                    &&& bump matches Some(b)
                    &&& order == old(ctx).spec_order(old(ctx).spec_payout() as u64, b)
                    &&& *final(ctx) == old(ctx).spec_paid(
                        old(ctx).spec_claim_pool(),
                        old(ctx).spec_payout() as u64,
                    )
                },
                Err(e) => old(ctx).spec_claim_reject(bump) == Some(e) && *final(ctx) == *old(
                    ctx,
                ),
            }
        }),
        old(ctx).pool.wf() ==> final(ctx).pool.wf(),
        final(ctx).pool.inc_stakes == old(ctx).pool.inc_stakes,
{
    let bump = pool_bump(&ctx.state.token_mint, ctx.pool.index);
    claim_stake_with_bump(ctx, bump)
}

} // verus!
