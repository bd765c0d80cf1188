use crate::accounts::{FarmPoolAccount, StakedInfo, TokenAccount};
use crate::context::Stake;
use crate::error::ErrorMsg;
use crate::token::{spec_transfer_reject, transfer, Transfer};
use vstd::prelude::*;

verus! {

impl Stake {
    /// Whether the caller may stake with these records: the paying token
    /// account is the caller's own, and the vault is the pool's.
    pub open spec fn spec_authorized(&self) -> bool {
        &&& self.user_vault.owner == self.authority
        &&& self.pool_vault.key == self.pool.vault
    }

    /// The reward that the stake reserves, where it can be computed.
    pub open spec fn spec_reward(&self, amount: u64) -> int {
        self.pool.spec_reward_amount(amount)
    }

    /// Why a stake of `amount` is rejected, if it is. The checks come in
    /// this order: authority, the minimum, the reward computation, the
    /// reward budget, the counters, the token transfer.
    pub open spec fn spec_reject(&self, amount: u64) -> Option<ErrorMsg> {
        if !self.spec_authorized() {
            Some(ErrorMsg::Unauthorized)
        } else if amount < self.pool.min_stake_amount {
            Some(ErrorMsg::BelowMinStakeAmount)
        } else if !self.pool.spec_reward_computable(amount) {
            Some(ErrorMsg::Overflow)
        } else if self.pool.amount_reward_reserved + self.spec_reward(amount)
            > self.pool.amount_reward {
            Some(ErrorMsg::OverflowReservedReward)
        } else if self.pool.inc_stakes + 1 > u64::MAX || self.pool.count_stakes + 1 > u64::MAX
            || self.pool.amount_staked + amount > u64::MAX {
            Some(ErrorMsg::Overflow)
        } else {
            spec_transfer_reject(self.user_vault, self.pool_vault, self.authority, amount)
        }
    }

    /// The position that an accepted stake of `amount` creates.
    pub open spec fn spec_position(&self, amount: u64) -> StakedInfo {
        StakedInfo {
            pool: self.pool_key,
            authority: self.authority,
            amount,
            reward_amount: self.spec_reward(amount) as u64,
            staked_time: self.clock.unix_timestamp,
            stake_index: self.pool.inc_stakes,
        }
    }

    /// The pool after an accepted stake of `amount`.
    pub open spec fn spec_pool_after(&self, amount: u64) -> FarmPoolAccount {
        FarmPoolAccount {
            inc_stakes: (self.pool.inc_stakes + 1) as u64,
            count_stakes: (self.pool.count_stakes + 1) as u64,
            amount_reward_reserved: (self.pool.amount_reward_reserved + self.spec_reward(
                amount,
            )) as u64,
            amount_staked: (self.pool.amount_staked + amount) as u64,
            ..self.pool
        }
    }

    /// The records after an accepted stake of `amount`.
    pub open spec fn spec_after(&self, amount: u64) -> Stake {
        Stake {
            staked_info: self.spec_position(amount),
            pool: self.spec_pool_after(amount),
            user_vault: TokenAccount {
                amount: (self.user_vault.amount - amount) as u64,
                ..self.user_vault
            },
            pool_vault: TokenAccount {
                amount: (self.pool_vault.amount + amount) as u64,
                ..self.pool_vault
            },
            ..*self
        }
    }

    /// The token movement of an accepted stake: the principal, from the
    /// staker into the vault, on the staker's authority.
    pub open spec fn spec_order(&self, amount: u64) -> Transfer {
        Transfer {
            from: self.user_vault.key,
            to: self.pool_vault.key,
            authority: self.authority,
            amount,
            signer: None,
        }
    }
}

/// Stakes `amount` in the pool: reserves the reward against the pool's
/// budget, creates the position under the pool's next sequence number and
/// moves the principal into the vault. A rejected stake changes nothing.
pub fn stake(ctx: &mut Stake, amount: u64) -> (r: Result<Transfer, ErrorMsg>)
    ensures
        match r {
            Ok(order) => {
                &&& old(ctx).spec_reject(amount) is None
                &&& *final(ctx) == old(ctx).spec_after(amount)
                &&& order == old(ctx).spec_order(amount)
            },
            Err(e) => old(ctx).spec_reject(amount) == Some(e) && *final(ctx) == *old(ctx),
        },
        old(ctx).pool.wf() ==> final(ctx).pool.wf(),
        final(ctx).pool.inc_stakes >= old(ctx).pool.inc_stakes,
{
    if ctx.user_vault.owner != ctx.authority || ctx.pool_vault.key != ctx.pool.vault {
        return Err(ErrorMsg::Unauthorized);
    }
    if amount < ctx.pool.min_stake_amount {
        return Err(ErrorMsg::BelowMinStakeAmount);
    }
    let reward: u128 = match ctx.pool.get_reward_amount(amount) {
        Ok(reward) => reward,
        Err(e) => {
            return Err(e);
        },
    };
    if reward > (ctx.pool.amount_reward as u128) || (ctx.pool.amount_reward_reserved as u128)
        > (ctx.pool.amount_reward as u128) - reward {
        return Err(ErrorMsg::OverflowReservedReward);
    }
    let reward_amount: u64 = reward as u64;
    let reward_amount_reserved: u64 = ctx.pool.amount_reward_reserved + reward_amount;
    if ctx.pool.inc_stakes == u64::MAX || ctx.pool.count_stakes == u64::MAX || amount > u64::MAX
        - ctx.pool.amount_staked {
        return Err(ErrorMsg::Overflow);
    }
    let mut user_vault = ctx.user_vault;
    let mut pool_vault = ctx.pool_vault;
    match transfer(&mut user_vault, &mut pool_vault, &ctx.authority, amount) {
        Ok(()) => {},
        Err(e) => {
            return Err(e);
        },
    }
    let order = Transfer {
        from: ctx.user_vault.key,
        to: ctx.pool_vault.key,
        authority: ctx.authority,
        amount,
        signer: None,
    };
    ctx.staked_info = StakedInfo {
        pool: ctx.pool_key,
        authority: ctx.authority,
        amount,
        reward_amount,
        staked_time: ctx.clock.unix_timestamp,
        stake_index: ctx.pool.inc_stakes,
    };
    ctx.pool.inc_stakes = ctx.pool.inc_stakes + 1;
    ctx.pool.count_stakes = ctx.pool.count_stakes + 1;
    ctx.pool.amount_reward_reserved = reward_amount_reserved;
    ctx.pool.amount_staked = ctx.pool.amount_staked + amount;
    ctx.user_vault = user_vault;
    ctx.pool_vault = pool_vault;
    Ok(order)
}

} // verus!
