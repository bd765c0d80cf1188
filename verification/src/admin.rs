use crate::accounts::{FarmPoolAccount, StateAccount, TokenAccount};
use crate::address::{pool_bump, spec_bump, spec_pool_seeds};
use crate::context::{CreateFarmPool, CreateState, FundPool};
use crate::error::ErrorMsg;
use crate::token::{spec_transfer_reject, transfer, PoolSigner, Transfer};
use vstd::prelude::*;

verus! {

impl CreateState {
    /// The registry that the operation creates.
    pub open spec fn spec_state(&self) -> StateAccount {
        StateAccount {
            authority: self.authority,
            token_mint: self.token_mint,
            start_time: self.clock.unix_timestamp,
        }
    }
}

/// Creates the registry: binds the deployment to the caller as admin and to
/// the reward token, and notes the time.
pub fn create_state(ctx: &mut CreateState) -> (r: Result<(), ErrorMsg>)
    ensures
        r is Ok,
        *final(ctx) == (CreateState { state: old(ctx).spec_state(), ..*old(ctx) }),
{
    ctx.state.authority = ctx.authority;
    ctx.state.start_time = ctx.clock.unix_timestamp;
    ctx.state.token_mint = ctx.token_mint;
    Ok(())
}

impl CreateFarmPool {
    /// Why the creation of a pool is rejected, if it is. The checks come in
    /// this order: the caller is the registry's admin, the pool's token is
    /// the registry's, the lock duration is not negative.
    pub open spec fn spec_reject(&self, lock_duration: i64) -> Option<ErrorMsg> {
        if self.state.authority != self.authority {
            Some(ErrorMsg::Unauthorized)
        } else if self.state.token_mint != self.mint {
            Some(ErrorMsg::TokenMismatch)
        } else if lock_duration < 0 {
            Some(ErrorMsg::Overflow)
        } else {
            None
        }
    }

    /// The pool that the operation creates: its parameters as given, every
    /// counter at zero.
    pub open spec fn spec_pool(
        &self,
        pool_index: u8,
        apy: u8,
        min_stake_amount: u64,
        lock_duration: i64,
    ) -> FarmPoolAccount {
        FarmPoolAccount {
            authority: self.authority,
            amount_staked: 0,
            amount_reward: 0,
            amount_reward_reserved: 0,
            min_stake_amount,
            vault: self.vault.key,
            count_stakes: 0,
            inc_stakes: 0,
            lock_duration,
            apy,
            index: pool_index,
        }
    }

    /// The vault that the operation opens: empty, of the pool's token, and
    /// under the pool's authority alone.
    pub open spec fn spec_vault(&self) -> TokenAccount {
        TokenAccount { key: self.vault.key, mint: self.mint, owner: self.pool_key, amount: 0 }
    }
}

/// Creates a pool under the registry with its immutable parameters and a
/// fresh vault. Only the registry's admin may do so. A rejected creation
/// changes nothing.
pub fn create_pool(
    ctx: &mut CreateFarmPool,
    pool_index: u8,
    apy: u8,
    min_stake_amount: u64,
    lock_duration: i64,
) -> (r: Result<(), ErrorMsg>)
    ensures
        match r {
            Ok(()) => {
                &&& old(ctx).spec_reject(lock_duration) is None
                &&& *final(ctx) == (CreateFarmPool {
                    pool: old(ctx).spec_pool(pool_index, apy, min_stake_amount, lock_duration),
                    vault: old(ctx).spec_vault(),
                    ..*old(ctx)
                })
                &&& final(ctx).pool.wf()
            },
            Err(e) => old(ctx).spec_reject(lock_duration) == Some(e) && *final(ctx) == *old(ctx),
        },
{
    if ctx.state.authority != ctx.authority {
        return Err(ErrorMsg::Unauthorized);
    }
    if ctx.state.token_mint != ctx.mint {
        return Err(ErrorMsg::TokenMismatch);
    }
    if lock_duration < 0 {
        return Err(ErrorMsg::Overflow);
    }
    ctx.vault = TokenAccount { key: ctx.vault.key, mint: ctx.mint, owner: ctx.pool_key, amount: 0 };
    ctx.pool = FarmPoolAccount {
        authority: ctx.authority,
        amount_staked: 0,
        amount_reward: 0,
        amount_reward_reserved: 0,
        min_stake_amount,
        vault: ctx.vault.key,
        count_stakes: 0,
        inc_stakes: 0,
        lock_duration,
        apy,
        index: pool_index,
    };
    Ok(())
}

impl FundPool {
    /// Whether the caller may fund the pool or withdraw from it with these
    /// records: the caller is the registry's admin, the token account is the
    /// caller's own, and the vault is the pool's.
    pub open spec fn spec_authorized(&self) -> bool {
        &&& self.state.authority == self.authority
        &&& self.user_vault.owner == self.authority
        &&& self.pool_vault.key == self.pool.vault
    }

    /// Why funding with `amount` is rejected, if it is. The checks come in
    /// this order: authority, the size of the budget, the token transfer.
    pub open spec fn spec_fund_reject(&self, amount: u64) -> Option<ErrorMsg> {
        if !self.spec_authorized() {
            Some(ErrorMsg::Unauthorized)
        } else if self.pool.amount_reward + amount > u64::MAX {
            Some(ErrorMsg::Overflow)
        } else {
            spec_transfer_reject(self.user_vault, self.pool_vault, self.authority, amount)
        }
    }

    /// The records after the pool was funded with `amount`.
    pub open spec fn spec_funded(&self, amount: u64) -> FundPool {
        FundPool {
            pool: FarmPoolAccount {
                amount_reward: (self.pool.amount_reward + amount) as u64,
                ..self.pool
            },
            user_vault: TokenAccount {
                amount: (self.user_vault.amount - amount) as u64,
                ..self.user_vault
            },
            pool_vault: TokenAccount {
                amount: (self.pool_vault.amount + amount) as u64,
                ..self.pool_vault
            },
            ..*self
        }
    }

    /// The token movement of a funding: from the admin into the vault, on
    /// the admin's authority.
    pub open spec fn spec_fund_order(&self, amount: u64) -> Transfer {
        Transfer {
            from: self.user_vault.key,
            to: self.pool_vault.key,
            authority: self.authority,
            amount,
            signer: None,
        }
    }

    /// Why a withdrawal of `amount` is rejected, if it is, given the pool's
    /// bump seed. The checks come in this order: authority, the unreserved
    /// surplus, the pool's signing capability, the token transfer.
    pub open spec fn spec_withdraw_reject(&self, amount: u64, bump: Option<u8>) -> Option<
        ErrorMsg,
    > {
        if !self.spec_authorized() {
            Some(ErrorMsg::Unauthorized)
        } else if amount > self.pool.spec_unreserved() {
            Some(ErrorMsg::AlreadyReserved)
        } else if bump is None {
            Some(ErrorMsg::AccountNotFound)
        } else {
            spec_transfer_reject(self.pool_vault, self.user_vault, self.pool_key, amount)
        }
    }

    /// The records after `amount` was withdrawn from the pool.
    pub open spec fn spec_withdrawn(&self, amount: u64) -> FundPool {
        FundPool {
            pool: FarmPoolAccount {
                amount_reward: (self.pool.amount_reward - amount) as u64,
                ..self.pool
            },
            pool_vault: TokenAccount {
                amount: (self.pool_vault.amount - amount) as u64,
                ..self.pool_vault
            },
            user_vault: TokenAccount {
                amount: (self.user_vault.amount + amount) as u64,
                ..self.user_vault
            },
            ..*self
        }
    }

    /// The token movement of a withdrawal: out of the vault to the admin,
    /// on the pool's authority.
    pub open spec fn spec_withdraw_order(&self, amount: u64, bump: u8) -> Transfer {
        Transfer {
            from: self.pool_vault.key,
            to: self.user_vault.key,
            authority: self.pool_key,
            amount,
            signer: Some(
                PoolSigner { token_mint: self.state.token_mint, index: self.pool.index, bump },
            ),
        }
    }
}

/// Adds `amount` to the pool's reward budget and moves it from the admin
/// into the vault. A rejected funding changes nothing.
pub fn fund_pool(ctx: &mut FundPool, amount: u64) -> (r: Result<Transfer, ErrorMsg>)
    ensures
        match r {
            Ok(order) => {
                &&& old(ctx).spec_fund_reject(amount) is None
                &&& *final(ctx) == old(ctx).spec_funded(amount)
                &&& order == old(ctx).spec_fund_order(amount)
            },
            Err(e) => old(ctx).spec_fund_reject(amount) == Some(e) && *final(ctx) == *old(ctx),
        },
        old(ctx).pool.wf() ==> final(ctx).pool.wf(),
        final(ctx).pool.inc_stakes == old(ctx).pool.inc_stakes,
{
    if ctx.state.authority != ctx.authority || ctx.user_vault.owner != ctx.authority
        || ctx.pool_vault.key != ctx.pool.vault {
        return Err(ErrorMsg::Unauthorized);
    }
    let amount_reward: u64 = match ctx.pool.amount_reward.checked_add(amount) {
        Some(amount_reward) => amount_reward,
        None => {
            return Err(ErrorMsg::Overflow);
        },
    };
    let mut user_vault = ctx.user_vault;
    let mut pool_vault = ctx.pool_vault;
    match transfer(&mut user_vault, &mut pool_vault, &ctx.authority, amount) {
        Ok(()) => {},
        Err(e) => {
            return Err(e);
        },
    }
    let order = Transfer {
        from: ctx.user_vault.key,
        to: ctx.pool_vault.key,
        authority: ctx.authority,
        amount,
        signer: None,
    };
    ctx.pool.amount_reward = amount_reward;
    ctx.user_vault = user_vault;
    ctx.pool_vault = pool_vault;
    Ok(order)
}

/// Withdraws `amount` of the unreserved surplus with the pool's bump seed
/// in hand. A rejected withdrawal changes nothing.
pub fn withdraw_pool_with_bump(ctx: &mut FundPool, amount: u64, bump: Option<u8>) -> (r: Result<
    Transfer,
    ErrorMsg,
>)
    ensures
        match r {
            Ok(order) => {
                &&& old(ctx).spec_withdraw_reject(amount, bump) is None
                &&& bump matches Some(b)
                &&& order == old(ctx).spec_withdraw_order(amount, b)
                &&& *final(ctx) == old(ctx).spec_withdrawn(amount)
            },
            Err(e) => old(ctx).spec_withdraw_reject(amount, bump) == Some(e) && *final(ctx)
                == *old(ctx),
        },
        old(ctx).pool.wf() ==> final(ctx).pool.wf(),
        final(ctx).pool.inc_stakes == old(ctx).pool.inc_stakes,
{
    if ctx.state.authority != ctx.authority || ctx.user_vault.owner != ctx.authority
        || ctx.pool_vault.key != ctx.pool.vault {
        return Err(ErrorMsg::Unauthorized);
    }
    if ctx.pool.amount_reward < ctx.pool.amount_reward_reserved || ctx.pool.amount_reward
        - ctx.pool.amount_reward_reserved < amount {
        return Err(ErrorMsg::AlreadyReserved);
    }
    let bump: u8 = match bump {
        Some(bump) => bump,
        None => {
            return Err(ErrorMsg::AccountNotFound);
        },
    };
    let mut pool_vault = ctx.pool_vault;
    let mut user_vault = ctx.user_vault;
    match transfer(&mut pool_vault, &mut user_vault, &ctx.pool_key, amount) {
        Ok(()) => {},
        Err(e) => {
            return Err(e);
        },
    }
    let order = Transfer {
        from: ctx.pool_vault.key,
        to: ctx.user_vault.key,
        authority: ctx.pool_key,
        amount,
        signer: Some(
            PoolSigner { token_mint: ctx.state.token_mint, index: ctx.pool.index, bump },
        ),
    };
    ctx.pool.amount_reward = ctx.pool.amount_reward - amount;
    ctx.pool_vault = pool_vault;
    ctx.user_vault = user_vault;
    Ok(order)
}

/// Withdraws `amount` from the pool's reward budget to the admin. Only what
/// is promised to no position can be withdrawn. The pool signs for its vault
/// with the bump seed of its derived address.
pub fn withdraw_pool(ctx: &mut FundPool, amount: u64) -> (r: Result<Transfer, ErrorMsg>)
    ensures
        ({
            let bump = spec_bump(spec_pool_seeds(old(ctx).state.token_mint, old(ctx).pool.index));
            match r {
                Ok(order) => {
                    &&& old(ctx).spec_withdraw_reject(amount, bump) is None
                    &&& bump matches Some(b)
                    &&& order == old(ctx).spec_withdraw_order(amount, b)
                    &&& *final(ctx) == old(ctx).spec_withdrawn(amount)
                },
                Err(e) => old(ctx).spec_withdraw_reject(amount, bump) == Some(e) && *final(ctx)
                    == *old(ctx),
            }
        }),
        old(ctx).pool.wf() ==> final(ctx).pool.wf(),
        final(ctx).pool.inc_stakes == old(ctx).pool.inc_stakes,
{
    let bump = pool_bump(&ctx.state.token_mint, ctx.pool.index);
    withdraw_pool_with_bump(ctx, amount, bump)
}

} // verus!
