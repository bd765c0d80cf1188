use crate::accounts::{StakedInfo, StateAccount, TokenAccount};
use crate::address::{pool_address, spec_address, spec_pool_seeds, spec_vault_seeds, vault_address};
use crate::admin::create_state;
use crate::context::{Clock, CreateFarmPool, CreateState, FundPool, Stake, Unstake};
use crate::error::ErrorMsg;
use crate::key::Key;
use crate::accounts::FarmPoolAccount;
use crate::model::{
    lemma_add_pool, lemma_close_position, lemma_open_position, lemma_precedes_reflexive,
    lemma_update_pool, CustodianView, PoolEntry,
};
use crate::token::Transfer;
use vstd::prelude::*;

verus! {

/// The custodian of a deployment: it keeps the registry, the pools with
/// their vaults, and the active positions, and applies each operation to
/// the records that the operation names.
pub struct Custodian {
    state: StateAccount,
    pools: Vec<PoolEntry>,
    positions: Vec<StakedInfo>,
}

impl View for Custodian {
    type V = CustodianView;

    closed spec fn view(&self) -> CustodianView {
        CustodianView { state: self.state, pools: self.pools@, positions: self.positions@ }
    }
}

impl Custodian {
    /// Creates the registry of a deployment, with `authority` as its admin
    /// and `token_mint` as its reward token, and with it a custodian that
    /// has no pool yet.
    pub fn new(authority: Key, token_mint: Key, clock: Clock) -> (c: Custodian)
        ensures
            c@.wf(),
            c@.state == (StateAccount { authority, token_mint, start_time: clock.unix_timestamp }),
            c@.pools.len() == 0,
            c@.positions.len() == 0,
    {
        let mut ctx = CreateState {
            state: StateAccount { authority: Key::zero(), token_mint: Key::zero(), start_time: 0 },
            token_mint,
            authority,
            clock,
        };
        let _ = create_state(&mut ctx);
        Custodian { state: ctx.state, pools: Vec::new(), positions: Vec::new() }
    }

    /// The registry.
    pub fn state(&self) -> (s: StateAccount)
        ensures
            s == self@.state,
    {
        self.state
    }

    /// How many pools there are.
    pub fn pool_count(&self) -> (n: usize)
        ensures
            n == self@.pools.len(),
    {
        self.pools.len()
    }

    /// How many positions are active, over all pools.
    pub fn position_count(&self) -> (n: usize)
        ensures
            n == self@.positions.len(),
    {
        self.positions.len()
    }

    /// The place of the pool with `index`, if there is one.
    fn find_pool(&self, index: u8) -> (r: Option<usize>)
        requires
            self@.wf(),
        ensures
            match r {
                Some(j) => j < self@.pools.len() && self@.pools[j as int].pool.index == index
                    && self@.slot(index) == j && self@.has_pool(index),
                None => !self@.has_pool(index),
            },
    {
        let mut j: usize = 0;
        while j < self.pools.len()
            invariant
                self@.wf(),
                j <= self.pools.len(),
                forall|k: int| 0 <= k < j ==> (#[trigger] self.pools@[k]).pool.index != index,
            decreases self.pools.len() - j,
        {
            if self.pools[j].pool.index == index {
                proof {
                    let view = self@;
                    assert(view.pools[j as int].pool.index == index);
                    let chosen = view.slot(index);
                    assert(0 <= chosen < view.pools.len());
                    assert(view.pools[chosen].pool.index == index);
                    if chosen < j {
                        assert(view.pools[chosen].pool.index != view.pools[j as int].pool.index);
                    } else if chosen > j {
                        assert(view.pools[j as int].pool.index != view.pools[chosen].pool.index);
                    }
                }
                return Some(j);
            }
            j = j + 1;
        }
        None
    }

    /// The place of the active position `(pool, stake_index)`, if there is
    /// one.
    fn find_position(&self, pool: &Key, stake_index: u64) -> (r: Option<usize>)
        requires
            self@.wf(),
        ensures
            match r {
                Some(i) => i < self@.positions.len() && self@.positions[i as int].pool == *pool
                    && self@.positions[i as int].stake_index == stake_index && self@.place(
                    *pool,
                    stake_index,
                ) == i && self@.active(*pool, stake_index),
                None => !self@.active(*pool, stake_index),
            },
    {
        let mut i: usize = 0;
        while i < self.positions.len()
            invariant
                self@.wf(),
                i <= self.positions.len(),
                forall|k: int|
                    0 <= k < i ==> !((#[trigger] self.positions@[k]).pool == *pool
                        && self.positions@[k].stake_index == stake_index),
            decreases self.positions.len() - i,
        {
            if self.positions[i].pool == *pool && self.positions[i].stake_index == stake_index {
                proof {
                    let view = self@;
                    assert(view.positions[i as int].pool == *pool);
                    let chosen = view.place(*pool, stake_index);
                    assert(0 <= chosen < view.positions.len() && view.positions[chosen].pool
                        == *pool && view.positions[chosen].stake_index == stake_index);
                    if chosen < i {
                        assert(view.positions[chosen].stake_index
                            != view.positions[i as int].stake_index);
                    } else if chosen > i {
                        assert(view.positions[i as int].stake_index
                            != view.positions[chosen].stake_index);
                    }
                }
                return Some(i);
            }
            i = i + 1;
        }
        None
    }

    /// The pool with `index`, as the custodian keeps it.
    pub fn pool(&self, index: u8) -> (r: Option<PoolEntry>)
        requires
            self@.wf(),
        ensures
            match r {
                Some(entry) => self@.has_pool(index) && entry == self@.pools[self@.slot(index)],
                None => !self@.has_pool(index),
            },
    {
        match self.find_pool(index) {
            Some(j) => Some(self.pools[j]),
            None => None,
        }
    }

    /// The active position with `stake_index` in the pool with `index`.
    pub fn position(&self, index: u8, stake_index: u64) -> (r: Option<StakedInfo>)
        requires
            self@.wf(),
        ensures
            match r {
                Some(position) => {
                    &&& self@.has_pool(index)
                    &&& self@.active(self@.pools[self@.slot(index)].key, stake_index)
                    &&& position == self@.positions[self@.place(
                        self@.pools[self@.slot(index)].key,
                        stake_index,
                    )]
                },
                None => !self@.has_pool(index) || !self@.active(
                    self@.pools[self@.slot(index)].key,
                    stake_index,
                ),
            },
    {
        match self.find_pool(index) {
            Some(j) => match self.find_position(&self.pools[j].key, stake_index) {
                Some(i) => Some(self.positions[i]),
                None => None,
            },
            None => None,
        }
    }

    /// Whether a pool is stored under the address `key`.
    fn find_key(&self, key: &Key) -> (r: bool)
        ensures
            r == self@.has_key(*key),
    {
        let mut j: usize = 0;
        while j < self.pools.len()
            invariant
                j <= self.pools.len(),
                forall|k: int| 0 <= k < j ==> (#[trigger] self.pools@[k]).key != *key,
            decreases self.pools.len() - j,
        {
            if self.pools[j].key == *key {
                assert(self@.pools[j as int].key == *key);
                return true;
            }
            j = j + 1;
        }
        false
    }

    /// Creates the pool with `index`, with the derived addresses of the pool
    /// and of its vault in hand. Only the registry's admin may create a
    /// pool, once per index. A rejected creation changes nothing.
    pub fn create_pool_at(
        &mut self,
        authority: &Key,
        mint: &Key,
        index: u8,
        apy: u8,
        min_stake_amount: u64,
        lock_duration: i64,
        pool_address: Option<(Key, u8)>,
        vault_address: Option<(Key, u8)>,
    ) -> (r: Result<(), ErrorMsg>)
        requires
            old(self)@.wf(),
        ensures
            final(self)@.wf(),
            old(self)@.precedes(final(self)@),
            final(self)@ == old(self)@.after_create_pool(
                *authority,
                *mint,
                index,
                apy,
                min_stake_amount,
                lock_duration,
                pool_address,
                vault_address,
            ),
            match r {
                Ok(()) => {
                    &&& old(self)@.create_pool_reject(
                        *authority,
                        *mint,
                        index,
                        lock_duration,
                        pool_address,
                        vault_address,
                    ) is None
                    &&& final(self)@.has_pool(index)
                },
                Err(e) => {
                    &&& old(self)@.create_pool_reject(
                        *authority,
                        *mint,
                        index,
                        lock_duration,
                        pool_address,
                        vault_address,
                    ) == Some(e)
                    &&& final(self)@ == old(self)@
                },
            },
    {
        proof {
            lemma_precedes_reflexive(self@);
        }
        if *authority != self.state.authority {
            return Err(ErrorMsg::Unauthorized);
        }
        if *mint != self.state.token_mint {
            return Err(ErrorMsg::TokenMismatch);
        }
        if self.find_pool(index).is_some() {
            return Err(ErrorMsg::DuplicatePool);
        }
        if lock_duration < 0 {
            return Err(ErrorMsg::Overflow);
        }
        let (pool_key, bump, vault_key) = match (pool_address, vault_address) {
            (Some((pool_key, bump)), Some((vault_key, _))) => (pool_key, bump, vault_key),
            _ => {
                return Err(ErrorMsg::AccountNotFound);
            },
        };
        if self.find_key(&pool_key) {
            return Err(ErrorMsg::DuplicatePool);
        }
        let blank = TokenAccount { key: vault_key, mint: *mint, owner: pool_key, amount: 0 };
        let mut ctx = CreateFarmPool {
            pool: FarmPoolAccount {
                authority: *authority,
                amount_staked: 0,
                amount_reward: 0,
                amount_reward_reserved: 0,
                min_stake_amount: 0,
                vault: vault_key,
                count_stakes: 0,
                inc_stakes: 0,
                lock_duration: 0,
                apy: 0,
                index: 0,
            },
            pool_key,
            state: self.state,
            vault: blank,
            mint: *mint,
            authority: *authority,
        };
        match crate::admin::create_pool(&mut ctx, index, apy, min_stake_amount, lock_duration) {
            Ok(()) => {
                let entry = PoolEntry { key: pool_key, bump, pool: ctx.pool, vault: ctx.vault };
                proof {
                    lemma_add_pool(self@, entry);
                }
                self.pools.push(entry);
                Ok(())
            },
            Err(e) => Err(e),
        }
    }

    /// Creates the pool with `index` under the registry, with its immutable
    /// parameters, all counters at zero and a fresh vault. The addresses of
    /// the pool and of its vault are derived from the reward token and the
    /// index.
    pub fn create_pool(
        &mut self,
        authority: &Key,
        mint: &Key,
        index: u8,
        apy: u8,
        min_stake_amount: u64,
        lock_duration: i64,
    ) -> (r: Result<(), ErrorMsg>)
        requires
            old(self)@.wf(),
        ensures
            final(self)@.wf(),
            old(self)@.precedes(final(self)@),
            ({
                let pool_address = spec_address(
                    spec_pool_seeds(old(self)@.state.token_mint, index),
                );
                let vault_address = match pool_address {
                    Some((pool_key, _)) => spec_address(spec_vault_seeds(*mint, pool_key)),
                    None => None,
                };
                &&& final(self)@ == old(self)@.after_create_pool(
                    *authority,
                    *mint,
                    index,
                    apy,
                    min_stake_amount,
                    lock_duration,
                    pool_address,
                    vault_address,
                )
                &&& match r {
                    Ok(()) => {
                        &&& old(self)@.create_pool_reject(
                            *authority,
                            *mint,
                            index,
                            lock_duration,
                            pool_address,
                            vault_address,
                        ) is None
                        &&& final(self)@.has_pool(index)
                    },
                    Err(e) => {
                        &&& old(self)@.create_pool_reject(
                            *authority,
                            *mint,
                            index,
                            lock_duration,
                            pool_address,
                            vault_address,
                        ) == Some(e)
                        &&& final(self)@ == old(self)@
                    },
                }
            }),
    {
        let found_pool = pool_address(&self.state.token_mint, index);
        let found_vault = match found_pool {
            Some((pool_key, _)) => vault_address(mint, &pool_key),
            None => None,
        };
        self.create_pool_at(
            authority,
            mint,
            index,
            apy,
            min_stake_amount,
            lock_duration,
            found_pool,
            found_vault,
        )
    }

    /// Funds the pool with `index` from the admin's token account.
    pub fn fund_pool(
        &mut self,
        authority: &Key,
        index: u8,
        user_vault: &mut TokenAccount,
        amount: u64,
    ) -> (r: Result<Transfer, ErrorMsg>)
        requires
            old(self)@.wf(),
        ensures
            final(self)@.wf(),
            old(self)@.precedes(final(self)@),
            final(self)@ == old(self)@.after_fund(*authority, index, *old(user_vault), amount),
            r is Err ==> final(self)@ == old(self)@ && *final(user_vault) == *old(user_vault),
            !old(self)@.has_pool(index) ==> r == Err::<Transfer, ErrorMsg>(
                ErrorMsg::AccountNotFound,
            ),
            old(self)@.has_pool(index) ==> ({
                let j = old(self)@.slot(index);
                let ctx = old(self)@.fund_ctx(j, *authority, *old(user_vault));
                match r {
                    Ok(order) => {
                        &&& ctx.spec_fund_reject(amount) is None
                        &&& order == ctx.spec_fund_order(amount)
                        &&& *final(user_vault) == ctx.spec_funded(amount).user_vault
                    },
                    Err(e) => ctx.spec_fund_reject(amount) == Some(e),
                }
            }),
    {
        proof {
            lemma_precedes_reflexive(self@);
        }
        let j: usize = match self.find_pool(index) {
            Some(j) => j,
            None => {
                return Err(ErrorMsg::AccountNotFound);
            },
        };
        let entry = self.pools[j];
        let mut ctx = FundPool {
            state: self.state,
            pool: entry.pool,
            pool_key: entry.key,
            authority: *authority,
            pool_vault: entry.vault,
            user_vault: *user_vault,
        };
        match crate::admin::fund_pool(&mut ctx, amount) {
            Ok(order) => {
                proof {
                    assert(self@.pools[j as int].wf(self@.state, self@.positions));
                    lemma_update_pool(self@, j as int, ctx.pool, ctx.pool_vault);
                }
                self.pools[j] = PoolEntry { pool: ctx.pool, vault: ctx.pool_vault, ..entry };
                *user_vault = ctx.user_vault;
                assert(self@.pools =~= old(self)@.with_pool(
                    j as int,
                    ctx.pool,
                    ctx.pool_vault,
                ).pools);
                Ok(order)
            },
            Err(e) => Err(e),
        }
    }

    /// Withdraws unreserved reward budget of the pool with `index` to the
    /// admin's token account.
    pub fn withdraw_pool(
        &mut self,
        authority: &Key,
        index: u8,
        user_vault: &mut TokenAccount,
        amount: u64,
    ) -> (r: Result<Transfer, ErrorMsg>)
        requires
            old(self)@.wf(),
        ensures
            final(self)@.wf(),
            old(self)@.precedes(final(self)@),
            final(self)@ == old(self)@.after_withdraw(*authority, index, *old(user_vault), amount),
            r is Err ==> final(self)@ == old(self)@ && *final(user_vault) == *old(user_vault),
            !old(self)@.has_pool(index) ==> r == Err::<Transfer, ErrorMsg>(
                ErrorMsg::AccountNotFound,
            ),
            old(self)@.has_pool(index) ==> ({
                let j = old(self)@.slot(index);
                let bump = old(self)@.pools[j].bump;
                let ctx = old(self)@.fund_ctx(j, *authority, *old(user_vault));
                match r {
                    Ok(order) => {
                        &&& ctx.spec_withdraw_reject(amount, Some(bump)) is None
                        &&& order == ctx.spec_withdraw_order(amount, bump)
                        &&& *final(user_vault) == ctx.spec_withdrawn(amount).user_vault
                    },
                    Err(e) => ctx.spec_withdraw_reject(amount, Some(bump)) == Some(e),
                }
            }),
    {
        proof {
            lemma_precedes_reflexive(self@);
        }
        let j: usize = match self.find_pool(index) {
            Some(j) => j,
            None => {
                return Err(ErrorMsg::AccountNotFound);
            },
        };
        let entry = self.pools[j];
        let mut ctx = FundPool {
            state: self.state,
            pool: entry.pool,
            pool_key: entry.key,
            authority: *authority,
            pool_vault: entry.vault,
            user_vault: *user_vault,
        };
        match crate::admin::withdraw_pool_with_bump(&mut ctx, amount, Some(entry.bump)) {
            Ok(order) => {
                proof {
                    assert(self@.pools[j as int].wf(self@.state, self@.positions));
                    lemma_update_pool(self@, j as int, ctx.pool, ctx.pool_vault);
                }
                self.pools[j] = PoolEntry { pool: ctx.pool, vault: ctx.pool_vault, ..entry };
                *user_vault = ctx.user_vault;
                assert(self@.pools =~= old(self)@.with_pool(
                    j as int,
                    ctx.pool,
                    ctx.pool_vault,
                ).pools);
                Ok(order)
            },
            Err(e) => Err(e),
        }
    }

    /// Stakes `amount` from the caller's token account in the pool with
    /// `index`, and returns the position that this creates.
    pub fn stake(
        &mut self,
        authority: &Key,
        index: u8,
        user_vault: &mut TokenAccount,
        amount: u64,
        clock: Clock,
    ) -> (r: Result<StakedInfo, ErrorMsg>)
        requires
            old(self)@.wf(),
        ensures
            final(self)@.wf(),
            old(self)@.precedes(final(self)@),
            final(self)@ == old(self)@.after_stake(
                *authority,
                index,
                *old(user_vault),
                amount,
                clock,
            ),
            r is Err ==> final(self)@ == old(self)@ && *final(user_vault) == *old(user_vault),
            !old(self)@.has_pool(index) ==> r == Err::<StakedInfo, ErrorMsg>(
                ErrorMsg::AccountNotFound,
            ),
            old(self)@.has_pool(index) ==> ({
                let j = old(self)@.slot(index);
                let ctx = old(self)@.stake_ctx(j, *authority, *old(user_vault), clock);
                match r {
                    Ok(position) => {
                        &&& ctx.spec_reject(amount) is None
                        &&& position == ctx.spec_position(amount)
                        &&& *final(user_vault) == ctx.spec_after(amount).user_vault
                        &&& !old(self)@.issued(position.pool, position.stake_index)
                        &&& final(self)@.active(position.pool, position.stake_index)
                    },
                    Err(e) => ctx.spec_reject(amount) == Some(e),
                }
            }),
    {
        proof {
            lemma_precedes_reflexive(self@);
        }
        let j: usize = match self.find_pool(index) {
            Some(j) => j,
            None => {
                return Err(ErrorMsg::AccountNotFound);
            },
        };
        let entry = self.pools[j];
        let mut ctx = Stake {
            staked_info: StakedInfo {
                pool: entry.key,
                authority: *authority,
                amount: 0,
                reward_amount: 0,
                staked_time: 0,
                stake_index: 0,
            },
            state: self.state,
            pool: entry.pool,
            pool_key: entry.key,
            authority: *authority,
            pool_vault: entry.vault,
            user_vault: *user_vault,
            clock,
        };
        match crate::stake::stake(&mut ctx, amount) {
            Ok(_) => {
                proof {
                    assert(self@.pools[j as int].wf(self@.state, self@.positions));
                    lemma_open_position(
                        self@,
                        j as int,
                        ctx.pool,
                        ctx.pool_vault,
                        ctx.staked_info,
                    );
                }
                self.pools[j] = PoolEntry { pool: ctx.pool, vault: ctx.pool_vault, ..entry };
                self.positions.push(ctx.staked_info);
                *user_vault = ctx.user_vault;
                assert(self@.pools =~= old(self)@.with_pool(
                    j as int,
                    ctx.pool,
                    ctx.pool_vault,
                ).pools);
                Ok(ctx.staked_info)
            },
            Err(e) => Err(e),
        }
    }

    /// Cancels the position with `stake_index` in the pool with `index`:
    /// pays the principal into the caller's token account and removes the
    /// position.
    pub fn cancel_stake(
        &mut self,
        authority: &Key,
        index: u8,
        stake_index: u64,
        user_vault: &mut TokenAccount,
        clock: Clock,
    ) -> (r: Result<Transfer, ErrorMsg>)
        requires
            old(self)@.wf(),
        ensures
            final(self)@.wf(),
            old(self)@.precedes(final(self)@),
            final(self)@ == old(self)@.after_cancel(
                *authority,
                index,
                stake_index,
                *old(user_vault),
                clock,
            ),
            r is Err ==> final(self)@ == old(self)@ && *final(user_vault) == *old(user_vault),
            !old(self)@.has_pool(index) ==> r == Err::<Transfer, ErrorMsg>(
                ErrorMsg::AccountNotFound,
            ),
            old(self)@.has_pool(index) ==> ({
                let j = old(self)@.slot(index);
                let key = old(self)@.pools[j].key;
                let bump = old(self)@.pools[j].bump;
                if !old(self)@.active(key, stake_index) {
                    r == Err::<Transfer, ErrorMsg>(ErrorMsg::AccountNotFound)
                } else {
                    let i = old(self)@.place(key, stake_index);
                    let ctx = old(self)@.unstake_ctx(j, i, *authority, *old(user_vault), clock);
                    let paid = ctx.spec_paid(ctx.spec_cancel_pool(), ctx.staked_info.amount);
                    match r {
                        Ok(order) => {
                            &&& ctx.spec_cancel_reject(Some(bump)) is None
                            &&& order == ctx.spec_order(ctx.staked_info.amount, bump)
                            &&& *final(user_vault) == paid.user_vault
                            &&& final(self)@.settled(key, stake_index)
                        },
                        Err(e) => ctx.spec_cancel_reject(Some(bump)) == Some(e),
                    }
                }
            }),
    {
        proof {
            lemma_precedes_reflexive(self@);
        }
        let j: usize = match self.find_pool(index) {
            Some(j) => j,
            None => {
                return Err(ErrorMsg::AccountNotFound);
            },
        };
        let entry = self.pools[j];
        let i: usize = match self.find_position(&entry.key, stake_index) {
            Some(i) => i,
            None => {
                return Err(ErrorMsg::AccountNotFound);
            },
        };
        let mut ctx = Unstake {
            staked_info: self.positions[i],
            state: self.state,
            pool: entry.pool,
            pool_key: entry.key,
            authority: *authority,
            pool_vault: entry.vault,
            user_vault: *user_vault,
            clock,
        };
        match crate::unstake::cancel_stake_with_bump(&mut ctx, Some(entry.bump)) {
            Ok(order) => {
                proof {
                    assert(self@.pools[j as int].wf(self@.state, self@.positions));
                    lemma_close_position(self@, j as int, i as int, ctx.pool, ctx.pool_vault);
                }
                self.pools[j] = PoolEntry { pool: ctx.pool, vault: ctx.pool_vault, ..entry };
                self.positions.remove(i);
                *user_vault = ctx.user_vault;
                assert(self@.pools =~= old(self)@.with_pool(
                    j as int,
                    ctx.pool,
                    ctx.pool_vault,
                ).pools);
                Ok(order)
            },
            Err(e) => Err(e),
        }
    }

    /// Claims the position with `stake_index` in the pool with `index`:
    /// once its lock has elapsed, pays principal and reward into the
    /// caller's token account and removes the position.
    pub fn claim_stake(
        &mut self,
        authority: &Key,
        index: u8,
        stake_index: u64,
        user_vault: &mut TokenAccount,
        clock: Clock,
    ) -> (r: Result<Transfer, ErrorMsg>)
        requires
            old(self)@.wf(),
        ensures
            final(self)@.wf(),
            old(self)@.precedes(final(self)@),
            final(self)@ == old(self)@.after_claim(
                *authority,
                index,
                stake_index,
                *old(user_vault),
                clock,
            ),
            r is Err ==> final(self)@ == old(self)@ && *final(user_vault) == *old(user_vault),
            !old(self)@.has_pool(index) ==> r == Err::<Transfer, ErrorMsg>(
                ErrorMsg::AccountNotFound,
            ),
            old(self)@.has_pool(index) ==> ({
                let j = old(self)@.slot(index);
                let key = old(self)@.pools[j].key;
                let bump = old(self)@.pools[j].bump;
                if !old(self)@.active(key, stake_index) {
                    r == Err::<Transfer, ErrorMsg>(ErrorMsg::AccountNotFound)
                } else {
                    let i = old(self)@.place(key, stake_index);
                    let ctx = old(self)@.unstake_ctx(j, i, *authority, *old(user_vault), clock);
                    let paid = ctx.spec_paid(ctx.spec_claim_pool(), ctx.spec_payout() as u64);
                    match r {
                        Ok(order) => {
                            &&& ctx.spec_claim_reject(Some(bump)) is None
                            &&& order == ctx.spec_order(ctx.spec_payout() as u64, bump)
                            &&& *final(user_vault) == paid.user_vault
                            &&& final(self)@.settled(key, stake_index)
                        },
                        Err(e) => ctx.spec_claim_reject(Some(bump)) == Some(e),
                    }
                }
            }),
    {
        proof {
            lemma_precedes_reflexive(self@);
        }
        let j: usize = match self.find_pool(index) {
            Some(j) => j,
            None => {
                return Err(ErrorMsg::AccountNotFound);
            },
        };
        let entry = self.pools[j];
        let i: usize = match self.find_position(&entry.key, stake_index) {
            Some(i) => i,
            None => {
                return Err(ErrorMsg::AccountNotFound);
            },
        };
        let mut ctx = Unstake {
            staked_info: self.positions[i],
            state: self.state,
            pool: entry.pool,
            pool_key: entry.key,
            authority: *authority,
            pool_vault: entry.vault,
            user_vault: *user_vault,
            clock,
        };
        match crate::unstake::claim_stake_with_bump(&mut ctx, Some(entry.bump)) {
            Ok(order) => {
                proof {
                    assert(self@.pools[j as int].wf(self@.state, self@.positions));
                    lemma_close_position(self@, j as int, i as int, ctx.pool, ctx.pool_vault);
                }
                self.pools[j] = PoolEntry { pool: ctx.pool, vault: ctx.pool_vault, ..entry };
                self.positions.remove(i);
                *user_vault = ctx.user_vault;
                assert(self@.pools =~= old(self)@.with_pool(
                    j as int,
                    ctx.pool,
                    ctx.pool_vault,
                ).pools);
                Ok(order)
            },
            Err(e) => Err(e),
        }
    }
}

} // verus!
