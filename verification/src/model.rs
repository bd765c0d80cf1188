use crate::accounts::{FarmPoolAccount, StakedInfo, StateAccount, TokenAccount};
use crate::context::{Clock, FundPool, Stake, Unstake};
use crate::error::ErrorMsg;
use crate::key::Key;
use crate::reward::lemma_reward_rounds_down;
use crate::tally::{
    lemma_tally_covers, lemma_tally_of_none, lemma_tally_push, lemma_tally_remove, tally,
};
use vstd::prelude::*;

verus! {

/// A pool as the custodian keeps it: the pool's ledger with the pool's
/// derived address and its vault.
#[derive(Clone, Copy, Debug, PartialEq, Eq)]
pub struct PoolEntry {
    /// Address of the pool, derived from the reward token and the index.
    pub key: Key,
    /// Bump seed of that address.
    pub bump: u8,
    pub pool: FarmPoolAccount,
    /// The pool's vault.
    pub vault: TokenAccount,
}

/// The custodian as a value: the registry, the pools in the order of their
/// creation, and the active positions of all pools.
pub struct CustodianView {
    pub state: StateAccount,
    pub pools: Seq<PoolEntry>,
    pub positions: Seq<StakedInfo>,
}

/// An operation on the custodian, with everything that it reads from
/// outside: the caller, the caller's token account, the clock, and for a new
/// pool the derived addresses.
pub enum Operation {
    CreatePool {
        authority: Key,
        mint: Key,
        index: u8,
        apy: u8,
        min_stake_amount: u64,
        lock_duration: i64,
        pool_address: Option<(Key, u8)>,
        vault_address: Option<(Key, u8)>,
    },
    Fund { authority: Key, index: u8, user_vault: TokenAccount, amount: u64 },
    Withdraw { authority: Key, index: u8, user_vault: TokenAccount, amount: u64 },
    Stake { authority: Key, index: u8, user_vault: TokenAccount, amount: u64, clock: Clock },
    Cancel { authority: Key, index: u8, stake_index: u64, user_vault: TokenAccount, clock: Clock },
    Claim { authority: Key, index: u8, stake_index: u64, user_vault: TokenAccount, clock: Clock },
}

impl PoolEntry {
    /// What holds of every pool of a custodian with registry `state` and
    /// active positions `positions`.
    pub open spec fn wf(self, state: StateAccount, positions: Seq<StakedInfo>) -> bool {
        let sums = tally(positions, self.key);
        &&& self.pool.wf()
        &&& self.pool.vault == self.vault.key
        &&& self.vault.owner == self.key
        &&& self.vault.mint == state.token_mint
        &&& self.pool.count_stakes == sums.count
        &&& self.pool.amount_staked == sums.principal
        &&& self.pool.amount_reward_reserved == sums.reward
        &&& self.vault.amount == self.pool.amount_staked + self.pool.amount_reward
    }

    /// Whether `next` is the same pool at a later time: its address and
    /// parameters are unchanged and its sequence number has not gone back.
    pub open spec fn precedes(self, next: PoolEntry) -> bool {
        &&& next.key == self.key
        &&& next.bump == self.bump
        &&& next.pool.authority == self.pool.authority
        &&& next.pool.vault == self.pool.vault
        &&& next.pool.index == self.pool.index
        &&& next.pool.apy == self.pool.apy
        &&& next.pool.lock_duration == self.pool.lock_duration
        &&& next.pool.min_stake_amount == self.pool.min_stake_amount
        &&& next.pool.inc_stakes >= self.pool.inc_stakes
    }
}

impl CustodianView {
    /// What holds of a custodian after every operation.
    pub open spec fn wf(self) -> bool {
        &&& forall|j: int|
            0 <= j < self.pools.len() ==> (#[trigger] self.pools[j]).wf(
                self.state,
                self.positions,
            )
        &&& forall|j: int, k: int|
            0 <= j < k < self.pools.len() ==> (#[trigger] self.pools[j]).pool.index != (
            #[trigger] self.pools[k]).pool.index
        &&& forall|j: int, k: int|
            0 <= j < k < self.pools.len() ==> (#[trigger] self.pools[j]).key != (
            #[trigger] self.pools[k]).key
        &&& forall|i: int, j: int|
            0 <= i < self.positions.len() && 0 <= j < self.pools.len() && (
            #[trigger] self.positions[i]).pool == (#[trigger] self.pools[j]).key
                ==> self.positions[i].stake_index < self.pools[j].pool.inc_stakes
        &&& forall|i: int, k: int|
            0 <= i < k < self.positions.len() && (#[trigger] self.positions[i]).pool == (
            #[trigger] self.positions[k]).pool ==> self.positions[i].stake_index
                != self.positions[k].stake_index
        &&& forall|i: int|
            0 <= i < self.positions.len() ==> self.has_key((#[trigger] self.positions[i]).pool)
    }

    /// Whether a pool is stored under `index`.
    pub open spec fn has_pool(self, index: u8) -> bool {
        exists|j: int| 0 <= j < self.pools.len() && (#[trigger] self.pools[j]).pool.index == index
    }

    /// Whether the identity `(pool, stake_index)` has been issued: the pool
    /// exists and its sequence number has passed `stake_index`.
    pub open spec fn issued(self, pool: Key, stake_index: u64) -> bool {
        exists|j: int|
            0 <= j < self.pools.len() && (#[trigger] self.pools[j]).key == pool && stake_index
                < self.pools[j].pool.inc_stakes
    }

    /// Whether a position with the identity `(pool, stake_index)` is active.
    pub open spec fn active(self, pool: Key, stake_index: u64) -> bool {
        exists|i: int|
            0 <= i < self.positions.len() && (#[trigger] self.positions[i]).pool == pool
                && self.positions[i].stake_index == stake_index
    }

    /// Whether the position with the identity `(pool, stake_index)` has been
    /// settled: it was issued, and is active no more.
    pub open spec fn settled(self, pool: Key, stake_index: u64) -> bool {
        self.issued(pool, stake_index) && !self.active(pool, stake_index)
    }

    /// Whether `next` can be this custodian at a later time. Every
    /// operation, accepted or rejected, leads from a custodian to one that
    /// it precedes: the registry is unchanged, no pool disappears or changes
    /// its parameters, no sequence number goes back, and every active
    /// position either was active before or has an identity that had not
    /// been issued.
    pub open spec fn precedes(self, next: CustodianView) -> bool {
        &&& next.state == self.state
        &&& self.pools.len() <= next.pools.len()
        &&& forall|j: int|
            0 <= j < self.pools.len() ==> (#[trigger] self.pools[j]).precedes(next.pools[j])
        &&& forall|i: int|
            0 <= i < next.positions.len() ==> self.positions.contains(#[trigger] next.positions[i])
                || !self.issued(next.positions[i].pool, next.positions[i].stake_index)
    }
}

impl CustodianView {
    /// The place of the pool with `index` among the pools.
    pub open spec fn slot(self, index: u8) -> int {
        choose|j: int| 0 <= j < self.pools.len() && (#[trigger] self.pools[j]).pool.index == index
    }

    /// The place of the active position `(pool, stake_index)` among the
    /// positions.
    pub open spec fn place(self, pool: Key, stake_index: u64) -> int {
        choose|i: int|
            0 <= i < self.positions.len() && (#[trigger] self.positions[i]).pool == pool
                && self.positions[i].stake_index == stake_index
    }

    /// Whether a pool is stored under the address `key`.
    pub open spec fn has_key(self, key: Key) -> bool {
        exists|j: int| 0 <= j < self.pools.len() && (#[trigger] self.pools[j]).key == key
    }

    /// This custodian with the ledger and the vault of the pool at `j`
    /// replaced.
    pub open spec fn with_pool(
        self,
        j: int,
        pool: FarmPoolAccount,
        vault: TokenAccount,
    ) -> CustodianView {
        CustodianView {
            pools: self.pools.update(j, PoolEntry { pool, vault, ..self.pools[j] }),
            ..self
        }
    }

    /// Why the creation of a pool is rejected, if it is, given the derived
    /// addresses of the pool and of its vault. The checks come in this
    /// order: the caller is the admin, the token is the registry's, the
    /// index is free, the lock duration is not negative, both addresses
    /// could be derived, and the pool's address is free.
    pub open spec fn create_pool_reject(
        self,
        authority: Key,
        mint: Key,
        index: u8,
        lock_duration: i64,
        pool_address: Option<(Key, u8)>,
        vault_address: Option<(Key, u8)>,
    ) -> Option<ErrorMsg> {
        if authority != self.state.authority {
            Some(ErrorMsg::Unauthorized)
        } else if mint != self.state.token_mint {
            Some(ErrorMsg::TokenMismatch)
        } else if self.has_pool(index) {
            Some(ErrorMsg::DuplicatePool)
        } else if lock_duration < 0 {
            Some(ErrorMsg::Overflow)
        } else {
            match (pool_address, vault_address) {
                (Some((key, _)), Some(_)) => if self.has_key(key) {
                    Some(ErrorMsg::DuplicatePool)
                } else {
                    None
                },
                _ => Some(ErrorMsg::AccountNotFound),
            }
        }
    }

    /// The pool that an accepted creation adds: its parameters as given,
    /// every counter at zero, and an empty vault of the registry's token
    /// under the pool's authority.
    pub open spec fn created_pool(
        self,
        index: u8,
        apy: u8,
        min_stake_amount: u64,
        lock_duration: i64,
        pool_address: (Key, u8),
        vault_address: (Key, u8),
    ) -> PoolEntry {
        PoolEntry {
            key: pool_address.0,
            bump: pool_address.1,
            pool: FarmPoolAccount {
                authority: self.state.authority,
                amount_staked: 0,
                amount_reward: 0,
                amount_reward_reserved: 0,
                min_stake_amount,
                vault: vault_address.0,
                count_stakes: 0,
                inc_stakes: 0,
                lock_duration,
                apy,
                index,
            },
            vault: TokenAccount {
                key: vault_address.0,
                mint: self.state.token_mint,
                owner: pool_address.0,
                amount: 0,
            },
        }
    }

    /// This custodian with one pool more.
    pub open spec fn with_new_pool(self, entry: PoolEntry) -> CustodianView {
        CustodianView { pools: self.pools.push(entry), ..self }
    }

    /// This custodian after a stake in the pool at `j`: the pool's ledger and
    /// vault replaced, and `position` active.
    pub open spec fn opened(
        self,
        j: int,
        pool: FarmPoolAccount,
        vault: TokenAccount,
        position: StakedInfo,
    ) -> CustodianView {
        CustodianView {
            positions: self.positions.push(position),
            ..self.with_pool(j, pool, vault)
        }
    }

    /// This custodian after the position at `i`, of the pool at `j`, was
    /// settled: the pool's ledger and vault replaced, and the position gone.
    pub open spec fn closed(
        self,
        j: int,
        i: int,
        pool: FarmPoolAccount,
        vault: TokenAccount,
    ) -> CustodianView {
        CustodianView { positions: self.positions.remove(i), ..self.with_pool(j, pool, vault) }
    }

    /// The records that funding the pool at `j` or withdrawing from it
    /// touches.
    pub open spec fn fund_ctx(self, j: int, authority: Key, user_vault: TokenAccount) -> FundPool {
        FundPool {
            state: self.state,
            pool: self.pools[j].pool,
            pool_key: self.pools[j].key,
            authority,
            pool_vault: self.pools[j].vault,
            user_vault,
        }
    }

    /// The records that a stake in the pool at `j` touches.
    pub open spec fn stake_ctx(
        self,
        j: int,
        authority: Key,
        user_vault: TokenAccount,
        clock: Clock,
    ) -> Stake {
        Stake {
            staked_info: StakedInfo {
                pool: self.pools[j].key,
                authority,
                amount: 0,
                reward_amount: 0,
                staked_time: 0,
                stake_index: 0,
            },
            state: self.state,
            pool: self.pools[j].pool,
            pool_key: self.pools[j].key,
            authority,
            pool_vault: self.pools[j].vault,
            user_vault,
            clock,
        }
    }

    /// The records that settling the position at `i`, of the pool at `j`,
    /// touches.
    pub open spec fn unstake_ctx(
        self,
        j: int,
        i: int,
        authority: Key,
        user_vault: TokenAccount,
        clock: Clock,
    ) -> Unstake {
        Unstake {
            staked_info: self.positions[i],
            state: self.state,
            pool: self.pools[j].pool,
            pool_key: self.pools[j].key,
            authority,
            pool_vault: self.pools[j].vault,
            user_vault,
            clock,
        }
    }
}

impl CustodianView {
    /// This custodian after an attempt to create a pool.
    pub open spec fn after_create_pool(
        self,
        authority: Key,
        mint: Key,
        index: u8,
        apy: u8,
        min_stake_amount: u64,
        lock_duration: i64,
        pool_address: Option<(Key, u8)>,
        vault_address: Option<(Key, u8)>,
    ) -> CustodianView {
        match (
            self.create_pool_reject(
                authority,
                mint,
                index,
                lock_duration,
                pool_address,
                vault_address,
            ),
            pool_address,
            vault_address,
        ) {
            (None, Some(pool_found), Some(vault_found)) => self.with_new_pool(
                self.created_pool(
                    index,
                    apy,
                    min_stake_amount,
                    lock_duration,
                    pool_found,
                    vault_found,
                ),
            ),
            _ => self,
        }
    }

    /// This custodian after an attempt to fund the pool with `index`.
    pub open spec fn after_fund(
        self,
        authority: Key,
        index: u8,
        user_vault: TokenAccount,
        amount: u64,
    ) -> CustodianView {
        let j = self.slot(index);
        let ctx = self.fund_ctx(j, authority, user_vault);
        if self.has_pool(index) && ctx.spec_fund_reject(amount) is None {
            self.with_pool(j, ctx.spec_funded(amount).pool, ctx.spec_funded(amount).pool_vault)
        } else {
            self
        }
    }

    /// This custodian after an attempt to withdraw from the pool with
    /// `index`.
    pub open spec fn after_withdraw(
        self,
        authority: Key,
        index: u8,
        user_vault: TokenAccount,
        amount: u64,
    ) -> CustodianView {
        let j = self.slot(index);
        let ctx = self.fund_ctx(j, authority, user_vault);
        if self.has_pool(index) && ctx.spec_withdraw_reject(amount, Some(self.pools[j].bump))
            is None {
            self.with_pool(
                j,
                ctx.spec_withdrawn(amount).pool,
                ctx.spec_withdrawn(amount).pool_vault,
            )
        } else {
            self
        }
    }

    /// This custodian after an attempt to stake in the pool with `index`.
    pub open spec fn after_stake(
        self,
        authority: Key,
        index: u8,
        user_vault: TokenAccount,
        amount: u64,
        clock: Clock,
    ) -> CustodianView {
        let j = self.slot(index);
        let ctx = self.stake_ctx(j, authority, user_vault, clock);
        if self.has_pool(index) && ctx.spec_reject(amount) is None {
            self.opened(
                j,
                ctx.spec_after(amount).pool,
                ctx.spec_after(amount).pool_vault,
                ctx.spec_position(amount),
            )
        } else {
            self
        }
    }

    /// This custodian after an attempt to cancel the position with
    /// `stake_index` in the pool with `index`.
    pub open spec fn after_cancel(
        self,
        authority: Key,
        index: u8,
        stake_index: u64,
        user_vault: TokenAccount,
        clock: Clock,
    ) -> CustodianView {
        let j = self.slot(index);
        let i = self.place(self.pools[j].key, stake_index);
        let ctx = self.unstake_ctx(j, i, authority, user_vault, clock);
        let paid = ctx.spec_paid(ctx.spec_cancel_pool(), ctx.staked_info.amount);
        if self.has_pool(index) && self.active(self.pools[j].key, stake_index)
            && ctx.spec_cancel_reject(Some(self.pools[j].bump)) is None {
            self.closed(j, i, paid.pool, paid.pool_vault)
        } else {
            self
        }
    }

    /// This custodian after an attempt to claim the position with
    /// `stake_index` in the pool with `index`.
    pub open spec fn after_claim(
        self,
        authority: Key,
        index: u8,
        stake_index: u64,
        user_vault: TokenAccount,
        clock: Clock,
    ) -> CustodianView {
        let j = self.slot(index);
        let i = self.place(self.pools[j].key, stake_index);
        let ctx = self.unstake_ctx(j, i, authority, user_vault, clock);
        let paid = ctx.spec_paid(ctx.spec_claim_pool(), ctx.spec_payout() as u64);
        if self.has_pool(index) && self.active(self.pools[j].key, stake_index)
            && ctx.spec_claim_reject(Some(self.pools[j].bump)) is None {
            self.closed(j, i, paid.pool, paid.pool_vault)
        } else {
            self
        }
    }

    /// This custodian after the operation was attempted: changed as the
    /// operation says where it is accepted, unchanged where it is rejected.
    pub open spec fn after(self, op: Operation) -> CustodianView {
        match op {
            Operation::CreatePool {
                authority,
                mint,
                index,
                apy,
                min_stake_amount,
                lock_duration,
                pool_address,
                vault_address,
            } => self.after_create_pool(
                authority,
                mint,
                index,
                apy,
                min_stake_amount,
                lock_duration,
                pool_address,
                vault_address,
            ),
            Operation::Fund { authority, index, user_vault, amount } => self.after_fund(
                authority,
                index,
                user_vault,
                amount,
            ),
            Operation::Withdraw { authority, index, user_vault, amount } => self.after_withdraw(
                authority,
                index,
                user_vault,
                amount,
            ),
            Operation::Stake { authority, index, user_vault, amount, clock } => self.after_stake(
                authority,
                index,
                user_vault,
                amount,
                clock,
            ),
            Operation::Cancel { authority, index, stake_index, user_vault, clock } => {
                self.after_cancel(authority, index, stake_index, user_vault, clock)
            },
            Operation::Claim { authority, index, stake_index, user_vault, clock } => {
                self.after_claim(authority, index, stake_index, user_vault, clock)
            },
        }
    }

    /// This custodian after the operations were attempted one after the
    /// other.
    pub open spec fn after_all(self, ops: Seq<Operation>) -> CustodianView
        decreases ops.len(),
    {
        if ops.len() == 0 {
            self
        } else {
            self.after_all(ops.drop_last()).after(ops.last())
        }
    }
}

/// A custodian precedes itself.
pub proof fn lemma_precedes_reflexive(a: CustodianView)
    ensures
        a.precedes(a),
{
    assert forall|i: int| 0 <= i < a.positions.len() implies a.positions.contains(
        #[trigger] a.positions[i],
    ) by {}
}

/// An identity that has been issued stays issued.
pub proof fn lemma_issued_forever(a: CustodianView, b: CustodianView, pool: Key, stake_index: u64)
    requires
        a.precedes(b),
        a.issued(pool, stake_index),
    ensures
        b.issued(pool, stake_index),
{
    let j = choose|j: int|
        0 <= j < a.pools.len() && (#[trigger] a.pools[j]).key == pool && stake_index
            < a.pools[j].pool.inc_stakes;
    assert(a.pools[j].precedes(b.pools[j]));
    assert(b.pools[j].key == pool && stake_index < b.pools[j].pool.inc_stakes);
}

/// What holds from one operation to the next holds over any sequence of
/// operations.
pub proof fn lemma_precedes_transitive(a: CustodianView, b: CustodianView, c: CustodianView)
    requires
        a.precedes(b),
        b.precedes(c),
    ensures
        a.precedes(c),
{
    assert forall|j: int| 0 <= j < a.pools.len() implies (#[trigger] a.pools[j]).precedes(
        c.pools[j],
    ) by {
        assert(a.pools[j].precedes(b.pools[j]));
        assert(b.pools[j].precedes(c.pools[j]));
    }
    assert forall|i: int| 0 <= i < c.positions.len() implies a.positions.contains(
        #[trigger] c.positions[i],
    ) || !a.issued(c.positions[i].pool, c.positions[i].stake_index) by {
        let p = c.positions[i];
        if b.positions.contains(p) {
            let k = choose|k: int| 0 <= k < b.positions.len() && b.positions[k] == p;
            assert(a.positions.contains(b.positions[k]) || !a.issued(
                b.positions[k].pool,
                b.positions[k].stake_index,
            ));
        } else {
            if a.issued(p.pool, p.stake_index) {
                lemma_issued_forever(a, b, p.pool, p.stake_index);
            }
        }
    }
}

/// A settled position stays settled: whatever operations follow, no
/// position becomes active under its identity again.
pub proof fn lemma_settled_forever(a: CustodianView, b: CustodianView, pool: Key, stake_index: u64)
    requires
        a.precedes(b),
        a.settled(pool, stake_index),
    ensures
        b.settled(pool, stake_index),
{
    lemma_issued_forever(a, b, pool, stake_index);
    if b.active(pool, stake_index) {
        let i = choose|i: int|
            0 <= i < b.positions.len() && (#[trigger] b.positions[i]).pool == pool
                && b.positions[i].stake_index == stake_index;
        if a.positions.contains(b.positions[i]) {
            let k = choose|k: int| 0 <= k < a.positions.len() && a.positions[k] == b.positions[i];
            assert(a.positions[k].pool == pool && a.positions[k].stake_index == stake_index);
        }
    }
}

/// In a well-formed custodian no more reward is promised than any pool's
/// budget holds, each pool's counters are the sums over its active
/// positions, and each vault holds the pool's stakes and its budget.
pub proof fn lemma_wf_pool(a: CustodianView, j: int)
    requires
        a.wf(),
        0 <= j < a.pools.len(),
    ensures
        a.pools[j].pool.amount_reward_reserved <= a.pools[j].pool.amount_reward,
        a.pools[j].pool.amount_staked == tally(a.positions, a.pools[j].key).principal,
        a.pools[j].pool.amount_reward_reserved == tally(a.positions, a.pools[j].key).reward,
        a.pools[j].pool.count_stakes == tally(a.positions, a.pools[j].key).count,
        a.pools[j].vault.amount == a.pools[j].pool.amount_staked + a.pools[j].pool.amount_reward,
{
    assert(a.pools[j].wf(a.state, a.positions));
}

/// In a well-formed custodian every active position has an issued
/// identity, so the next stake of its pool gets another one.
pub proof fn lemma_active_is_issued(a: CustodianView, i: int, j: int)
    requires
        a.wf(),
        0 <= i < a.positions.len(),
        0 <= j < a.pools.len(),
        a.positions[i].pool == a.pools[j].key,
    ensures
        a.issued(a.positions[i].pool, a.positions[i].stake_index),
        a.positions[i].stake_index != a.pools[j].pool.inc_stakes,
{
    assert(a.positions[i].stake_index < a.pools[j].pool.inc_stakes);
}

/// Replacing the ledger and the vault of one pool by ones that fit the
/// active positions keeps the custodian well-formed.
pub proof fn lemma_update_pool(a: CustodianView, j: int, pool: FarmPoolAccount, vault: TokenAccount)
    requires
        a.wf(),
        0 <= j < a.pools.len(),
        a.pools[j].precedes(PoolEntry { pool, vault, ..a.pools[j] }),
        (PoolEntry { pool, vault, ..a.pools[j] }).wf(a.state, a.positions),
    ensures
        a.with_pool(j, pool, vault).wf(),
        a.precedes(a.with_pool(j, pool, vault)),
{
    let b = a.with_pool(j, pool, vault);
    assert forall|k: int| 0 <= k < b.pools.len() implies (#[trigger] b.pools[k]).wf(
        b.state,
        b.positions,
    ) by {
        if k != j {
            assert(a.pools[k].wf(a.state, a.positions));
        }
    }
    lemma_pools_kept(a, b, j);
    assert forall|i: int| 0 <= i < b.positions.len() implies a.positions.contains(
        #[trigger] b.positions[i],
    ) by {
        assert(a.positions[i] == b.positions[i]);
    }
}

/// Where only the pool at `j` was replaced, by the same pool at a later
/// time, the pools still have distinct indices and addresses, every pool
/// precedes its replacement, and no sequence number lies behind a position
/// that was active before.
proof fn lemma_pools_kept(a: CustodianView, b: CustodianView, j: int)
    requires
        a.wf(),
        0 <= j < a.pools.len(),
        b.state == a.state,
        b.pools.len() == a.pools.len(),
        a.pools[j].precedes(b.pools[j]),
        forall|k: int| 0 <= k < a.pools.len() && k != j ==> b.pools[k] == a.pools[k],
    ensures
        forall|k: int| 0 <= k < a.pools.len() ==> (#[trigger] a.pools[k]).precedes(b.pools[k]),
        forall|k: int, m: int|
            0 <= k < m < b.pools.len() ==> (#[trigger] b.pools[k]).pool.index != (
            #[trigger] b.pools[m]).pool.index,
        forall|k: int, m: int|
            0 <= k < m < b.pools.len() ==> (#[trigger] b.pools[k]).key != (
            #[trigger] b.pools[m]).key,
        forall|i: int, k: int|
            0 <= i < a.positions.len() && 0 <= k < b.pools.len() && (
            #[trigger] a.positions[i]).pool == (#[trigger] b.pools[k]).key
                ==> a.positions[i].stake_index < b.pools[k].pool.inc_stakes,
        forall|i: int| 0 <= i < a.positions.len() ==> b.has_key((#[trigger] a.positions[i]).pool),
{
    assert forall|i: int| 0 <= i < a.positions.len() implies b.has_key(
        (#[trigger] a.positions[i]).pool,
    ) by {
        lemma_key_kept(a, b, a.positions[i].pool);
    }
    assert forall|k: int, m: int| 0 <= k < m < b.pools.len() implies (
    #[trigger] b.pools[k]).pool.index != (#[trigger] b.pools[m]).pool.index by {
        assert(a.pools[k].pool.index != a.pools[m].pool.index);
    }
    assert forall|k: int, m: int| 0 <= k < m < b.pools.len() implies (#[trigger] b.pools[k]).key
        != (#[trigger] b.pools[m]).key by {
        assert(a.pools[k].key != a.pools[m].key);
    }
    assert forall|i: int, k: int|
        0 <= i < a.positions.len() && 0 <= k < b.pools.len() && (#[trigger] a.positions[i]).pool
            == (#[trigger] b.pools[k]).key implies a.positions[i].stake_index
        < b.pools[k].pool.inc_stakes by {
        assert(a.positions[i].pool == a.pools[k].key);
        assert(a.positions[i].stake_index < a.pools[k].pool.inc_stakes);
    }
}

/// A pool that is stored under an address stays stored under it where every
/// pool keeps its address.
proof fn lemma_key_kept(a: CustodianView, b: CustodianView, key: Key)
    requires
        a.has_key(key),
        a.pools.len() <= b.pools.len(),
        forall|k: int| 0 <= k < a.pools.len() ==> (#[trigger] b.pools[k]).key == a.pools[k].key,
    ensures
        b.has_key(key),
{
    let k = choose|k: int| 0 <= k < a.pools.len() && (#[trigger] a.pools[k]).key == key;
    assert(b.pools[k].key == key);
}

/// The address of the pool at `j` is the address of no other pool.
proof fn lemma_key_is_of_one_pool(a: CustodianView, j: int, k: int)
    requires
        a.wf(),
        0 <= j < a.pools.len(),
        0 <= k < a.pools.len(),
        k != j,
    ensures
        a.pools[k].key != a.pools[j].key,
{
    if k < j {
        assert(a.pools[k].key != a.pools[j].key);
    } else {
        assert(a.pools[j].key != a.pools[k].key);
    }
}

/// A new pool under a free index and a free address, with every counter at
/// zero and an empty vault, keeps the custodian well-formed.
pub proof fn lemma_add_pool(a: CustodianView, entry: PoolEntry)
    requires
        a.wf(),
        !a.has_pool(entry.pool.index),
        !a.has_key(entry.key),
        entry.pool.lock_duration >= 0,
        entry.pool.amount_staked == 0,
        entry.pool.amount_reward == 0,
        entry.pool.amount_reward_reserved == 0,
        entry.pool.count_stakes == 0,
        entry.pool.inc_stakes == 0,
        entry.pool.vault == entry.vault.key,
        entry.vault.owner == entry.key,
        entry.vault.mint == a.state.token_mint,
        entry.vault.amount == 0,
    ensures
        a.with_new_pool(entry).wf(),
        a.precedes(a.with_new_pool(entry)),
        a.with_new_pool(entry).has_pool(entry.pool.index),
{
    let b = a.with_new_pool(entry);
    let last = a.pools.len() as int;
    assert(b.pools[last] == entry);
    assert forall|i: int| 0 <= i < a.positions.len() implies (#[trigger] a.positions[i]).pool
        != entry.key by {
        assert(a.has_key(a.positions[i].pool));
    }
    lemma_tally_of_none(a.positions, entry.key);
    assert forall|k: int| 0 <= k < b.pools.len() implies (#[trigger] b.pools[k]).wf(
        b.state,
        b.positions,
    ) by {
        if k < last {
            assert(b.pools[k] == a.pools[k]);
            assert(a.pools[k].wf(a.state, a.positions));
        }
    }
    assert forall|k: int, m: int| 0 <= k < m < b.pools.len() implies (
    #[trigger] b.pools[k]).pool.index != (#[trigger] b.pools[m]).pool.index by {
        assert(b.pools[k] == a.pools[k]);
        if m < last {
            assert(b.pools[m] == a.pools[m]);
        }
    }
    assert forall|k: int, m: int| 0 <= k < m < b.pools.len() implies (#[trigger] b.pools[k]).key
        != (#[trigger] b.pools[m]).key by {
        assert(b.pools[k] == a.pools[k]);
        if m < last {
            assert(b.pools[m] == a.pools[m]);
        }
    }
    assert forall|i: int, k: int|
        0 <= i < b.positions.len() && 0 <= k < b.pools.len() && (#[trigger] b.positions[i]).pool
            == (#[trigger] b.pools[k]).key implies b.positions[i].stake_index
        < b.pools[k].pool.inc_stakes by {
        if k < last {
            assert(b.pools[k] == a.pools[k]);
        }
    }
    assert forall|i: int| 0 <= i < b.positions.len() implies b.has_key(
        (#[trigger] b.positions[i]).pool,
    ) by {
        assert forall|k: int| 0 <= k < a.pools.len() implies (#[trigger] b.pools[k]).key
            == a.pools[k].key by {}
        lemma_key_kept(a, b, a.positions[i].pool);
    }
    assert forall|k: int| 0 <= k < a.pools.len() implies (#[trigger] a.pools[k]).precedes(
        b.pools[k],
    ) by {
        assert(b.pools[k] == a.pools[k]);
    }
    assert forall|i: int| 0 <= i < b.positions.len() implies a.positions.contains(
        #[trigger] b.positions[i],
    ) by {
        assert(a.positions[i] == b.positions[i]);
    }
}

/// A stake keeps the custodian well-formed, and the position that it
/// creates has an identity that had not been issued before: the pool's
/// counters grow by the position, its sequence number steps past the
/// position's, and the vault takes the principal.
pub proof fn lemma_open_position(
    a: CustodianView,
    j: int,
    pool: FarmPoolAccount,
    vault: TokenAccount,
    position: StakedInfo,
)
    requires
        a.wf(),
        0 <= j < a.pools.len(),
        a.pools[j].precedes(PoolEntry { pool, vault, ..a.pools[j] }),
        position.pool == a.pools[j].key,
        position.stake_index == a.pools[j].pool.inc_stakes,
        pool.inc_stakes > position.stake_index,
        pool.wf(),
        vault.key == a.pools[j].vault.key,
        vault.owner == a.pools[j].vault.owner,
        vault.mint == a.pools[j].vault.mint,
        pool.count_stakes == a.pools[j].pool.count_stakes + 1,
        pool.amount_staked == a.pools[j].pool.amount_staked + position.amount,
        pool.amount_reward_reserved == a.pools[j].pool.amount_reward_reserved
            + position.reward_amount,
        vault.amount == pool.amount_staked + pool.amount_reward,
    ensures
        a.opened(j, pool, vault, position).wf(),
        a.precedes(a.opened(j, pool, vault, position)),
        !a.issued(position.pool, position.stake_index),
        !a.active(position.pool, position.stake_index),
        a.opened(j, pool, vault, position).issued(position.pool, position.stake_index),
        a.opened(j, pool, vault, position).active(position.pool, position.stake_index),
{
    let b = a.opened(j, pool, vault, position);
    let key = a.pools[j].key;
    assert(a.pools[j].wf(a.state, a.positions));
    assert forall|k: int| 0 <= k < b.pools.len() implies (#[trigger] b.pools[k]).wf(
        b.state,
        b.positions,
    ) by {
        lemma_tally_push(a.positions, position, b.pools[k].key);
        if k != j {
            lemma_key_is_of_one_pool(a, j, k);
            assert(a.pools[k].wf(a.state, a.positions));
        }
    }
    lemma_pools_kept(a, b, j);
    assert forall|i: int, k: int|
        0 <= i < b.positions.len() && 0 <= k < b.pools.len() && (#[trigger] b.positions[i]).pool
            == (#[trigger] b.pools[k]).key implies b.positions[i].stake_index
        < b.pools[k].pool.inc_stakes by {
        if i < a.positions.len() {
            assert(b.positions[i] == a.positions[i]);
        } else {
            if k != j {
                lemma_key_is_of_one_pool(a, j, k);
            }
        }
    }
    assert forall|i: int, k: int|
        0 <= i < k < b.positions.len() && (#[trigger] b.positions[i]).pool == (
        #[trigger] b.positions[k]).pool implies b.positions[i].stake_index
        != b.positions[k].stake_index by {
        assert(b.positions[i] == a.positions[i]);
        if k < a.positions.len() {
            assert(b.positions[k] == a.positions[k]);
        } else {
            assert(a.positions[i].pool == a.pools[j].key);
            assert(a.positions[i].stake_index < a.pools[j].pool.inc_stakes);
        }
    }
    if a.issued(position.pool, position.stake_index) {
        let k = choose|k: int|
            0 <= k < a.pools.len() && (#[trigger] a.pools[k]).key == position.pool
                && position.stake_index < a.pools[k].pool.inc_stakes;
        if k != j {
            lemma_key_is_of_one_pool(a, j, k);
        }
    }
    if a.active(position.pool, position.stake_index) {
        let i = a.place(position.pool, position.stake_index);
        assert(a.positions[i].pool == a.pools[j].key);
        assert(a.positions[i].stake_index < a.pools[j].pool.inc_stakes);
    }
    assert forall|i: int| 0 <= i < b.positions.len() implies a.positions.contains(
        #[trigger] b.positions[i],
    ) || !a.issued(b.positions[i].pool, b.positions[i].stake_index) by {
        if i < a.positions.len() {
            assert(a.positions[i] == b.positions[i]);
        }
    }
    assert(b.pools[j].key == position.pool && position.stake_index < b.pools[j].pool.inc_stakes);
    assert(b.positions[a.positions.len() as int] == position);
}

/// Settling a position keeps the custodian well-formed and leaves the
/// position settled: the pool's counters shrink by the position, and the
/// vault pays what leaves the pool's stakes and budget.
pub proof fn lemma_close_position(
    a: CustodianView,
    j: int,
    i: int,
    pool: FarmPoolAccount,
    vault: TokenAccount,
)
    requires
        a.wf(),
        0 <= j < a.pools.len(),
        0 <= i < a.positions.len(),
        a.positions[i].pool == a.pools[j].key,
        a.pools[j].precedes(PoolEntry { pool, vault, ..a.pools[j] }),
        pool.wf(),
        vault.key == a.pools[j].vault.key,
        vault.owner == a.pools[j].vault.owner,
        vault.mint == a.pools[j].vault.mint,
        pool.count_stakes == a.pools[j].pool.count_stakes - 1,
        pool.amount_staked == a.pools[j].pool.amount_staked - a.positions[i].amount,
        pool.amount_reward_reserved == a.pools[j].pool.amount_reward_reserved
            - a.positions[i].reward_amount,
        vault.amount == pool.amount_staked + pool.amount_reward,
    ensures
        a.closed(j, i, pool, vault).wf(),
        a.precedes(a.closed(j, i, pool, vault)),
        a.active(a.positions[i].pool, a.positions[i].stake_index),
        a.closed(j, i, pool, vault).settled(a.positions[i].pool, a.positions[i].stake_index),
{
    let b = a.closed(j, i, pool, vault);
    let gone = a.positions[i];
    assert(a.pools[j].wf(a.state, a.positions));
    assert forall|m: int| 0 <= m < b.positions.len() implies #[trigger] b.positions[m] == (if m
        < i {
        a.positions[m]
    } else {
        a.positions[m + 1]
    }) by {}
    assert forall|k: int| 0 <= k < b.pools.len() implies (#[trigger] b.pools[k]).wf(
        b.state,
        b.positions,
    ) by {
        lemma_tally_remove(a.positions, i, b.pools[k].key);
        if k != j {
            lemma_key_is_of_one_pool(a, j, k);
            assert(a.pools[k].wf(a.state, a.positions));
        }
    }
    lemma_pools_kept(a, b, j);
    assert forall|m: int, k: int|
        0 <= m < b.positions.len() && 0 <= k < b.pools.len() && (#[trigger] b.positions[m]).pool
            == (#[trigger] b.pools[k]).key implies b.positions[m].stake_index
        < b.pools[k].pool.inc_stakes by {
        let n = if m < i {
            m
        } else {
            m + 1
        };
        assert(b.positions[m] == a.positions[n]);
        assert(a.positions[n].pool == b.pools[k].key);
    }
    assert forall|m: int, k: int|
        0 <= m < k < b.positions.len() && (#[trigger] b.positions[m]).pool == (
        #[trigger] b.positions[k]).pool implies b.positions[m].stake_index
        != b.positions[k].stake_index by {
        let n = if m < i {
            m
        } else {
            m + 1
        };
        let l = if k < i {
            k
        } else {
            k + 1
        };
        assert(b.positions[m] == a.positions[n]);
        assert(b.positions[k] == a.positions[l]);
        assert(a.positions[n].pool == a.positions[l].pool);
    }
    assert forall|m: int| 0 <= m < b.positions.len() implies a.positions.contains(
        #[trigger] b.positions[m],
    ) by {
        let n = if m < i {
            m
        } else {
            m + 1
        };
        assert(a.positions[n] == b.positions[m]);
    }
    assert(gone.stake_index < a.pools[j].pool.inc_stakes);
    assert(b.pools[j].key == gone.pool && gone.stake_index < b.pools[j].pool.inc_stakes);
    if b.active(gone.pool, gone.stake_index) {
        let m = b.place(gone.pool, gone.stake_index);
        let n = if m < i {
            m
        } else {
            m + 1
        };
        assert(b.positions[m] == a.positions[n]);
        if n < i {
            assert(a.positions[n].pool == a.positions[i].pool);
        } else {
            assert(a.positions[i].pool == a.positions[n].pool);
        }
    }
}

/// Every operation keeps the custodian well-formed, and leads to a
/// custodian that the one before precedes.
pub proof fn lemma_operation_keeps_wf(a: CustodianView, op: Operation)
    requires
        a.wf(),
    ensures
        a.after(op).wf(),
        a.precedes(a.after(op)),
{
    lemma_precedes_reflexive(a);
    match op {
        Operation::CreatePool {
            authority,
            mint,
            index,
            apy,
            min_stake_amount,
            lock_duration,
            pool_address,
            vault_address,
        } => {
            if a.after(op) != a {
                let entry = a.created_pool(
                    index,
                    apy,
                    min_stake_amount,
                    lock_duration,
                    pool_address->0,
                    vault_address->0,
                );
                lemma_add_pool(a, entry);
            }
        },
        Operation::Fund { authority, index, user_vault, amount } => {
            if a.after(op) != a {
                let j = a.slot(index);
                let ctx = a.fund_ctx(j, authority, user_vault);
                assert(a.pools[j].wf(a.state, a.positions));
                lemma_update_pool(
                    a,
                    j,
                    ctx.spec_funded(amount).pool,
                    ctx.spec_funded(amount).pool_vault,
                );
            }
        },
        Operation::Withdraw { authority, index, user_vault, amount } => {
            if a.after(op) != a {
                let j = a.slot(index);
                let ctx = a.fund_ctx(j, authority, user_vault);
                assert(a.pools[j].wf(a.state, a.positions));
                lemma_update_pool(
                    a,
                    j,
                    ctx.spec_withdrawn(amount).pool,
                    ctx.spec_withdrawn(amount).pool_vault,
                );
            }
        },
        Operation::Stake { authority, index, user_vault, amount, clock } => {
            if a.after(op) != a {
                let j = a.slot(index);
                let ctx = a.stake_ctx(j, authority, user_vault, clock);
                assert(a.pools[j].wf(a.state, a.positions));
                lemma_reward_rounds_down(
                    ctx.pool.lock_duration as int,
                    ctx.pool.apy as int,
                    amount as int,
                );
                lemma_open_position(
                    a,
                    j,
                    ctx.spec_after(amount).pool,
                    ctx.spec_after(amount).pool_vault,
                    ctx.spec_position(amount),
                );
            }
        },
        Operation::Cancel { authority, index, stake_index, user_vault, clock } => {
            if a.after(op) != a {
                let j = a.slot(index);
                let i = a.place(a.pools[j].key, stake_index);
                let ctx = a.unstake_ctx(j, i, authority, user_vault, clock);
                let paid = ctx.spec_paid(ctx.spec_cancel_pool(), ctx.staked_info.amount);
                assert(a.pools[j].wf(a.state, a.positions));
                lemma_close_position(a, j, i, paid.pool, paid.pool_vault);
            }
        },
        Operation::Claim { authority, index, stake_index, user_vault, clock } => {
            if a.after(op) != a {
                let j = a.slot(index);
                let i = a.place(a.pools[j].key, stake_index);
                let ctx = a.unstake_ctx(j, i, authority, user_vault, clock);
                let paid = ctx.spec_paid(ctx.spec_claim_pool(), ctx.spec_payout() as u64);
                assert(a.pools[j].wf(a.state, a.positions));
                lemma_close_position(a, j, i, paid.pool, paid.pool_vault);
            }
        },
    }
}

/// Whatever operations are attempted, in whatever order, the custodian
/// stays well-formed: after each of them no pool has promised more reward
/// than its budget holds, and the counters of each pool are the sums over
/// its active positions.
pub proof fn lemma_operations_keep_wf(a: CustodianView, ops: Seq<Operation>)
    requires
        a.wf(),
    ensures
        a.after_all(ops).wf(),
        a.precedes(a.after_all(ops)),
    decreases ops.len(),
{
    if ops.len() == 0 {
        lemma_precedes_reflexive(a);
    } else {
        let before = a.after_all(ops.drop_last());
        lemma_operations_keep_wf(a, ops.drop_last());
        lemma_operation_keeps_wf(before, ops.last());
        lemma_precedes_transitive(a, before, before.after(ops.last()));
    }
}

/// In a well-formed custodian every pool covers each of its positions: its
/// counters hold the position's share, its reward budget holds the reward,
/// and its vault holds principal and reward together.
pub proof fn lemma_position_is_covered(
    a: CustodianView,
    j: int,
    i: int,
    authority: Key,
    user_vault: TokenAccount,
    clock: Clock,
)
    requires
        a.wf(),
        0 <= j < a.pools.len(),
        0 <= i < a.positions.len(),
        a.positions[i].pool == a.pools[j].key,
    ensures
        a.unstake_ctx(j, i, authority, user_vault, clock).spec_covered(true),
        a.unstake_ctx(j, i, authority, user_vault, clock).spec_payout() <= a.pools[j].vault.amount,
{
    assert(a.pools[j].wf(a.state, a.positions));
    lemma_tally_covers(a.positions, i, a.pools[j].key);
}

/// A position can always be cancelled by its owner: in a well-formed
/// custodian the cancellation is accepted whenever the owner's token account
/// is of the reward token and has room for the principal.
pub proof fn lemma_cancel_is_owed(
    a: CustodianView,
    j: int,
    i: int,
    user_vault: TokenAccount,
    clock: Clock,
)
    requires
        a.wf(),
        0 <= j < a.pools.len(),
        0 <= i < a.positions.len(),
        a.positions[i].pool == a.pools[j].key,
        user_vault.owner == a.positions[i].authority,
        user_vault.mint == a.state.token_mint,
        user_vault.amount + a.positions[i].amount <= u64::MAX,
    ensures
        a.unstake_ctx(j, i, a.positions[i].authority, user_vault, clock).spec_cancel_reject(
            Some(a.pools[j].bump),
        ) is None,
{
    lemma_position_is_covered(a, j, i, a.positions[i].authority, user_vault, clock);
    assert(a.pools[j].wf(a.state, a.positions));
}

/// A matured position can always be claimed by its owner: in a well-formed
/// custodian the claim is accepted once the lock has elapsed, whenever the
/// owner's token account is of the reward token and has room for principal
/// and reward.
pub proof fn lemma_claim_is_owed(
    a: CustodianView,
    j: int,
    i: int,
    user_vault: TokenAccount,
    clock: Clock,
)
    requires
        a.wf(),
        0 <= j < a.pools.len(),
        0 <= i < a.positions.len(),
        a.positions[i].pool == a.pools[j].key,
        a.positions[i].staked_time + a.pools[j].pool.lock_duration <= clock.unix_timestamp,
        user_vault.owner == a.positions[i].authority,
        user_vault.mint == a.state.token_mint,
        user_vault.amount + a.positions[i].amount + a.positions[i].reward_amount <= u64::MAX,
    ensures
        a.unstake_ctx(j, i, a.positions[i].authority, user_vault, clock).spec_claim_reject(
            Some(a.pools[j].bump),
        ) is None,
{
    lemma_position_is_covered(a, j, i, a.positions[i].authority, user_vault, clock);
    assert(a.pools[j].wf(a.state, a.positions));
}

/// The unreserved surplus can always be withdrawn by the admin: in a
/// well-formed custodian a withdrawal of no more than the surplus is
/// accepted whenever the admin's token account is of the reward token and
/// has room for it.
pub proof fn lemma_withdraw_is_owed(
    a: CustodianView,
    j: int,
    user_vault: TokenAccount,
    amount: u64,
)
    requires
        a.wf(),
        0 <= j < a.pools.len(),
        amount <= a.pools[j].pool.spec_unreserved(),
        user_vault.owner == a.state.authority,
        user_vault.mint == a.state.token_mint,
        user_vault.amount + amount <= u64::MAX,
    ensures
        a.fund_ctx(j, a.state.authority, user_vault).spec_withdraw_reject(
            amount,
            Some(a.pools[j].bump),
        ) is None,
{
    assert(a.pools[j].wf(a.state, a.positions));
}

} // verus!
