use crate::accounts::StakedInfo;
use crate::key::Key;
use vstd::prelude::*;

verus! {

/// What the active positions of one pool add up to.
pub struct Tally {
    /// How many positions the pool has.
    pub count: int,
    /// Sum of their principals.
    pub principal: int,
    /// Sum of their rewards.
    pub reward: int,
}

impl Tally {
    /// The tally of no position.
    pub open spec fn zero() -> Tally {
        Tally { count: 0, principal: 0, reward: 0 }
    }

    /// This tally and one position more, where the position is of `pool`.
    pub open spec fn with(self, position: StakedInfo, pool: Key) -> Tally {
        if position.pool == pool {
            Tally {
                count: self.count + 1,
                principal: self.principal + position.amount,
                reward: self.reward + position.reward_amount,
            }
        } else {
            self
        }
    }

    /// This tally and one position less, where the position is of `pool`.
    pub open spec fn without(self, position: StakedInfo, pool: Key) -> Tally {
        if position.pool == pool {
            Tally {
                count: self.count - 1,
                principal: self.principal - position.amount,
                reward: self.reward - position.reward_amount,
            }
        } else {
            self
        }
    }
}

/// Counts and sums those of `positions` that belong to `pool`.
pub open spec fn tally(positions: Seq<StakedInfo>, pool: Key) -> Tally
    decreases positions.len(),
{
    if positions.len() == 0 {
        Tally::zero()
    } else {
        tally(positions.drop_last(), pool).with(positions.last(), pool)
    }
}

/// No tally is negative.
pub proof fn lemma_tally_nonnegative(positions: Seq<StakedInfo>, pool: Key)
    ensures
        tally(positions, pool).count >= 0,
        tally(positions, pool).principal >= 0,
        tally(positions, pool).reward >= 0,
    decreases positions.len(),
{
    if positions.len() > 0 {
        lemma_tally_nonnegative(positions.drop_last(), pool);
    }
}

/// A pool without positions has the tally of no position.
pub proof fn lemma_tally_of_none(positions: Seq<StakedInfo>, pool: Key)
    requires
        forall|i: int| 0 <= i < positions.len() ==> (#[trigger] positions[i]).pool != pool,
    ensures
        tally(positions, pool) == Tally::zero(),
    decreases positions.len(),
{
    if positions.len() > 0 {
        let front = positions.drop_last();
        assert forall|i: int| 0 <= i < front.len() implies (#[trigger] front[i]).pool != pool by {
            assert(front[i] == positions[i]);
        }
        lemma_tally_of_none(front, pool);
        assert(positions.last() == positions[positions.len() - 1]);
    }
}

/// A new position adds itself to the tally of its pool and to no other.
pub proof fn lemma_tally_push(positions: Seq<StakedInfo>, position: StakedInfo, pool: Key)
    ensures
        tally(positions.push(position), pool) == tally(positions, pool).with(position, pool),
{
    assert(positions.push(position).drop_last() =~= positions);
}

/// A position that leaves takes itself off the tally of its pool and off no
/// other.
pub proof fn lemma_tally_remove(positions: Seq<StakedInfo>, i: int, pool: Key)
    requires
        0 <= i < positions.len(),
    ensures
        tally(positions.remove(i), pool) == tally(positions, pool).without(positions[i], pool),
    decreases positions.len(),
{
    if i == positions.len() - 1 {
        assert(positions.remove(i) =~= positions.drop_last());
    } else {
        let front = positions.drop_last();
        lemma_tally_remove(front, i, pool);
        assert(positions.remove(i) =~= front.remove(i).push(positions.last()));
        lemma_tally_push(front.remove(i), positions.last(), pool);
    }
}

/// The tally of a pool covers each of its positions.
pub proof fn lemma_tally_covers(positions: Seq<StakedInfo>, i: int, pool: Key)
    requires
        0 <= i < positions.len(),
        positions[i].pool == pool,
    ensures
        tally(positions, pool).count >= 1,
        tally(positions, pool).principal >= positions[i].amount,
        tally(positions, pool).reward >= positions[i].reward_amount,
{
    lemma_tally_remove(positions, i, pool);
    lemma_tally_nonnegative(positions.remove(i), pool);
}

} // verus!
