use crate::accounts::TokenAccount;
use crate::error::ErrorMsg;
use crate::key::Key;
use vstd::prelude::*;

verus! {

/// The signing capability of a pool: the values from which the pool's own
/// address is derived. A transfer out of a vault is authorised by it, never
/// by a user's signature.
#[derive(Clone, Copy, Debug, PartialEq, Eq)]
pub struct PoolSigner {
    /// The registry's reward token.
    pub token_mint: Key,
    /// The pool's index.
    pub index: u8,
    /// The bump seed of the pool's derived address.
    pub bump: u8,
}

/// A token movement that an operation has decided on.
#[derive(Clone, Copy, Debug, PartialEq, Eq)]
pub struct Transfer {
    /// Address of the paying token account.
    pub from: Key,
    /// Address of the receiving token account.
    pub to: Key,
    /// The authority that moves the tokens: the caller, or the pool for a
    /// transfer out of its vault.
    pub authority: Key,
    /// How many tokens move.
    pub amount: u64,
    /// The pool's signing capability, where the pool is the authority.
    pub signer: Option<PoolSigner>,
}

impl PoolSigner {
    /// The seeds that sign for the pool: the token mint, the index and the
    /// bump seed, in this order.
    pub open spec fn spec_seeds(&self) -> Seq<Seq<u8>> {
        seq![self.token_mint@, seq![self.index], seq![self.bump]]
    }

    pub fn seeds(&self) -> (s: Vec<Vec<u8>>)
        ensures
            s.deep_view() == self.spec_seeds(),
    {
        let mut mint: Vec<u8> = Vec::new();
        let mut i: usize = 0;
        while i < 32
            invariant
                i <= 32,
                mint@ == self.token_mint@.subrange(0, i as int),
            decreases 32 - i,
        {
            mint.push(self.token_mint.bytes[i]);
            assert(mint@ =~= self.token_mint@.subrange(0, i + 1));
            i = i + 1;
        }
        assert(mint@ =~= self.token_mint@);
        let mut index: Vec<u8> = Vec::new();
        index.push(self.index);
        let mut bump: Vec<u8> = Vec::new();
        bump.push(self.bump);
        assert(index@ =~= seq![self.index]);
        assert(bump@ =~= seq![self.bump]);
        let mut s: Vec<Vec<u8>> = Vec::new();
        s.push(mint);
        s.push(index);
        s.push(bump);
        assert(s@[0].deep_view() =~= self.token_mint@);
        assert(s@[1].deep_view() =~= seq![self.index]);
        assert(s@[2].deep_view() =~= seq![self.bump]);
        assert(s.deep_view() =~= self.spec_seeds());
        s
    }
}

/// Why the token program refuses to move `amount` from `from` to `to` on
/// behalf of `authority`, if it does. The checks come in this order: the
/// authority owns the paying account, both accounts hold the same token, the
/// paying account holds the amount, the receiving account can take it.
pub open spec fn spec_transfer_reject(
    from: TokenAccount,
    to: TokenAccount,
    authority: Key,
    amount: u64,
) -> Option<ErrorMsg> {
    if from.owner != authority {
        Some(ErrorMsg::Unauthorized)
    } else if from.mint != to.mint {
        Some(ErrorMsg::TokenMismatch)
    } else if from.amount < amount {
        Some(ErrorMsg::InsufficientFunds)
    } else if to.amount + amount > u64::MAX {
        Some(ErrorMsg::Overflow)
    } else {
        None
    }
}

/// Moves `amount` tokens from `from` to `to` on behalf of `authority`, as
/// the token program does, or changes nothing and says why not.
pub fn transfer(from: &mut TokenAccount, to: &mut TokenAccount, authority: &Key, amount: u64) -> (r:
    Result<(), ErrorMsg>)
    ensures
        match r {
            Ok(()) => {
                &&& spec_transfer_reject(*old(from), *old(to), *authority, amount) is None
                &&& *final(from) == (TokenAccount {
                    amount: (old(from).amount - amount) as u64,
                    ..*old(from)
                })
                &&& *final(to) == (TokenAccount {
                    amount: (old(to).amount + amount) as u64,
                    ..*old(to)
                })
            },
            Err(e) => {
                &&& spec_transfer_reject(*old(from), *old(to), *authority, amount) == Some(e)
                &&& *final(from) == *old(from)
                &&& *final(to) == *old(to)
            },
        },
{
    if from.owner != *authority {
        return Err(ErrorMsg::Unauthorized);
    }
    if from.mint != to.mint {
        return Err(ErrorMsg::TokenMismatch);
    }
    if from.amount < amount {
        return Err(ErrorMsg::InsufficientFunds);
    }
    if amount > u64::MAX - to.amount {
        return Err(ErrorMsg::Overflow);
    }
    from.amount = from.amount - amount;
    to.amount = to.amount + amount;
    Ok(())
}

} // verus!
