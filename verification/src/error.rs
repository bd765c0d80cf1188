use vstd::prelude::*;

verus! {

/// Why an operation was rejected. A rejected operation changes nothing.
#[derive(Clone, Copy, Debug, PartialEq, Eq, Structural)]
pub enum ErrorMsg {
    /// A withdrawal asked for more than the unreserved part of the reward budget.
    AlreadyReserved,
    /// A claim came before the position's lock period had elapsed.
    UnderLocked,
    /// The stake is smaller than the pool's minimum.
    BelowMinStakeAmount,
    /// The reward of a new stake does not fit into the unreserved reward budget.
    OverflowReservedReward,
    /// The caller is not the authority that the operation asks for.
    Unauthorized,
    /// A pool already exists under this index.
    DuplicatePool,
    /// A token account or mint is not of the registry's reward token.
    TokenMismatch,
    /// An arithmetic step would leave the range of its type.
    Overflow,
    /// The paying token account holds less than the amount to move.
    InsufficientFunds,
    /// No pool or position is stored under the given identity.
    AccountNotFound,
}

impl ErrorMsg {
    /// What the error says to a user.
    pub open spec fn spec_message(self) -> Seq<char> {
        match self {
            ErrorMsg::AlreadyReserved => "Can not withdraw reserved reward"@,
            ErrorMsg::UnderLocked => "Under locked"@,
            ErrorMsg::BelowMinStakeAmount => {
                "Staking amount shouldn't be less than the minimum value"@
            },
            ErrorMsg::OverflowReservedReward => "Overflow reserved reward"@,
            ErrorMsg::Unauthorized => "Caller lacks the required authority"@,
            ErrorMsg::DuplicatePool => "Pool index is already in use"@,
            ErrorMsg::TokenMismatch => "Token does not match the reward token"@,
            ErrorMsg::Overflow => "Arithmetic overflow"@,
            ErrorMsg::InsufficientFunds => "Insufficient funds"@,
            ErrorMsg::AccountNotFound => "Account not found"@,
        }
    }

    pub fn message(&self) -> (m: &'static str)
        ensures
            m@ == self.spec_message(),
    {
        match self {
            ErrorMsg::AlreadyReserved => "Can not withdraw reserved reward",
            ErrorMsg::UnderLocked => "Under locked",
            ErrorMsg::BelowMinStakeAmount => {
                "Staking amount shouldn't be less than the minimum value"
            },
            ErrorMsg::OverflowReservedReward => "Overflow reserved reward",
            ErrorMsg::Unauthorized => "Caller lacks the required authority",
            ErrorMsg::DuplicatePool => "Pool index is already in use",
            ErrorMsg::TokenMismatch => "Token does not match the reward token",
            ErrorMsg::Overflow => "Arithmetic overflow",
            ErrorMsg::InsufficientFunds => "Insufficient funds",
            ErrorMsg::AccountNotFound => "Account not found",
        }
    }
}

} // verus!
