//! Accounting core of a token-staking protocol: a custodian that escrows
//! stakes, reserves future rewards against a funded budget, and releases
//! principal and reward when a position is settled.

pub mod accounts;
pub mod address;
pub mod admin;
pub mod constants;
pub mod context;
pub mod custodian;
pub mod error;
pub mod key;
pub mod model;
pub mod reward;
pub mod stake;
pub mod tally;
pub mod token;
pub mod unstake;

pub use crate::accounts::{FarmPoolAccount, StakedInfo, StateAccount, TokenAccount};
pub use crate::address::{bump, try_bump, ID};
pub use crate::admin::{create_pool, create_state, fund_pool, withdraw_pool};
pub use crate::context::{Clock, CreateFarmPool, CreateState, FundPool, Stake, Unstake};
pub use crate::custodian::Custodian;
pub use crate::error::ErrorMsg;
pub use crate::key::Key;
pub use crate::stake::stake;
pub use crate::token::{PoolSigner, Transfer};
pub use crate::unstake::{cancel_stake, claim_stake};
