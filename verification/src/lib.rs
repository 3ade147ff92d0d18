//! Vesting accounts for fungible tokens: piecewise-linear release schedules,
//! per-lockup claim ledgers, early termination, and the reconciliation of
//! claims with a settlement that may fail.

pub mod account;
pub mod callbacks;
pub mod contract;
pub mod contract_laws;
pub mod error;
pub mod events;
pub mod ft_token_receiver;
pub mod hash;
pub mod index_set;
pub mod internal;
pub mod lockup;
pub mod math;
pub mod schedule;
pub mod schedule_laws;
pub mod termination;
pub mod util;
pub mod view;

pub use crate::lockup::LockupIndex;
