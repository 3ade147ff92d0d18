use vstd::prelude::*;
use near_sdk::AccountId;
use crate::lockup::{Lockup, LockupModel};
use crate::LockupIndex;

verus! {

/// What is made known when a lockup is created.
#[derive(Debug, PartialEq)]
pub struct FtLockupCreateLockup {
    pub id: LockupIndex,
    pub account_id: AccountId,
    /// The balance that the lockup releases in all.
    pub balance: u128,
    /// The time of its first checkpoint.
    pub start: u128,
    /// The time of its last checkpoint.
    pub finish: u128,
    /// Whether it can be terminated.
    pub terminatable: bool,
}

/// What is made known when a claim on a lockup is settled.
#[derive(Debug, PartialEq, Eq, Clone, Copy, Structural)]
pub struct FtLockupClaimLockup {
    pub id: LockupIndex,
    pub amount: u128,
}

/// What is made known when a lockup is terminated.
#[derive(Debug, PartialEq, Eq, Clone, Copy, Structural)]
pub struct FtLockupTerminateLockup {
    pub id: LockupIndex,
    pub termination_timestamp: u128,
    pub unvested_balance: u128,
}

/// The creation event of the lockup `l` stored at `id`.
pub open spec fn creation_event(id: LockupIndex, l: LockupModel) -> FtLockupCreateLockup {
    FtLockupCreateLockup {
        id,
        account_id: l.account_id,
        balance: l.schedule.last().balance,
        start: l.schedule.first().timestamp,
        finish: l.schedule.last().timestamp,
        terminatable: l.termination_config is Some,
    }
}

impl FtLockupCreateLockup {
    /// The creation event of a lockup and the index it is stored at.
    pub fn from(tuple: (LockupIndex, Lockup)) -> (res: FtLockupCreateLockup)
        requires
            tuple.1.schedule@.len() > 0,
        ensures
            res == creation_event(tuple.0, tuple.1@),
    {
        let (id, lockup) = tuple;
        let n = lockup.schedule.0.len();
        FtLockupCreateLockup {
            id,
            balance: lockup.schedule.0[n - 1].balance,
            start: lockup.schedule.0[0].timestamp,
            finish: lockup.schedule.0[n - 1].timestamp,
            terminatable: lockup.termination_config.is_some(),
            account_id: lockup.account_id,
        }
    }
}

} // verus!
