use vstd::prelude::*;
use near_sdk::AccountId;
use crate::error::LockupError;
use crate::hash::schedule_hash;
use crate::lockup::{Lockup, LockupModel};
use crate::schedule::{
    terminated, termination_check, termination_error, unlocked_at, validation,
    Checkpoint, Schedule,
};

verus! {

/// By which schedule the tokens of a lockup vest, as against the schedule by
/// which they are released.
#[derive(Debug, PartialEq)]
pub enum VestingConditions {
    /// They vest as they are released.
    SameAsLockupSchedule,
    /// They vest by a schedule that is kept back; this is its hash.
    Hash([u8; 32]),
    /// They vest by this schedule.
    Schedule(Schedule),
}

/// What the termination of a lockup needs to know.
#[derive(Debug, PartialEq)]
pub struct TerminationConfig {
    /// Who paid for the lockup and gets what has not vested.
    pub beneficiary_id: AccountId,
    /// How the tokens vest.
    pub vesting_schedule: VestingConditions,
}

/// What a `VestingConditions` holds.
pub enum VestingModel {
    SameAsLockupSchedule,
    Hash(Seq<u8>),
    Schedule(Seq<Checkpoint>),
}

/// What a `TerminationConfig` holds.
pub struct TerminationModel {
    pub beneficiary_id: AccountId,
    pub vesting_schedule: VestingModel,
}

impl View for VestingConditions {
    type V = VestingModel;

    open spec fn view(&self) -> VestingModel {
        match self {
            VestingConditions::SameAsLockupSchedule => VestingModel::SameAsLockupSchedule,
            VestingConditions::Hash(hash) => VestingModel::Hash(hash@),
            VestingConditions::Schedule(schedule) => VestingModel::Schedule(schedule@),
        }
    }
}

impl View for TerminationConfig {
    type V = TerminationModel;

    open spec fn view(&self) -> TerminationModel {
        TerminationModel {
            beneficiary_id: self.beneficiary_id,
            vesting_schedule: self.vesting_schedule@,
        }
    }
}

impl Clone for VestingConditions {
    fn clone(&self) -> (res: Self)
        ensures
            res@ == self@,
    {
        match self {
            VestingConditions::SameAsLockupSchedule => VestingConditions::SameAsLockupSchedule,
            VestingConditions::Hash(hash) => VestingConditions::Hash(*hash),
            VestingConditions::Schedule(schedule) => VestingConditions::Schedule(schedule.clone()),
        }
    }
}

impl Clone for TerminationConfig {
    fn clone(&self) -> (res: Self)
        ensures
            res@ == self@,
    {
        TerminationConfig {
            beneficiary_id: self.beneficiary_id.clone(),
            vesting_schedule: self.vesting_schedule.clone(),
        }
    }
}

/// The schedule by which the lockup `l` vests, as a termination finds it.
/// `revealed` is the schedule that the caller discloses and `digest` its
/// hash; both count only where the lockup committed to a hash. The
/// disclosed schedule must then be there, hash to the committed value, be
/// valid for the lockup's total balance, and pass the two-sided check against
/// the release schedule, in this order.
pub open spec fn vesting_schedule_of(
    l: LockupModel,
    revealed: Option<Seq<Checkpoint>>,
    digest: Option<Seq<u8>>,
) -> Result<Seq<Checkpoint>, LockupError> {
    match l.termination_config {
        None => Err(LockupError::NoTerminationConfig),
        Some(config) => match config.vesting_schedule {
            VestingModel::SameAsLockupSchedule => Ok(l.schedule),
            VestingModel::Schedule(vesting) => Ok(vesting),
            VestingModel::Hash(committed) => match (revealed, digest) {
                (Some(schedule), Some(hash)) => {
                    if committed != hash {
                        Err(LockupError::HashMismatch)
                    } else if validation(schedule, l.schedule.last().balance) is Err {
                        Err(validation(schedule, l.schedule.last().balance)->Err_0)
                    } else if termination_check(l.schedule, schedule) is Err {
                        Err(termination_check(l.schedule, schedule)->Err_0)
                    } else {
                        Ok(schedule)
                    }
                },
                _ => Err(LockupError::RevealedScheduleRequired),
            },
        },
    }
}

/// What has vested at `timestamp` by the schedule `vesting`.
pub open spec fn vested_balance(vesting: Seq<Checkpoint>, timestamp: u128) -> u128 {
    unlocked_at(vesting, timestamp as int) as u128
}

/// What has not vested of the lockup `l` at `timestamp`: the total balance
/// less what has vested, and nothing where more has vested than the total.
pub open spec fn unvested_balance(l: LockupModel, vesting: Seq<Checkpoint>, timestamp: u128) -> u128 {
    let total = l.schedule.last().balance;
    let vested = vested_balance(vesting, timestamp);
    if total > vested {
        (total - vested) as u128
    } else {
        0
    }
}

/// What terminating the lockup `l` at `timestamp` answers: the balance that
/// has not vested and the account that gets it back, or why the lockup
/// cannot be terminated.
pub open spec fn termination_outcome(
    l: LockupModel,
    revealed: Option<Seq<Checkpoint>>,
    digest: Option<Seq<u8>>,
    timestamp: u128,
) -> Result<(u128, AccountId), LockupError> {
    match vesting_schedule_of(l, revealed, digest) {
        Err(e) => Err(e),
        Ok(vesting) => {
            let vested = vested_balance(vesting, timestamp);
            let unvested = unvested_balance(l, vesting, timestamp);
            if unvested > 0 && termination_error(l.schedule, vested, timestamp) is Some {
                Err(termination_error(l.schedule, vested, timestamp)->Some_0)
            } else {
                Ok((unvested, l.termination_config->Some_0.beneficiary_id))
            }
        },
    }
}

/// The lockup `l` after it was terminated at `timestamp`: its termination
/// config is used up, and where something had not vested its release
/// schedule is cut down to what had.
pub open spec fn after_termination(
    l: LockupModel,
    revealed: Option<Seq<Checkpoint>>,
    digest: Option<Seq<u8>>,
    timestamp: u128,
) -> LockupModel {
    let vesting = vesting_schedule_of(l, revealed, digest)->Ok_0;
    LockupModel {
        schedule: if unvested_balance(l, vesting, timestamp) > 0 {
            terminated(l.schedule, vested_balance(vesting, timestamp), timestamp)
        } else {
            l.schedule
        },
        termination_config: None,
        ..l
    }
}

/// A termination keeps the claimed balance within the total balance: where
/// no more is claimed than the lockup releases in all, and no more than has
/// vested at the time of termination, no more is claimed than the terminated
/// lockup releases in all.
pub proof fn lemma_termination_covers_claims(
    l: LockupModel,
    revealed: Option<Seq<Checkpoint>>,
    digest: Option<Seq<u8>>,
    timestamp: u128,
)
    requires
        termination_outcome(l, revealed, digest, timestamp) is Ok,
        l.claimed_balance <= l.schedule.last().balance,
        l.claimed_balance <= vested_balance(
            vesting_schedule_of(l, revealed, digest)->Ok_0,
            timestamp,
        ),
    ensures
        after_termination(l, revealed, digest, timestamp).claimed_balance <= after_termination(
            l,
            revealed,
            digest,
            timestamp,
        ).schedule.last().balance,
{
}

/// The lockup `l` vests by a schedule that it only holds the hash of.
pub open spec fn commits_to_hash(l: LockupModel) -> bool {
    match l.termination_config {
        Some(config) => config.vesting_schedule is Hash,
        None => false,
    }
}

/// The hash to which the revealed schedule is held: that of the schedule,
/// where the lockup committed to a hash and a schedule is revealed.
pub open spec fn revealed_digest(l: LockupModel, revealed: Option<Seq<Checkpoint>>) -> Option<
    Seq<u8>,
> {
    if revealed is Some && commits_to_hash(l) {
        Some(schedule_hash(revealed->Some_0))
    } else {
        None
    }
}

/// Tells whether two hashes are the same.
fn same_hash(a: &[u8; 32], b: &[u8; 32]) -> (res: bool)
    ensures
        res == (a@ == b@),
{
    let mut i: usize = 0;
    while i < 32
        invariant
            i <= 32,
            forall|k: int| 0 <= k < i ==> a@[k] == b@[k],
        decreases 32 - i,
    {
        if a[i] != b[i] {
            return false;
        }
        i = i + 1;
    }
    assert(a@ =~= b@);
    true
}

impl Lockup {
    /// Terminates the lockup at `termination_timestamp`: finds the schedule
    /// by which it vests, and cuts the release schedule down to what has
    /// vested by then. Returns the balance that has not vested and the account
    /// that gets it back. `hashed_schedule` reveals the vesting schedule of a
    /// lockup that committed to its hash. A lockup can be terminated once.
    pub fn terminate(&mut self, hashed_schedule: Option<Schedule>, termination_timestamp: u128) -> (res:
        Result<(u128, AccountId), LockupError>)
        requires
            old(self).well_formed(),
            hashed_schedule is Some && commits_to_hash(old(self)@)
                ==> hashed_schedule->Some_0@.len() <= u32::MAX,
        ensures
            res == termination_outcome(
                old(self)@,
                revealed_model(hashed_schedule),
                revealed_digest(old(self)@, revealed_model(hashed_schedule)),
                termination_timestamp,
            ),
            res is Ok ==> final(self)@ == after_termination(
                old(self)@,
                revealed_model(hashed_schedule),
                revealed_digest(old(self)@, revealed_model(hashed_schedule)),
                termination_timestamp,
            ) && final(self).well_formed(),
            res is Err ==> final(self)@ == old(self)@,
    {
        let committed = match &self.termination_config {
            Some(config) => match &config.vesting_schedule {
                VestingConditions::Hash(_) => true,
                _ => false,
            },
            None => false,
        };
        let digest = match &hashed_schedule {
            Some(schedule) => if committed {
                Some(schedule.hash())
            } else {
                None
            },
            None => None,
        };
        self.terminate_revealed(hashed_schedule, digest, termination_timestamp)
    }

    /// Terminates the lockup as [`Lockup::terminate`] does, with `digest`
    /// taken for the hash of the revealed schedule.
    pub fn terminate_revealed(
        &mut self,
        hashed_schedule: Option<Schedule>,
        digest: Option<[u8; 32]>,
        termination_timestamp: u128,
    ) -> (res: Result<(u128, AccountId), LockupError>)
        requires
            old(self).well_formed(),
        ensures
            res == termination_outcome(
                old(self)@,
                revealed_model(hashed_schedule),
                digest_model(digest),
                termination_timestamp,
            ),
            res is Ok ==> final(self)@ == after_termination(
                old(self)@,
                revealed_model(hashed_schedule),
                digest_model(digest),
                termination_timestamp,
            ) && final(self).well_formed(),
            res is Err ==> final(self)@ == old(self)@,
    {
        let total_balance = self.schedule.total_balance();
        let vested_balance = match &self.termination_config {
            None => {
                return Err(LockupError::NoTerminationConfig);
            },
            Some(config) => match &config.vesting_schedule {
                VestingConditions::SameAsLockupSchedule => self.schedule.unlocked_balance(
                    termination_timestamp,
                ),
                VestingConditions::Schedule(schedule) => schedule.unlocked_balance(
                    termination_timestamp,
                ),
                VestingConditions::Hash(committed) => match (&hashed_schedule, &digest) {
                    (Some(schedule), Some(hash)) => {
                        if !same_hash(committed, hash) {
                            return Err(LockupError::HashMismatch);
                        }
                        match schedule.assert_valid(total_balance) {
                            Err(e) => {
                                return Err(e);
                            },
                            Ok(()) => {},
                        }
                        match self.schedule.assert_valid_termination_schedule(schedule) {
                            Err(e) => {
                                return Err(e);
                            },
                            Ok(()) => {},
                        }
                        schedule.unlocked_balance(termination_timestamp)
                    },
                    _ => {
                        return Err(LockupError::RevealedScheduleRequired);
                    },
                },
            },
        };
        let unvested_balance = if total_balance > vested_balance {
            total_balance - vested_balance
        } else {
            0
        };
        if unvested_balance > 0 {
            match self.schedule.terminate(vested_balance, termination_timestamp) {
                Err(e) => {
                    return Err(e);
                },
                Ok(()) => {},
            }
        }
        match self.termination_config.take() {
            Some(config) => Ok((unvested_balance, config.beneficiary_id)),
            None => Err(LockupError::NoTerminationConfig),
        }
    }
}

/// What a termination config holds, if there is one.
pub open spec fn config_model(config: Option<TerminationConfig>) -> Option<TerminationModel> {
    match config {
        Some(config) => Some(config@),
        None => None,
    }
}

/// What a revealed schedule holds, if one is revealed.
pub open spec fn revealed_model(hashed_schedule: Option<Schedule>) -> Option<Seq<Checkpoint>> {
    match hashed_schedule {
        Some(schedule) => Some(schedule@),
        None => None,
    }
}

/// What a digest holds, if one is given.
pub open spec fn digest_model(digest: Option<[u8; 32]>) -> Option<Seq<u8>> {
    match digest {
        Some(hash) => Some(hash@),
        None => None,
    }
}

} // verus!
