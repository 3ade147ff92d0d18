use vstd::prelude::*;
use near_sdk::AccountId;
use crate::error::LockupError;
use crate::schedule::{
    is_schedule, is_schedule_for, termination_check, unlocked_at, validation, Checkpoint,
    Schedule,
};
use crate::termination::{
    config_model, TerminationConfig, TerminationModel, VestingConditions, VestingModel,
};
use crate::util::{current_timestamp_sec, MAX_BLOCK_TIME_SEC};

verus! {

/// The index of a lockup in the ledger of all lockups.
pub type LockupIndex = u64;

/// The record of one claim on one lockup, kept until the transfer of the
/// claimed tokens is known to have succeeded or failed.
#[derive(Debug, PartialEq, Eq, Clone, Copy, Structural)]
pub struct LockupClaim {
    /// The lockup that was claimed from.
    pub index: LockupIndex,
    /// How much was claimed.
    pub claim_amount: u128,
    /// Whether the claim took the last of the lockup.
    pub is_final: bool,
}

/// The tokens locked up for one account: by which schedule they are
/// released, how much of them the account has claimed, and on what terms
/// the lockup can be terminated, if it can.
#[derive(Debug, PartialEq)]
pub struct Lockup {
    pub account_id: AccountId,
    pub schedule: Schedule,
    pub claimed_balance: u128,
    /// The terms of termination; a lockup without them cannot be terminated.
    pub termination_config: Option<TerminationConfig>,
}

/// What a `Lockup` holds.
pub struct LockupModel {
    pub account_id: AccountId,
    pub schedule: Seq<Checkpoint>,
    pub claimed_balance: u128,
    pub termination_config: Option<TerminationModel>,
}

impl View for Lockup {
    type V = LockupModel;

    open spec fn view(&self) -> LockupModel {
        LockupModel {
            account_id: self.account_id,
            schedule: self.schedule@,
            claimed_balance: self.claimed_balance,
            termination_config: config_model(self.termination_config),
        }
    }
}

impl Clone for Lockup {
    fn clone(&self) -> (res: Self)
        ensures
            res@ == self@,
    {
        Lockup {
            account_id: self.account_id.clone(),
            schedule: self.schedule.clone(),
            claimed_balance: self.claimed_balance,
            termination_config: match &self.termination_config {
                Some(config) => Some(config.clone()),
                None => None,
            },
        }
    }
}

/// The release schedule of `l` has the shape of a schedule, and so has its
/// vesting schedule where it holds one.
pub open spec fn lockup_well_formed(l: LockupModel) -> bool {
    &&& is_schedule(l.schedule)
    &&& explicit_vesting(l) matches Some(vesting) ==> is_schedule(vesting)
}

/// What validating the new lockup `l` against the transferred amount `total`
/// answers: the first check that fails. Nothing may be claimed yet, the
/// release schedule must be valid for `total`, and a vesting schedule that
/// the lockup holds must be valid for `total` and pass the two-sided check
/// against the release schedule. A vesting schedule that is only committed
/// to by hash is not checked.
pub open spec fn lockup_validation(l: LockupModel, total: u128) -> Result<(), LockupError> {
    if l.claimed_balance != 0 {
        Err(LockupError::ClaimedBalanceNotZero)
    } else if validation(l.schedule, total) is Err {
        validation(l.schedule, total)
    } else {
        match explicit_vesting(l) {
            Some(vesting) => if validation(vesting, total) is Err {
                validation(vesting, total)
            } else {
                termination_check(l.schedule, vesting)
            },
            None => Ok(()),
        }
    }
}

/// The vesting schedule that the lockup `l` holds in full, if it holds one.
pub open spec fn explicit_vesting(l: LockupModel) -> Option<Seq<Checkpoint>> {
    match l.termination_config {
        Some(config) => match config.vesting_schedule {
            VestingModel::Schedule(vesting) => Some(vesting),
            _ => None,
        },
        None => None,
    }
}

/// What claiming `amount` from the lockup `l` at the time `now` answers. The
/// claim is refused where the claimed balance would not fit in 128 bits, and
/// then where it would exceed what is unlocked at `now`. It is final when it
/// takes the claimed balance to the total balance.
pub open spec fn claim_outcome(l: LockupModel, index: LockupIndex, amount: u128, now: u128) -> Result<
    LockupClaim,
    LockupError,
> {
    if l.claimed_balance + amount > u128::MAX {
        Err(LockupError::ClaimOverflow)
    } else if l.claimed_balance + amount > unlocked_at(l.schedule, now as int) {
        Err(LockupError::ClaimTooBig { index })
    } else {
        Ok(
            LockupClaim {
                index,
                claim_amount: amount,
                is_final: l.claimed_balance + amount == l.schedule.last().balance,
            },
        )
    }
}

/// The lockup `l` with `amount` more claimed.
pub open spec fn after_claim(l: LockupModel, amount: u128) -> LockupModel {
    LockupModel { claimed_balance: (l.claimed_balance + amount) as u128, ..l }
}

/// The lockup `l` with a claim of `amount` taken back, down to nothing
/// claimed at the least.
pub open spec fn after_revert(l: LockupModel, amount: u128) -> LockupModel {
    LockupModel {
        claimed_balance: if l.claimed_balance >= amount {
            (l.claimed_balance - amount) as u128
        } else {
            0
        },
        ..l
    }
}

/// What is unlocked of the lockup `l` at `now` and not yet claimed.
pub open spec fn unclaimed_balance(l: LockupModel, now: u128) -> u128 {
    if unlocked_at(l.schedule, now as int) >= l.claimed_balance {
        (unlocked_at(l.schedule, now as int) - l.claimed_balance) as u128
    } else {
        0
    }
}

/// Taking back a claim that was granted restores the lockup exactly.
pub proof fn lemma_revert_restores(l: LockupModel, index: LockupIndex, amount: u128, now: u128)
    requires
        claim_outcome(l, index, amount, now) is Ok,
    ensures
        after_revert(after_claim(l, amount), amount) == l,
{
}

impl Lockup {
    /// See [`lockup_well_formed`].
    pub open spec fn well_formed(&self) -> bool {
        lockup_well_formed(self@)
    }

    /// Tells whether the schedules of the lockup have the shape of schedules.
    pub fn is_well_formed(&self) -> (res: bool)
        ensures
            res == self.well_formed(),
    {
        if !self.schedule.is_well_formed() {
            return false;
        }
        match &self.termination_config {
            Some(config) => match &config.vesting_schedule {
                VestingConditions::Schedule(vesting) => vesting.is_well_formed(),
                _ => true,
            },
            None => true,
        }
    }

    /// Builds the lockup of `account_id` that unlocks all of `total_balance`
    /// at `timestamp`, with nothing claimed and no way to terminate it. A
    /// zero timestamp is refused, and then a zero balance.
    pub fn new_unlocked_since(account_id: AccountId, total_balance: u128, timestamp: u128) -> (res:
        Result<Lockup, LockupError>)
        ensures
            timestamp > 0 && total_balance > 0 ==> res is Ok,
            res matches Ok(lockup) ==> lockup@ == (LockupModel {
                account_id,
                schedule: crate::schedule::unlocked_since_schedule(total_balance, timestamp),
                claimed_balance: 0,
                termination_config: None,
            }) && lockup_validation(lockup@, total_balance) is Ok && lockup.well_formed(),
            res matches Err(e) ==> e == (if timestamp == 0 {
                LockupError::Invariant
            } else {
                LockupError::ZeroTotalBalance
            }) && (timestamp == 0 || total_balance == 0),
    {
        let schedule = match Schedule::new_unlocked_since(total_balance, timestamp) {
            Ok(schedule) => schedule,
            Err(e) => {
                return Err(e);
            },
        };
        proof {
            crate::schedule::lemma_validation_ok(schedule@, total_balance);
        }
        Ok(Lockup { account_id, schedule, claimed_balance: 0, termination_config: None })
    }

    /// Claims `claim_amount` from the lockup at the time of the current
    /// block, as [`Lockup::claim_at`] does at a given time.
    pub fn claim(&mut self, index: LockupIndex, claim_amount: u128) -> (res: Result<
        LockupClaim,
        LockupError,
    >)
        requires
            old(self).well_formed(),
        ensures
            exists|now: u128|
                now <= MAX_BLOCK_TIME_SEC && res == #[trigger] claim_outcome(
                    old(self)@,
                    index,
                    claim_amount,
                    now,
                ),
            res is Ok ==> final(self)@ == after_claim(old(self)@, claim_amount),
            res is Err ==> final(self)@ == old(self)@,
    {
        let now = current_timestamp_sec();
        self.claim_at(index, claim_amount, now)
    }

    /// Claims `claim_amount` from the lockup at the time `now`; see
    /// [`claim_outcome`]. The claimed balance grows at once, before the
    /// tokens are transferred. A refused claim changes nothing.
    pub fn claim_at(&mut self, index: LockupIndex, claim_amount: u128, now: u128) -> (res: Result<
        LockupClaim,
        LockupError,
    >)
        requires
            old(self).well_formed(),
        ensures
            res == claim_outcome(old(self)@, index, claim_amount, now),
            res is Ok ==> final(self)@ == after_claim(old(self)@, claim_amount),
            res is Ok ==> old(self).claimed_balance <= final(self).claimed_balance
                <= final(self).schedule@.last().balance,
            res is Err ==> final(self)@ == old(self)@,
    {
        let unlocked_balance = self.schedule.unlocked_balance(now);
        let balance_claimed_new = match self.claimed_balance.checked_add(claim_amount) {
            Some(sum) => sum,
            None => {
                return Err(LockupError::ClaimOverflow);
            },
        };
        if unlocked_balance < balance_claimed_new {
            return Err(LockupError::ClaimTooBig { index });
        }
        self.claimed_balance = balance_claimed_new;
        Ok(
            LockupClaim {
                index,
                claim_amount,
                is_final: balance_claimed_new == self.schedule.total_balance(),
            },
        )
    }

    /// Takes back a claim of `claim_amount` whose transfer failed; see
    /// [`after_revert`].
    pub fn revert_claim(&mut self, claim_amount: u128)
        ensures
            final(self)@ == after_revert(old(self)@, claim_amount),
    {
        self.claimed_balance = if self.claimed_balance >= claim_amount {
            self.claimed_balance - claim_amount
        } else {
            0
        };
    }

    /// What is unlocked at `now` and not yet claimed.
    pub fn unclaimed_balance(&self, now: u128) -> (res: u128)
        requires
            self.well_formed(),
        ensures
            res == unclaimed_balance(self@, now),
    {
        let unlocked_balance = self.schedule.unlocked_balance(now);
        if unlocked_balance >= self.claimed_balance {
            unlocked_balance - self.claimed_balance
        } else {
            0
        }
    }

    /// Checks a new lockup against the amount that was transferred for it,
    /// and names the first rule that is broken; see [`lockup_validation`].
    pub fn assert_valid(&self, total_balance: u128) -> (res: Result<(), LockupError>)
        ensures
            res == lockup_validation(self@, total_balance),
            res is Ok ==> self.well_formed() && is_schedule_for(self.schedule@, total_balance),
    {
        if self.claimed_balance != 0 {
            return Err(LockupError::ClaimedBalanceNotZero);
        }
        match self.schedule.assert_valid(total_balance) {
            Err(e) => {
                return Err(e);
            },
            Ok(()) => {},
        }
        match &self.termination_config {
            Some(config) => match &config.vesting_schedule {
                VestingConditions::SameAsLockupSchedule => Ok(()),
                VestingConditions::Hash(_) => Ok(()),
                VestingConditions::Schedule(vesting) => {
                    match vesting.assert_valid(total_balance) {
                        Err(e) => {
                            return Err(e);
                        },
                        Ok(()) => {},
                    }
                    self.schedule.assert_valid_termination_schedule(vesting)
                },
            },
            None => Ok(()),
        }
    }
}

/// A request to lock tokens up: for whom, released by which schedule, and
/// vesting how, if the lockup is to be terminable.
#[derive(Debug, PartialEq)]
pub struct LockupCreate {
    pub account_id: AccountId,
    pub schedule: Schedule,
    pub vesting_schedule: Option<VestingConditions>,
}

/// What a `LockupCreate` holds.
pub struct LockupCreateModel {
    pub account_id: AccountId,
    pub schedule: Seq<Checkpoint>,
    pub vesting_schedule: Option<VestingModel>,
}

impl View for LockupCreate {
    type V = LockupCreateModel;

    open spec fn view(&self) -> LockupCreateModel {
        LockupCreateModel {
            account_id: self.account_id,
            schedule: self.schedule@,
            vesting_schedule: vesting_model(self.vesting_schedule),
        }
    }
}

/// What the vesting conditions of a request hold, if it has any.
pub open spec fn vesting_model(vesting: Option<VestingConditions>) -> Option<VestingModel> {
    match vesting {
        Some(vesting) => Some(vesting@),
        None => None,
    }
}

impl Clone for LockupCreate {
    fn clone(&self) -> (res: Self)
        ensures
            res@ == self@,
    {
        LockupCreate {
            account_id: self.account_id.clone(),
            schedule: self.schedule.clone(),
            vesting_schedule: match &self.vesting_schedule {
                Some(vesting) => Some(vesting.clone()),
                None => None,
            },
        }
    }
}

/// The lockup that the request `c` asks for when `payer` pays for it:
/// nothing is claimed, and `payer` gets back what has not vested if the
/// lockup is terminated.
pub open spec fn requested_lockup(c: LockupCreateModel, payer: AccountId) -> LockupModel {
    LockupModel {
        account_id: c.account_id,
        schedule: c.schedule,
        claimed_balance: 0,
        termination_config: match c.vesting_schedule {
            Some(vesting) => Some(
                TerminationModel { beneficiary_id: payer, vesting_schedule: vesting },
            ),
            None => None,
        },
    }
}

/// What turning the request `c` into a lockup answers: a request without
/// checkpoints is refused, and so is one whose lockup is not valid for the
/// total balance of its own release schedule.
pub open spec fn request_validation(c: LockupCreateModel, payer: AccountId) -> Result<
    (),
    LockupError,
> {
    if c.schedule.len() == 0 {
        Err(LockupError::TooFewCheckpoints)
    } else {
        lockup_validation(requested_lockup(c, payer), c.schedule.last().balance)
    }
}

impl LockupCreate {
    /// The request for a lockup of `account_id` that has unlocked all of
    /// `total_balance` from the first second on and cannot be terminated. A
    /// zero balance is refused.
    pub fn new_unlocked(account_id: AccountId, total_balance: u128) -> (res: Result<
        LockupCreate,
        LockupError,
    >)
        ensures
            total_balance > 0 ==> res is Ok,
            res matches Ok(request) ==> request@ == (LockupCreateModel {
                account_id,
                schedule: crate::schedule::unlocked_since_schedule(total_balance, 1),
                vesting_schedule: None,
            }),
            res matches Err(e) ==> e == LockupError::ZeroTotalBalance && total_balance == 0,
    {
        match Schedule::new_unlocked(total_balance) {
            Ok(schedule) => Ok(LockupCreate { account_id, schedule, vesting_schedule: None }),
            Err(e) => Err(e),
        }
    }

    /// Builds the lockup that the request asks for, paid for by `payer_id`,
    /// and validates it against the total balance of its release schedule;
    /// see [`requested_lockup`] and [`request_validation`].
    pub fn into_lockup(&self, payer_id: &AccountId) -> (res: Result<Lockup, LockupError>)
        ensures
            res matches Ok(lockup) ==> lockup@ == requested_lockup(self@, *payer_id)
                && lockup.well_formed(),
            res is Ok <==> request_validation(self@, *payer_id) is Ok,
            res matches Err(e) ==> request_validation(self@, *payer_id) == Err::<(), LockupError>(e),
    {
        let lockup = Lockup {
            account_id: self.account_id.clone(),
            schedule: self.schedule.clone(),
            claimed_balance: 0,
            termination_config: match &self.vesting_schedule {
                Some(vesting) => Some(
                    TerminationConfig {
                        beneficiary_id: payer_id.clone(),
                        vesting_schedule: vesting.clone(),
                    },
                ),
                None => None,
            },
        };
        if lockup.schedule.0.len() == 0 {
            return Err(LockupError::TooFewCheckpoints);
        }
        let total_balance = lockup.schedule.total_balance();
        match lockup.assert_valid(total_balance) {
            Ok(()) => Ok(lockup),
            Err(e) => Err(e),
        }
    }
}

} // verus!
