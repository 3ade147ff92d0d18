use vstd::prelude::*;
use near_sdk::AccountId;
use crate::contract::{within, Contract};
use crate::error::LockupError;
use crate::hash::schedule_hash;
use crate::index_set::IndexSet;
use crate::lockup::{
    unclaimed_balance, vesting_model, Lockup, LockupCreate, LockupCreateModel, LockupModel,
};
use crate::schedule::{
    is_schedule, termination_check, unlocked_at, validation, Checkpoint, Schedule,
};
use crate::termination::{config_model, TerminationConfig, VestingConditions};
use crate::util::{current_timestamp_sec, MAX_BLOCK_TIME_SEC};
use crate::LockupIndex;

verus! {

/// A lockup as it is shown to the outside: what it holds, and what follows
/// from that at the time of the answer.
#[derive(Debug)]
pub struct LockupView {
    pub account_id: AccountId,
    pub schedule: Schedule,
    pub claimed_balance: u128,
    /// The terms of termination; a lockup without them cannot be terminated.
    pub termination_config: Option<TerminationConfig>,
    /// The balance that the lockup releases in all.
    pub total_balance: u128,
    /// What is unlocked and not yet claimed.
    pub unclaimed_balance: u128,
    /// The time of the answer.
    pub timestamp: u128,
}

/// A request for a lockup as it is shown to the outside: what it holds, and
/// what the lockup would have unlocked at the time of the answer.
pub struct LockupCreateView {
    pub account_id: AccountId,
    pub schedule: Schedule,
    pub vesting_schedule: Option<VestingConditions>,
    pub claimed_balance: u128,
    pub total_balance: u128,
    pub unclaimed_balance: u128,
    /// The time of the answer.
    pub timestamp: u128,
}

impl LockupView {
    /// This is the lockup `l` as shown at the time `now`.
    pub open spec fn shows(&self, l: LockupModel, now: u128) -> bool {
        &&& self.account_id == l.account_id
        &&& self.schedule@ == l.schedule
        &&& self.claimed_balance == l.claimed_balance
        &&& config_model(self.termination_config) == l.termination_config
        &&& self.total_balance == l.schedule.last().balance
        &&& self.unclaimed_balance == unclaimed_balance(l, now)
        &&& self.timestamp == now
    }

    /// Shows the lockup at the time of the current block.
    pub fn from(lockup: Lockup) -> (res: LockupView)
        requires
            lockup.well_formed(),
        ensures
            exists|now: u128| now <= MAX_BLOCK_TIME_SEC && #[trigger] res.shows(lockup@, now),
    {
        let now = current_timestamp_sec();
        LockupView::at(lockup, now)
    }

    /// Shows the lockup at the time `timestamp`.
    pub fn at(lockup: Lockup, timestamp: u128) -> (res: LockupView)
        requires
            lockup.well_formed(),
        ensures
            res.shows(lockup@, timestamp),
    {
        let total_balance = lockup.schedule.total_balance();
        let unclaimed_balance = lockup.unclaimed_balance(timestamp);
        let Lockup { account_id, schedule, claimed_balance, termination_config } = lockup;
        LockupView {
            account_id,
            schedule,
            claimed_balance,
            termination_config,
            total_balance,
            unclaimed_balance,
            timestamp,
        }
    }
}

impl LockupCreateView {
    /// This is the request `c` as shown at the time `now`.
    pub open spec fn shows(&self, c: LockupCreateModel, now: u128) -> bool {
        &&& self.account_id == c.account_id
        &&& self.schedule@ == c.schedule
        &&& vesting_model(self.vesting_schedule) == c.vesting_schedule
        &&& self.claimed_balance == 0
        &&& self.total_balance == c.schedule.last().balance
        &&& self.unclaimed_balance == unlocked_at(c.schedule, now as int)
        &&& self.timestamp == now
    }

    /// Shows the request at the time of the current block.
    pub fn from(lockup_create: LockupCreate) -> (res: LockupCreateView)
        requires
            is_schedule(lockup_create.schedule@),
        ensures
            exists|now: u128|
                now <= MAX_BLOCK_TIME_SEC && #[trigger] res.shows(lockup_create@, now),
    {
        let now = current_timestamp_sec();
        LockupCreateView::at(lockup_create, now)
    }

    /// Shows the request at the time `timestamp`.
    pub fn at(lockup_create: LockupCreate, timestamp: u128) -> (res: LockupCreateView)
        requires
            is_schedule(lockup_create.schedule@),
        ensures
            res.shows(lockup_create@, timestamp),
    {
        let total_balance = lockup_create.schedule.total_balance();
        let unclaimed_balance = lockup_create.schedule.unlocked_balance(timestamp);
        let LockupCreate { account_id, schedule, vesting_schedule } = lockup_create;
        LockupCreateView {
            account_id,
            schedule,
            vesting_schedule,
            claimed_balance: 0,
            total_balance,
            unclaimed_balance,
            timestamp,
        }
    }
}

/// The list shows the lockups stored at `ids`, in this order and each with
/// its index, as they are in the ledger at the time `now`.
pub open spec fn views_show(
    views: Seq<(LockupIndex, LockupView)>,
    ids: Seq<LockupIndex>,
    ledger: Seq<LockupModel>,
    now: u128,
) -> bool {
    &&& views.len() == ids.len()
    &&& forall|k: int|
        0 <= k < views.len() ==> (#[trigger] views[k]).0 == ids[k] && views[k].1.shows(
            ledger[ids[k] as int],
            now,
        )
}

/// Those of the indices at which a ledger of `len` lockups stores one.
pub open spec fn stored_among(indices: Seq<LockupIndex>, len: nat) -> Seq<LockupIndex> {
    indices.filter(|index: LockupIndex| index < len)
}

/// The first index of a page, which is zero where none is given.
pub open spec fn page_start(from_index: Option<LockupIndex>) -> LockupIndex {
    match from_index {
        Some(index) => index,
        None => 0,
    }
}

/// The index at which a page ends: the limit, or the number of lockups
/// where that is less or no limit is given.
pub open spec fn page_end(limit: Option<LockupIndex>, len: nat) -> LockupIndex {
    match limit {
        Some(limit) => if limit < len {
            limit
        } else {
            len as LockupIndex
        },
        None => len as LockupIndex,
    }
}

/// The indices of a page: those from its start up to its end.
pub open spec fn page(from_index: Option<LockupIndex>, limit: Option<LockupIndex>, len: nat) -> Seq<
    LockupIndex,
> {
    if page_start(from_index) < page_end(limit, len) {
        Seq::new(
            (page_end(limit, len) - page_start(from_index)) as nat,
            |k: int| (page_start(from_index) + k) as LockupIndex,
        )
    } else {
        Seq::empty()
    }
}

/// What validating a release schedule answers, alone or together with the
/// schedule by which its tokens vest: both must be valid for `total`, and
/// together they must pass the two-sided check.
pub open spec fn schedule_validation(
    schedule: Seq<Checkpoint>,
    total: u128,
    vesting: Option<Seq<Checkpoint>>,
) -> Result<(), LockupError> {
    if validation(schedule, total) is Err {
        validation(schedule, total)
    } else {
        match vesting {
            Some(vesting) => if validation(vesting, total) is Err {
                validation(vesting, total)
            } else {
                termination_check(schedule, vesting)
            },
            None => Ok(()),
        }
    }
}

impl Contract {
    /// Shows the lockup stored at `index`, if there is one, at the time of
    /// the current block.
    pub fn get_lockup(&self, index: LockupIndex) -> (res: Option<LockupView>)
        requires
            self.well_formed(),
        ensures
            res is Some <==> index < self@.len(),
            res matches Some(view) ==> exists|now: u128|
                now <= MAX_BLOCK_TIME_SEC && #[trigger] view.shows(self@[index as int], now),
    {
        self.get_lockup_at(index, current_timestamp_sec())
    }

    /// Shows the lockup stored at `index`, if there is one, at the time `now`.
    pub fn get_lockup_at(&self, index: LockupIndex, now: u128) -> (res: Option<LockupView>)
        requires
            self.well_formed(),
        ensures
            res is Some <==> index < self@.len(),
            res matches Some(view) ==> view.shows(self@[index as int], now),
    {
        assert(self@.len() == self.lockups.len());
        if index < self.lockups.len() as u64 {
            Some(LockupView::at(self.lockup_at(index).clone(), now))
        } else {
            None
        }
    }

    /// Shows the lockups of one account, whose set of indices is `indices`,
    /// at the time of the current block.
    pub fn get_account_lockups(&self, indices: &IndexSet) -> (res: Vec<(LockupIndex, LockupView)>)
        requires
            self.well_formed(),
            within(indices@, self@.len()),
        ensures
            exists|now: u128|
                now <= MAX_BLOCK_TIME_SEC && #[trigger] views_show(
                    res@,
                    indices.items(),
                    self@,
                    now,
                ),
    {
        let items = indices.to_vec();
        proof {
            assert forall|k: int| 0 <= k < items.len() implies items@[k] < self@.len() by {
                assert(items@.contains(items@[k]));
            }
        }
        self.get_lockups_at(items, current_timestamp_sec())
    }

    /// Shows the lockups stored at the indices given, in the order given, at
    /// the time of the current block. An index at which nothing is stored is
    /// passed over.
    pub fn get_lockups(&self, indices: Vec<LockupIndex>) -> (res: Vec<(LockupIndex, LockupView)>)
        requires
            self.well_formed(),
        ensures
            exists|now: u128|
                now <= MAX_BLOCK_TIME_SEC && #[trigger] views_show(
                    res@,
                    stored_among(indices@, self@.len()),
                    self@,
                    now,
                ),
    {
        self.get_lockups_at(indices, current_timestamp_sec())
    }

    /// Shows the lockups stored at the indices given, in the order given, at
    /// the time `now`. An index at which nothing is stored is passed over.
    pub fn get_lockups_at(&self, indices: Vec<LockupIndex>, now: u128) -> (res: Vec<
        (LockupIndex, LockupView),
    >)
        requires
            self.well_formed(),
        ensures
            views_show(res@, stored_among(indices@, self@.len()), self@, now),
            (forall|k: int| 0 <= k < indices.len() ==> indices@[k] < self@.len()) ==> stored_among(
                indices@,
                self@.len(),
            ) == indices@,
    {
        let mut res: Vec<(LockupIndex, LockupView)> = Vec::new();
        let mut i: usize = 0;
        assert(self@.len() == self.lockups.len());
        proof {
            reveal(Seq::filter);
            assert(indices@.take(0) =~= Seq::<LockupIndex>::empty());
        }
        while i < indices.len()
            invariant
                i <= indices.len(),
                self.well_formed(),
                self@.len() == self.lockups.len(),
                views_show(res@, stored_among(indices@.take(i as int), self@.len()), self@, now),
                (forall|k: int| 0 <= k < i ==> indices@[k] < self@.len()) ==> stored_among(
                    indices@.take(i as int),
                    self@.len(),
                ) == indices@.take(i as int),
            decreases indices.len() - i,
        {
            let index = indices[i];
            proof {
                reveal(Seq::filter);
                assert(indices@.take(i + 1).drop_last() == indices@.take(i as int));
                assert(indices@.take(i + 1).last() == index);
            }
            match self.get_lockup_at(index, now) {
                Some(view) => {
                    res.push((index, view));
                },
                None => {},
            }
            i = i + 1;
        }
        proof {
            assert(indices@.take(indices@.len() as int) == indices@);
        }
        res
    }

    /// How many lockups the ledger holds.
    pub fn get_num_lockups(&self) -> (res: u64)
        ensures
            res == self@.len(),
    {
        assert(self@.len() == self.lockups.len());
        self.lockups.len() as u64
    }

    /// Shows the lockups from `from_index`, or from the first, up to the
    /// index `limit`, or to the last, at the time of the current block.
    pub fn get_lockups_paged(&self, from_index: Option<LockupIndex>, limit: Option<LockupIndex>) -> (res:
        Vec<(LockupIndex, LockupView)>)
        requires
            self.well_formed(),
        ensures
            exists|now: u128|
                now <= MAX_BLOCK_TIME_SEC && #[trigger] views_show(
                    res@,
                    page(from_index, limit, self@.len()),
                    self@,
                    now,
                ),
    {
        self.get_lockups_paged_at(from_index, limit, current_timestamp_sec())
    }

    /// Shows the lockups from `from_index`, or from the first, up to the
    /// index `limit`, or to the last, at the time `now`; see [`page`].
    pub fn get_lockups_paged_at(
        &self,
        from_index: Option<LockupIndex>,
        limit: Option<LockupIndex>,
        now: u128,
    ) -> (res: Vec<(LockupIndex, LockupView)>)
        requires
            self.well_formed(),
        ensures
            views_show(res@, page(from_index, limit, self@.len()), self@, now),
    {
        let num = self.get_num_lockups();
        let start = match from_index {
            Some(index) => index,
            None => 0,
        };
        let end = match limit {
            Some(limit) => if limit < num {
                limit
            } else {
                num
            },
            None => num,
        };
        let mut res: Vec<(LockupIndex, LockupView)> = Vec::new();
        let mut index = start;
        while index < end
            invariant
                self.well_formed(),
                start == page_start(from_index),
                end == page_end(limit, self@.len()),
                end <= self@.len(),
                start <= index,
                start < end ==> index <= end,
                res.len() == (if start < end {
                    index - start
                } else {
                    0
                }),
                forall|k: int|
                    0 <= k < res.len() ==> (#[trigger] res@[k]).0 == start + k && res@[k].1.shows(
                        self@[start + k],
                        now,
                    ),
            decreases end - index,
        {
            match self.get_lockup_at(index, now) {
                Some(view) => {
                    res.push((index, view));
                },
                None => {},
            }
            index = index + 1;
        }
        res
    }

    /// The commitment to a schedule, as a lockup that keeps its vesting
    /// schedule back holds it.
    pub fn hash_schedule(&self, schedule: Schedule) -> (res: [u8; 32])
        requires
            schedule@.len() <= u32::MAX,
        ensures
            res@ == schedule_hash(schedule@),
    {
        schedule.hash()
    }

    /// Validates a release schedule for `total_balance`, and with it the
    /// schedule by which its tokens vest, if one is given; see
    /// [`schedule_validation`]. Nothing is stored.
    pub fn validate_schedule(
        &self,
        schedule: Schedule,
        total_balance: u128,
        termination_schedule: Option<Schedule>,
    ) -> (res: Result<(), LockupError>)
        ensures
            res == schedule_validation(
                schedule@,
                total_balance,
                crate::termination::revealed_model(termination_schedule),
            ),
    {
        match schedule.assert_valid(total_balance) {
            Ok(()) => {},
            Err(e) => {
                return Err(e);
            },
        }
        match termination_schedule {
            Some(termination_schedule) => {
                match termination_schedule.assert_valid(total_balance) {
                    Ok(()) => {},
                    Err(e) => {
                        return Err(e);
                    },
                }
                schedule.assert_valid_termination_schedule(&termination_schedule)
            },
            None => Ok(()),
        }
    }
}

} // verus!
