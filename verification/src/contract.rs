use vstd::prelude::*;
use near_sdk::AccountId;
use crate::error::LockupError;
use crate::events::FtLockupTerminateLockup;
use crate::index_set::IndexSet;
use crate::lockup::{
    after_claim, claim_outcome, lockup_well_formed, unclaimed_balance, Lockup, LockupClaim,
    LockupModel,
};
use crate::schedule::{Checkpoint, Schedule};
use crate::termination::{
    after_termination, commits_to_hash, digest_model, revealed_digest, revealed_model,
    termination_outcome,
};
use crate::util::{current_timestamp_sec, MAX_BLOCK_TIME_SEC};
use crate::LockupIndex;

verus! {

/// The ledger of all lockups, each at its index. The sets of indices by
/// account are kept by the caller, who hands in the set of the account that
/// a call is about.
pub struct Contract {
    pub lockups: Vec<Lockup>,
}

impl View for Contract {
    type V = Seq<LockupModel>;

    open spec fn view(&self) -> Seq<LockupModel> {
        self.lockups@.map_values(|lockup: Lockup| lockup@)
    }
}

/// A claim as it is asked for: from which lockup, and how much; an amount
/// left open stands for all that is unlocked and not yet claimed.
pub type ClaimAmount = (LockupIndex, Option<u128>);

/// Every lockup of the ledger is well formed.
pub open spec fn ledger_well_formed(ledger: Seq<LockupModel>) -> bool {
    forall|i: int| 0 <= i < ledger.len() ==> lockup_well_formed(#[trigger] ledger[i])
}

/// Every index of the set is that of a lockup of a ledger of `len` lockups.
pub open spec fn within(indices: Set<LockupIndex>, len: nat) -> bool {
    forall|index: LockupIndex| indices.contains(index) ==> index < len
}

/// Entry `i` of the list is overruled by a later entry for the same lockup.
pub open spec fn superseded(a: Seq<ClaimAmount>, i: int) -> bool {
    exists|j: int| i < j < a.len() && (#[trigger] a[j]).0 == a[i].0
}

/// The claim that an entry of the list stands for, with an amount left open
/// filled in from the ledger.
pub open spec fn resolved(ledger: Seq<LockupModel>, entry: ClaimAmount, now: u128) -> (
    LockupIndex,
    u128,
) {
    (
        entry.0,
        match entry.1 {
            Some(amount) => amount,
            None => unclaimed_balance(ledger[entry.0 as int], now),
        },
    )
}

/// The claims that the first `n` entries of the list stand for: one for each
/// entry that no later entry of the whole list overrules, in the order of
/// the list.
pub open spec fn requested(ledger: Seq<LockupModel>, a: Seq<ClaimAmount>, now: u128, n: int) -> Seq<
    (LockupIndex, u128),
>
    decreases n,
{
    if n <= 0 {
        Seq::empty()
    } else if superseded(a, n - 1) {
        requested(ledger, a, now, n - 1)
    } else {
        requested(ledger, a, now, n - 1).push(resolved(ledger, a[n - 1], now))
    }
}

/// Entry `i` of the list names a lockup that is not in the set.
pub open spec fn unknown_at(a: Seq<ClaimAmount>, indices: Set<LockupIndex>, i: int) -> bool {
    !indices.contains(a[i].0)
}

/// The first `n` entries of the list name lockups that are in the set.
pub open spec fn all_known(a: Seq<ClaimAmount>, indices: Set<LockupIndex>, n: int) -> bool {
    forall|i: int| 0 <= i < n ==> !#[trigger] unknown_at(a, indices, i)
}

/// The first entry of the list that names a lockup that is not in the set.
pub open spec fn first_unknown(a: Seq<ClaimAmount>, indices: Set<LockupIndex>) -> int {
    choose|i: int| 0 <= i < a.len() && unknown_at(a, indices, i) && all_known(a, indices, i)
}

/// A claim of all that is unlocked and unclaimed for each of the lockups
/// listed.
pub open spec fn all_requested(ledger: Seq<LockupModel>, items: Seq<LockupIndex>, now: u128) -> Seq<
    (LockupIndex, u128),
> {
    items.map_values(|index: LockupIndex| (index, unclaimed_balance(ledger[index as int], now)))
}

/// The claims that a call stands for. Without a list, all that is unlocked
/// and unclaimed is claimed from every lockup of the account, in ascending
/// order of index. With a list, every entry must name a lockup of the
/// account, and the last entry for a lockup counts.
pub open spec fn claim_requests(
    ledger: Seq<LockupModel>,
    indices: Set<LockupIndex>,
    items: Seq<LockupIndex>,
    amounts: Option<Seq<ClaimAmount>>,
    now: u128,
) -> Result<Seq<(LockupIndex, u128)>, LockupError> {
    match amounts {
        None => Ok(all_requested(ledger, items, now)),
        Some(a) => if !all_known(a, indices, a.len() as int) {
            Err(LockupError::LockupNotFound { index: a[first_unknown(a, indices)].0 })
        } else {
            Ok(requested(ledger, a, now, a.len() as int))
        },
    }
}

/// What making the claims one after the other on the ledger answers: the
/// ledger with the claims made, the records of the claims that took
/// something, and the sum of what they took. One claim refused, or a sum
/// that does not fit in 128 bits, and the whole batch is refused.
pub open spec fn claims_outcome(
    ledger: Seq<LockupModel>,
    requests: Seq<(LockupIndex, u128)>,
    now: u128,
) -> Result<(Seq<LockupModel>, Seq<LockupClaim>, u128), LockupError>
    decreases requests.len(),
{
    if requests.len() == 0 {
        Ok((ledger, Seq::empty(), 0))
    } else {
        match claims_outcome(ledger, requests.drop_last(), now) {
            Err(e) => Err(e),
            Ok((state, claims, total)) => {
                let (index, amount) = requests.last();
                match claim_outcome(state[index as int], index, amount, now) {
                    Err(e) => Err(e),
                    Ok(claim) => if amount == 0 {
                        Ok((state, claims, total))
                    } else if total + amount > u128::MAX {
                        Err(LockupError::TotalOverflow)
                    } else {
                        Ok(
                            (
                                state.update(index as int, after_claim(state[index as int], amount)),
                                claims.push(claim),
                                (total + amount) as u128,
                            ),
                        )
                    },
                }
            },
        }
    }
}

/// What a call to claim answers at the time `now`; see [`claim_requests`]
/// and [`claims_outcome`].
pub open spec fn batch_outcome(
    ledger: Seq<LockupModel>,
    indices: Set<LockupIndex>,
    items: Seq<LockupIndex>,
    amounts: Option<Seq<ClaimAmount>>,
    now: u128,
) -> Result<(Seq<LockupModel>, Seq<LockupClaim>, u128), LockupError> {
    match claim_requests(ledger, indices, items, amounts, now) {
        Err(e) => Err(e),
        Ok(requests) => claims_outcome(ledger, requests, now),
    }
}

/// The list of a call to claim, if it has one.
pub open spec fn amounts_model(amounts: Option<Vec<ClaimAmount>>) -> Option<Seq<ClaimAmount>> {
    match amounts {
        Some(list) => Some(list@),
        None => None,
    }
}

/// A call to claim at the time `now` has answered `res` and left the ledger
/// `after`: the claims are made, or the call is refused and the ledger is
/// as before. The answer holds the sum to transfer and the records of the
/// claims to settle.
pub open spec fn claimed_at(
    before: Seq<LockupModel>,
    indices: Set<LockupIndex>,
    items: Seq<LockupIndex>,
    amounts: Option<Seq<ClaimAmount>>,
    now: u128,
    res: Result<(u128, Vec<LockupClaim>), LockupError>,
    after: Seq<LockupModel>,
) -> bool {
    match batch_outcome(before, indices, items, amounts, now) {
        Ok((ledger, claims, total)) => res matches Ok(request) && request.0 == total
            && request.1@ == claims && after == ledger,
        Err(e) => res matches Err(refusal) && refusal == e && after == before,
    }
}

/// What terminating lockup `index` of the ledger answers at the time `now`.
/// The lockup must exist and the time of termination, which is `now` where
/// none is given, must not lie before `now`; for the rest see
/// [`termination_outcome`].
pub open spec fn ledger_termination_outcome(
    ledger: Seq<LockupModel>,
    index: LockupIndex,
    revealed: Option<Seq<Checkpoint>>,
    digest: Option<Seq<u8>>,
    termination_timestamp: Option<u128>,
    now: u128,
) -> Result<(u128, AccountId), LockupError> {
    if index >= ledger.len() {
        Err(LockupError::LockupNotFound { index })
    } else if termination_time(termination_timestamp, now) < now {
        Err(LockupError::TerminationInPast)
    } else {
        termination_outcome(
            ledger[index as int],
            revealed,
            digest,
            termination_time(termination_timestamp, now),
        )
    }
}

/// The hash to which a revealed schedule is held when lockup `index` of the
/// ledger is terminated; see [`revealed_digest`].
pub open spec fn ledger_digest(
    ledger: Seq<LockupModel>,
    index: LockupIndex,
    revealed: Option<Seq<Checkpoint>>,
) -> Option<Seq<u8>> {
    if index < ledger.len() {
        revealed_digest(ledger[index as int], revealed)
    } else {
        None
    }
}

/// The time of a termination: the one given, or `now`.
pub open spec fn termination_time(termination_timestamp: Option<u128>, now: u128) -> u128 {
    match termination_timestamp {
        Some(timestamp) => timestamp,
        None => now,
    }
}

/// A call to terminate lockup `index` at the time `now` has answered `res`
/// and left the ledger `after` and the set `indices_after`. Where it went
/// through, the lockup is terminated, the answer holds the event and the
/// account that gets back what has not vested, and the index has left the
/// set if nothing is left of the lockup. Where it was refused, ledger and
/// set are as before.
pub open spec fn terminated_at(
    before: Seq<LockupModel>,
    indices_before: Set<LockupIndex>,
    index: LockupIndex,
    revealed: Option<Seq<Checkpoint>>,
    digest: Option<Seq<u8>>,
    termination_timestamp: Option<u128>,
    now: u128,
    res: Result<(FtLockupTerminateLockup, AccountId), LockupError>,
    after: Seq<LockupModel>,
    indices_after: Set<LockupIndex>,
) -> bool {
    let timestamp = termination_time(termination_timestamp, now);
    match ledger_termination_outcome(before, index, revealed, digest, termination_timestamp, now) {
        Ok((unvested, beneficiary)) => {
            let lockup = after_termination(before[index as int], revealed, digest, timestamp);
            &&& res == Ok::<(FtLockupTerminateLockup, AccountId), LockupError>(
                (
                    FtLockupTerminateLockup {
                        id: index,
                        termination_timestamp: timestamp,
                        unvested_balance: unvested,
                    },
                    beneficiary,
                ),
            )
            &&& after == before.update(index as int, lockup)
            &&& indices_after == (if lockup.schedule.last().balance == 0 {
                indices_before.remove(index)
            } else {
                indices_before
            })
        },
        Err(e) => {
            &&& res == Err::<(FtLockupTerminateLockup, AccountId), LockupError>(e)
            &&& after == before
            &&& indices_after == indices_before
        },
    }
}

/// A copy of the lockups, each equal to the lockup it was copied from.
fn clone_lockups(lockups: &Vec<Lockup>) -> (res: Vec<Lockup>)
    ensures
        res.len() == lockups.len(),
        forall|i: int| 0 <= i < lockups.len() ==> (#[trigger] res@[i])@ == lockups@[i]@,
{
    let mut res: Vec<Lockup> = Vec::new();
    let mut i: usize = 0;
    while i < lockups.len()
        invariant
            i <= lockups.len(),
            res.len() == i,
            forall|k: int| 0 <= k < i ==> (#[trigger] res@[k])@ == lockups@[k]@,
        decreases lockups.len() - i,
    {
        res.push(lockups[i].clone());
        i = i + 1;
    }
    res
}

impl Contract {
    /// See [`ledger_well_formed`].
    pub open spec fn well_formed(&self) -> bool {
        ledger_well_formed(self@)
    }

    /// The ledger without a lockup.
    pub fn new() -> (res: Contract)
        ensures
            res@ == Seq::<LockupModel>::empty(),
            res.well_formed(),
    {
        let res = Contract { lockups: Vec::new() };
        assert(res@ =~= Seq::<LockupModel>::empty());
        res
    }

    /// Tells whether every lockup of the ledger is well formed.
    pub fn is_well_formed(&self) -> (res: bool)
        ensures
            res == self.well_formed(),
    {
        let mut i: usize = 0;
        while i < self.lockups.len()
            invariant
                i <= self.lockups.len(),
                forall|k: int| 0 <= k < i ==> lockup_well_formed(#[trigger] self@[k]),
            decreases self.lockups.len() - i,
        {
            if !self.lockups[i].is_well_formed() {
                assert(!lockup_well_formed(self@[i as int]));
                return false;
            }
            i = i + 1;
        }
        true
    }

    /// Tells whether every index of the set is that of a lockup of the ledger.
    pub fn holds(&self, indices: &IndexSet) -> (res: bool)
        ensures
            res == within(indices@, self@.len()),
    {
        let items = indices.to_vec();
        let mut i: usize = 0;
        while i < items.len()
            invariant
                i <= items.len(),
                forall|index: LockupIndex| items@.contains(index) <==> indices@.contains(index),
                forall|k: int| 0 <= k < i ==> items@[k] < self.lockups@.len(),
            decreases items.len() - i,
        {
            if items[i] >= self.lockups.len() as u64 {
                assert(items@.contains(items@[i as int]));
                assert(indices@.contains(items@[i as int]));
                assert(self@.len() == self.lockups.len());
                return false;
            }
            i = i + 1;
        }
        proof {
            assert(self@.len() == self.lockups.len());
            assert forall|index: LockupIndex| indices@.contains(index) implies index
                < self@.len() by {
                assert(items@.contains(index));
            }
        }
        true
    }

    /// The lockup stored at `index`.
    pub fn lockup_at(&self, index: LockupIndex) -> (res: &Lockup)
        requires
            index < self@.len(),
        ensures
            res@ == self@[index as int],
    {
        assert(self@.len() == self.lockups.len());
        &self.lockups[index as usize]
    }

    /// Claims from the lockups of one account at the time of the current
    /// block, as [`Contract::claim_at`] does at a given time.
    pub fn claim(&mut self, indices: &IndexSet, amounts: Option<Vec<ClaimAmount>>) -> (res: Result<
        (u128, Vec<LockupClaim>),
        LockupError,
    >)
        requires
            old(self).well_formed(),
            within(indices@, old(self)@.len()),
        ensures
            exists|now: u128|
                now <= MAX_BLOCK_TIME_SEC && #[trigger] claimed_at(
                    old(self)@,
                    indices@,
                    indices.items(),
                    amounts_model(amounts),
                    now,
                    res,
                    final(self)@,
                ),
            res is Err ==> final(self)@ == old(self)@,
            final(self).well_formed(),
    {
        let now = current_timestamp_sec();
        self.claim_at(indices, amounts, now)
    }

    /// Claims from the lockups of the account whose set of indices is
    /// `indices`, at the time `now`; see [`claimed_at`]. `amounts` lists what
    /// to claim from which lockup; without it, all that can be claimed is
    /// claimed from every lockup of the account. The claimed balances grow
    /// at once. The answer is the sum to transfer and the records to settle
    /// the claims by when the transfer is known to have succeeded or failed.
    /// If one claim is refused, none is made.
    pub fn claim_at(
        &mut self,
        indices: &IndexSet,
        amounts: Option<Vec<ClaimAmount>>,
        now: u128,
    ) -> (res: Result<(u128, Vec<LockupClaim>), LockupError>)
        requires
            old(self).well_formed(),
            within(indices@, old(self)@.len()),
        ensures
            claimed_at(
                old(self)@,
                indices@,
                indices.items(),
                amounts_model(amounts),
                now,
                res,
                final(self)@,
            ),
            res is Err ==> final(self)@ == old(self)@,
            final(self).well_formed(),
    {
        let ghost before = self@;
        let requests = match self.claim_requests(indices, &amounts, now) {
            Ok(requests) => requests,
            Err(e) => {
                return Err(e);
            },
        };
        let mut ledger = clone_lockups(&self.lockups);
        let mut claims: Vec<LockupClaim> = Vec::new();
        let mut total: u128 = 0;
        let ghost mut state = before;
        let mut k: usize = 0;
        assert(before.len() == self.lockups.len());
        while k < requests.len()
            invariant
                k <= requests.len(),
                self@ == before,
                before == old(self)@,
                ledger_well_formed(before),
                claim_requests(before, indices@, indices.items(), amounts_model(amounts), now)
                    == Ok::<Seq<(LockupIndex, u128)>, LockupError>(requests@),
                state.len() == before.len() == ledger.len(),
                forall|i: int| 0 <= i < ledger.len() ==> (#[trigger] ledger@[i])@ == state[i],
                ledger_well_formed(state),
                forall|i: int|
                    0 <= i < requests.len() ==> (#[trigger] requests@[i]).0 < before.len(),
                claims_outcome(before, requests@.take(k as int), now) == Ok::<
                    (Seq<LockupModel>, Seq<LockupClaim>, u128),
                    LockupError,
                >((state, claims@, total)),
            decreases requests.len() - k,
        {
            let (index, amount) = requests[k];
            let ghost reached = state;
            let ghost stored = ledger@;
            proof {
                assert(requests@.take(k + 1).drop_last() == requests@.take(k as int));
                assert(requests@[k as int].0 < before.len());
                assert(ledger@[index as int]@ == state[index as int]);
                assert(lockup_well_formed(state[index as int]));
            }
            match ledger[index as usize].claim_at(index, amount, now) {
                Err(e) => {
                    proof {
                        lemma_claims_refused(before, requests@, now, k + 1);
                    }
                    return Err(e);
                },
                Ok(claim) => {
                    if amount > 0 {
                        match total.checked_add(amount) {
                            None => {
                                proof {
                                    lemma_claims_refused(before, requests@, now, k + 1);
                                }
                                return Err(LockupError::TotalOverflow);
                            },
                            Some(sum) => {
                                total = sum;
                            },
                        }
                        claims.push(claim);
                        proof {
                            state = reached.update(
                                index as int,
                                after_claim(reached[index as int], amount),
                            );
                        }
                    } else {
                        assert(after_claim(reached[index as int], amount) == reached[index as int]);
                    }
                    proof {
                        assert forall|i: int| 0 <= i < ledger.len() implies (
                        #[trigger] ledger@[i])@ == state[i] by {
                            if i != index {
                                assert(ledger@[i] == stored[i]);
                            }
                        }
                        assert forall|i: int| 0 <= i < state.len() implies lockup_well_formed(
                            #[trigger] state[i],
                        ) by {
                            assert(lockup_well_formed(reached[i]));
                        }
                    }
                },
            }
            k = k + 1;
        }
        proof {
            assert(requests@.take(requests@.len() as int) == requests@);
        }
        self.lockups = ledger;
        assert(self@ =~= state);
        Ok((total, claims))
    }

    /// Works out the claims that a call stands for; see [`claim_requests`].
    fn claim_requests(&self, indices: &IndexSet, amounts: &Option<Vec<ClaimAmount>>, now: u128) -> (res:
        Result<Vec<(LockupIndex, u128)>, LockupError>)
        requires
            self.well_formed(),
            within(indices@, self@.len()),
        ensures
            match claim_requests(self@, indices@, indices.items(), amounts_model(*amounts), now) {
                Ok(requests) => res matches Ok(list) && list@ == requests,
                Err(e) => res matches Err(refusal) && refusal == e,
            },
            res matches Ok(list) ==> forall|i: int|
                0 <= i < list.len() ==> (#[trigger] list@[i]).0 < self@.len(),
    {
        let mut requests: Vec<(LockupIndex, u128)> = Vec::new();
        match amounts {
            None => {
                let items = indices.to_vec();
                proof {
                    assert forall|k: int| 0 <= k < items.len() implies items@[k]
                        < self@.len() by {
                        assert(items@.contains(items@[k]));
                    }
                }
                let mut i: usize = 0;
                while i < items.len()
                    invariant
                        i <= items.len(),
                        self.well_formed(),
                        forall|k: int| 0 <= k < items.len() ==> items@[k] < self@.len(),
                        requests@ == all_requested(self@, items@.take(i as int), now),
                    decreases items.len() - i,
                {
                    let index = items[i];
                    assert(lockup_well_formed(self@[index as int]));
                    let amount = self.lockup_at(index).unclaimed_balance(now);
                    requests.push((index, amount));
                    proof {
                        assert(items@.take(i + 1) == items@.take(i as int).push(index));
                        assert(requests@ =~= all_requested(self@, items@.take(i + 1), now));
                    }
                    i = i + 1;
                }
                proof {
                    assert(items@.take(items@.len() as int) == items@);
                }
                Ok(requests)
            },
            Some(list) => {
                let mut i: usize = 0;
                while i < list.len()
                    invariant
                        i <= list.len(),
                        amounts_model(*amounts) == Some(list@),
                        all_known(list@, indices@, i as int),
                    decreases list.len() - i,
                {
                    if !indices.contains(list[i].0) {
                        proof {
                            let ghost k = i as int;
                            assert(unknown_at(list@, indices@, k));
                            let f = first_unknown(list@, indices@);
                            if f < k {
                                assert(!unknown_at(list@, indices@, f));
                            }
                            if f > k {
                                assert(!unknown_at(list@, indices@, k));
                            }
                            assert(f == k);
                            assert(!all_known(list@, indices@, list@.len() as int));
                        }
                        return Err(LockupError::LockupNotFound { index: list[i].0 });
                    }
                    assert(!unknown_at(list@, indices@, i as int));
                    i = i + 1;
                }
                let mut i: usize = 0;
                while i < list.len()
                    invariant
                        i <= list.len(),
                        self.well_formed(),
                        within(indices@, self@.len()),
                        all_known(list@, indices@, list@.len() as int),
                        requests@ == requested(self@, list@, now, i as int),
                        forall|k: int|
                            0 <= k < requests.len() ==> (#[trigger] requests@[k]).0 < self@.len(),
                    decreases list.len() - i,
                {
                    let (index, amount) = list[i];
                    let mut later: usize = i + 1;
                    while later < list.len() && list[later].0 != index
                        invariant
                            i < later <= list.len(),
                            index == list@[i as int].0,
                            forall|j: int| i < j < later ==> (#[trigger] list@[j]).0 != index,
                        decreases list.len() - later,
                    {
                        later = later + 1;
                    }
                    if later == list.len() {
                        assert(!unknown_at(list@, indices@, i as int));
                        assert(indices@.contains(index));
                        assert(index < self@.len());
                        assert(lockup_well_formed(self@[index as int]));
                        let amount = match amount {
                            Some(amount) => amount,
                            None => self.lockup_at(index).unclaimed_balance(now),
                        };
                        requests.push((index, amount));
                        assert(!superseded(list@, i as int));
                        assert((index, amount) == resolved(self@, list@[i as int], now));
                    } else {
                        assert(list@[later as int].0 == list@[i as int].0);
                        assert(superseded(list@, i as int));
                    }
                    i = i + 1;
                }
                Ok(requests)
            },
        }
    }

    /// Terminates lockup `lockup_index` at the time of the current block, as
    /// [`Contract::terminate_at`] does at a given time and with a given hash
    /// of the revealed schedule.
    pub fn terminate(
        &mut self,
        indices: &mut IndexSet,
        lockup_index: LockupIndex,
        hashed_schedule: Option<Schedule>,
        termination_timestamp: Option<u128>,
    ) -> (res: Result<(FtLockupTerminateLockup, AccountId), LockupError>)
        requires
            old(self).well_formed(),
            hashed_schedule is Some && lockup_index < old(self)@.len() && commits_to_hash(
                old(self)@[lockup_index as int],
            ) ==> hashed_schedule->Some_0@.len() <= u32::MAX,
        ensures
            exists|now: u128|
                now <= MAX_BLOCK_TIME_SEC && #[trigger] terminated_at(
                    old(self)@,
                    old(indices)@,
                    lockup_index,
                    revealed_model(hashed_schedule),
                    ledger_digest(old(self)@, lockup_index, revealed_model(hashed_schedule)),
                    termination_timestamp,
                    now,
                    res,
                    final(self)@,
                    final(indices)@,
                ),
            final(self).well_formed(),
    {
        let now = current_timestamp_sec();
        let committed = if lockup_index < self.lockups.len() as u64 {
            match &self.lockups[lockup_index as usize].termination_config {
                Some(config) => match &config.vesting_schedule {
                    crate::termination::VestingConditions::Hash(_) => true,
                    _ => false,
                },
                None => false,
            }
        } else {
            false
        };
        let digest = match &hashed_schedule {
            Some(schedule) => if committed {
                Some(schedule.hash())
            } else {
                None
            },
            None => None,
        };
        self.terminate_at(indices, lockup_index, hashed_schedule, digest, termination_timestamp, now)
    }

    /// Terminates lockup `lockup_index` at the time `now`, with `digest`
    /// taken for the hash of the revealed schedule; see [`terminated_at`].
    /// `indices` is the set of the account that the lockup belongs to: the
    /// index leaves it when nothing is left of the lockup.
    pub fn terminate_at(
        &mut self,
        indices: &mut IndexSet,
        lockup_index: LockupIndex,
        hashed_schedule: Option<Schedule>,
        digest: Option<[u8; 32]>,
        termination_timestamp: Option<u128>,
        now: u128,
    ) -> (res: Result<(FtLockupTerminateLockup, AccountId), LockupError>)
        requires
            old(self).well_formed(),
        ensures
            terminated_at(
                old(self)@,
                old(indices)@,
                lockup_index,
                revealed_model(hashed_schedule),
                digest_model(digest),
                termination_timestamp,
                now,
                res,
                final(self)@,
                final(indices)@,
            ),
            final(self).well_formed(),
    {
        let ghost before = self@;
        if lockup_index >= self.lockups.len() as u64 {
            return Err(LockupError::LockupNotFound { index: lockup_index });
        }
        let timestamp = match termination_timestamp {
            Some(timestamp) => timestamp,
            None => now,
        };
        if timestamp < now {
            return Err(LockupError::TerminationInPast);
        }
        assert(lockup_well_formed(before[lockup_index as int]));
        let terminated = self.lockups[lockup_index as usize].terminate_revealed(
            hashed_schedule,
            digest,
            timestamp,
        );
        match terminated {
            Err(e) => {
                proof {
                    assert(self@ =~= before);
                }
                Err(e)
            },
            Ok((unvested_balance, beneficiary_id)) => {
                proof {
                    let lockup = after_termination(
                        before[lockup_index as int],
                        revealed_model(hashed_schedule),
                        digest_model(digest),
                        timestamp,
                    );
                    assert(self@ =~= before.update(lockup_index as int, lockup));
                    assert forall|i: int| 0 <= i < self@.len() implies lockup_well_formed(
                        #[trigger] self@[i],
                    ) by {
                        assert(lockup_well_formed(before[i]));
                    }
                }
                // nothing is left to claim of an emptied lockup
                if self.lockups[lockup_index as usize].schedule.total_balance() == 0 {
                    indices.remove(lockup_index);
                }
                Ok(
                    (
                        FtLockupTerminateLockup {
                            id: lockup_index,
                            termination_timestamp: timestamp,
                            unvested_balance,
                        },
                        beneficiary_id,
                    ),
                )
            },
        }
    }
}

/// A batch is refused as soon as its first `n` claims are.
pub proof fn lemma_claims_refused(
    ledger: Seq<LockupModel>,
    requests: Seq<(LockupIndex, u128)>,
    now: u128,
    n: int,
)
    requires
        0 <= n <= requests.len(),
        claims_outcome(ledger, requests.take(n), now) is Err,
    ensures
        claims_outcome(ledger, requests, now) == claims_outcome(ledger, requests.take(n), now),
    decreases requests.len() - n,
{
    if n < requests.len() {
        assert(requests.take(n + 1).drop_last() == requests.take(n));
        lemma_claims_refused(ledger, requests, now, n + 1);
    } else {
        assert(requests.take(n) == requests);
    }
}

} // verus!
