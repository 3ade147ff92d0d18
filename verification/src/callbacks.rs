use vstd::prelude::*;
use near_sdk::AccountId;
use crate::contract::{ledger_well_formed, within, Contract};
use crate::error::LockupError;
use crate::events::{creation_event, FtLockupClaimLockup, FtLockupCreateLockup};
use crate::index_set::IndexSet;
use crate::lockup::{after_revert, lockup_well_formed, Lockup, LockupClaim, LockupModel};
use crate::schedule::unlocked_since_schedule;
use crate::util::{current_timestamp_sec, MAX_BLOCK_TIME_SEC};
use crate::LockupIndex;

verus! {

/// The sum of `a` and `b`, or the largest number of 128 bits where the sum
/// is above it.
pub open spec fn saturating_sum(a: u128, b: u128) -> u128 {
    if a + b > u128::MAX {
        u128::MAX
    } else {
        (a + b) as u128
    }
}

/// What the claims took in all, held at the largest number of 128 bits.
pub open spec fn settled_total(claims: Seq<LockupClaim>) -> u128
    decreases claims.len(),
{
    if claims.len() == 0 {
        0
    } else {
        saturating_sum(settled_total(claims.drop_last()), claims.last().claim_amount)
    }
}

/// The lockups of which one of the claims took the last.
pub open spec fn final_indices(claims: Seq<LockupClaim>) -> Set<LockupIndex> {
    Set::new(
        |index: LockupIndex|
            exists|k: int|
                0 <= k < claims.len() && (#[trigger] claims[k]).index == index
                    && claims[k].is_final,
    )
}

/// The lockups that the claims took from.
pub open spec fn claim_indices(claims: Seq<LockupClaim>) -> Set<LockupIndex> {
    Set::new(
        |index: LockupIndex|
            exists|k: int| 0 <= k < claims.len() && (#[trigger] claims[k]).index == index,
    )
}

/// The ledger with the claims taken back one after the other.
pub open spec fn reverted(ledger: Seq<LockupModel>, claims: Seq<LockupClaim>) -> Seq<LockupModel>
    decreases claims.len(),
{
    if claims.len() == 0 {
        ledger
    } else {
        let state = reverted(ledger, claims.drop_last());
        let claim = claims.last();
        state.update(
            claim.index as int,
            after_revert(state[claim.index as int], claim.claim_amount),
        )
    }
}

/// The events of the claims, one for each.
pub open spec fn claim_events(claims: Seq<LockupClaim>) -> Seq<FtLockupClaimLockup> {
    claims.map_values(
        |claim: LockupClaim| FtLockupClaimLockup { id: claim.index, amount: claim.claim_amount },
    )
}

/// Every claim names a lockup of a ledger of `len` lockups.
pub open spec fn claims_within(claims: Seq<LockupClaim>, len: nat) -> bool {
    forall|k: int| 0 <= k < claims.len() ==> (#[trigger] claims[k]).index < len
}

/// The settlement of the refund of a termination at the time `now` has
/// answered `res` and left the ledger `after` and the set `indices_after`.
/// Where the transfer succeeded, the answer is the amount and nothing
/// changes. Where it failed, the amount is locked up anew for the account,
/// unlocked at `now`: the answer is zero with the creation event of that
/// lockup, whose index joins the set. A zero `now` or amount is refused.
pub open spec fn refund_settled_at(
    before: Seq<LockupModel>,
    indices_before: Set<LockupIndex>,
    account_id: AccountId,
    amount: u128,
    promise_success: bool,
    now: u128,
    res: Result<(u128, Option<FtLockupCreateLockup>), LockupError>,
    after: Seq<LockupModel>,
    indices_after: Set<LockupIndex>,
) -> bool {
    if promise_success {
        &&& res == Ok::<(u128, Option<FtLockupCreateLockup>), LockupError>((amount, None))
        &&& after == before
        &&& indices_after == indices_before
    } else if now == 0 || amount == 0 {
        &&& res == Err::<(u128, Option<FtLockupCreateLockup>), LockupError>(
            if now == 0 {
                LockupError::Invariant
            } else {
                LockupError::ZeroTotalBalance
            },
        )
        &&& after == before
        &&& indices_after == indices_before
    } else {
        let lockup = LockupModel {
            account_id,
            schedule: unlocked_since_schedule(amount, now),
            claimed_balance: 0,
            termination_config: None,
        };
        let index = before.len() as LockupIndex;
        &&& res == Ok::<(u128, Option<FtLockupCreateLockup>), LockupError>(
            (0, Some(creation_event(index, lockup))),
        )
        &&& after == before.push(lockup)
        &&& indices_after == indices_before.insert(index)
    }
}

impl Contract {
    /// Settles the claims of one batch once their transfer is known to have
    /// succeeded or failed. `indices` is the set of the account that
    /// claimed. After a transfer that succeeded, the lockups of which a claim
    /// took the last leave the set, and the answer is what was claimed in
    /// all, with one event for each claim. After a transfer that failed,
    /// every claim is taken back from its lockup, the lockups are back in the
    /// set, and the answer is zero.
    pub fn after_ft_transfer(
        &mut self,
        indices: &mut IndexSet,
        lockup_claims: Vec<LockupClaim>,
        promise_success: bool,
    ) -> (res: (u128, Vec<FtLockupClaimLockup>))
        requires
            !promise_success ==> claims_within(lockup_claims@, old(self)@.len()),
        ensures
            promise_success ==> res.0 == settled_total(lockup_claims@) && res.1@ == claim_events(
                lockup_claims@,
            ) && final(self)@ == old(self)@ && final(indices)@ == old(indices)@.difference(
                final_indices(lockup_claims@),
            ),
            !promise_success ==> res.0 == 0 && res.1@ == Seq::<FtLockupClaimLockup>::empty()
                && final(self)@ == reverted(old(self)@, lockup_claims@) && final(indices)@ == old(
                indices,
            )@.union(claim_indices(lockup_claims@)),
            final(self)@.len() == old(self)@.len(),
            old(self).well_formed() ==> final(self).well_formed(),
            within(old(indices)@, old(self)@.len()) ==> within(final(indices)@, final(self)@.len()),
    {
        let ghost before = self@;
        let mut events: Vec<FtLockupClaimLockup> = Vec::new();
        let mut total_balance: u128 = 0;
        if promise_success {
            let mut k: usize = 0;
            while k < lockup_claims.len()
                invariant
                    k <= lockup_claims.len(),
                    total_balance == settled_total(lockup_claims@.take(k as int)),
                    events@ == claim_events(lockup_claims@.take(k as int)),
                    indices@ == old(indices)@.difference(
                        final_indices(lockup_claims@.take(k as int)),
                    ),
                decreases lockup_claims.len() - k,
            {
                let claim = lockup_claims[k];
                let ghost done = lockup_claims@.take(k as int);
                let ghost next = lockup_claims@.take(k + 1);
                proof {
                    assert(next.drop_last() == done);
                    assert(next == done.push(claim));
                }
                if claim.is_final {
                    indices.remove(claim.index);
                }
                total_balance = total_balance.saturating_add(claim.claim_amount);
                events.push(FtLockupClaimLockup { id: claim.index, amount: claim.claim_amount });
                proof {
                    assert(events@ =~= claim_events(next));
                    assert forall|index: LockupIndex| final_indices(next).contains(index) <==> (
                    final_indices(done).contains(index) || (claim.is_final && index
                        == claim.index)) by {
                        if final_indices(next).contains(index) {
                            let j = choose|j: int|
                                0 <= j < next.len() && (#[trigger] next[j]).index == index
                                    && next[j].is_final;
                            if j < done.len() {
                                assert(done[j].index == index && done[j].is_final);
                            }
                        }
                        if final_indices(done).contains(index) {
                            let j = choose|j: int|
                                0 <= j < done.len() && (#[trigger] done[j]).index == index
                                    && done[j].is_final;
                            assert(next[j].index == index && next[j].is_final);
                        }
                        if claim.is_final && index == claim.index {
                            assert(next[k as int].index == index && next[k as int].is_final);
                        }
                    }
                    assert(indices@ =~= old(indices)@.difference(final_indices(next)));
                }
                k = k + 1;
            }
            proof {
                assert(lockup_claims@.take(lockup_claims@.len() as int) == lockup_claims@);
            }
        } else {
            let mut k: usize = 0;
            assert(before.len() == self.lockups.len());
            assert(lockup_claims@.take(0) =~= Seq::<LockupClaim>::empty());
            assert(indices@ =~= old(indices)@.union(claim_indices(lockup_claims@.take(0))));
            while k < lockup_claims.len()
                invariant
                    k <= lockup_claims.len(),
                    before == old(self)@,
                    self@.len() == before.len() == self.lockups.len(),
                    claims_within(lockup_claims@, before.len()),
                    self@ == reverted(before, lockup_claims@.take(k as int)),
                    indices@ == old(indices)@.union(claim_indices(lockup_claims@.take(k as int))),
                    ledger_well_formed(before) ==> ledger_well_formed(self@),
                    events@ == Seq::<FtLockupClaimLockup>::empty(),
                    total_balance == 0,
                decreases lockup_claims.len() - k,
            {
                let claim = lockup_claims[k];
                let ghost done = lockup_claims@.take(k as int);
                let ghost next = lockup_claims@.take(k + 1);
                let ghost state = self@;
                proof {
                    assert(next.drop_last() == done);
                    assert(next == done.push(claim));
                    assert(lockup_claims@[k as int].index < before.len());
                }
                indices.insert(claim.index);
                self.lockups[claim.index as usize].revert_claim(claim.claim_amount);
                proof {
                    assert(self@ =~= state.update(
                        claim.index as int,
                        after_revert(state[claim.index as int], claim.claim_amount),
                    ));
                    if ledger_well_formed(before) {
                        assert forall|i: int| 0 <= i < self@.len() implies lockup_well_formed(
                            #[trigger] self@[i],
                        ) by {
                            assert(lockup_well_formed(state[i]));
                        }
                    }
                    assert forall|index: LockupIndex| claim_indices(next).contains(index) <==> (
                    claim_indices(done).contains(index) || index == claim.index) by {
                        if claim_indices(next).contains(index) {
                            let j = choose|j: int|
                                0 <= j < next.len() && (#[trigger] next[j]).index == index;
                            if j < done.len() {
                                assert(done[j].index == index);
                            }
                        }
                        if claim_indices(done).contains(index) {
                            let j = choose|j: int|
                                0 <= j < done.len() && (#[trigger] done[j]).index == index;
                            assert(next[j].index == index);
                        }
                        if index == claim.index {
                            assert(next[k as int].index == index);
                        }
                    }
                    assert(indices@ =~= old(indices)@.union(claim_indices(next)));
                }
                k = k + 1;
            }
            proof {
                assert(lockup_claims@.take(lockup_claims@.len() as int) == lockup_claims@);
                if within(old(indices)@, before.len()) {
                    assert forall|index: LockupIndex| indices@.contains(index) implies index
                        < self@.len() by {
                        if !old(indices)@.contains(index) {
                            let j = choose|j: int|
                                0 <= j < lockup_claims@.len() && (
                                #[trigger] lockup_claims@[j]).index == index;
                        }
                    }
                }
            }
        }
        (total_balance, events)
    }

    /// Settles the refund of a termination at the time of the current block,
    /// as [`Contract::after_lockup_termination_at`] does at a given time.
    pub fn after_lockup_termination(
        &mut self,
        indices: &mut IndexSet,
        account_id: AccountId,
        amount: u128,
        promise_success: bool,
    ) -> (res: Result<(u128, Option<FtLockupCreateLockup>), LockupError>)
        ensures
            exists|now: u128|
                now <= MAX_BLOCK_TIME_SEC && #[trigger] refund_settled_at(
                    old(self)@,
                    old(indices)@,
                    account_id,
                    amount,
                    promise_success,
                    now,
                    res,
                    final(self)@,
                    final(indices)@,
                ),
            old(self).well_formed() ==> final(self).well_formed(),
            within(old(indices)@, old(self)@.len()) ==> within(final(indices)@, final(self)@.len()),
    {
        let now = current_timestamp_sec();
        self.after_lockup_termination_at(indices, account_id, amount, promise_success, now)
    }

    /// Settles the refund of `amount` to `account_id` after a termination,
    /// once the transfer is known to have succeeded or failed; see
    /// [`refund_settled_at`]. `indices` is the set of `account_id`. The
    /// balance has left its lockup already, so after a failed transfer it is
    /// locked up anew, free to claim at once.
    pub fn after_lockup_termination_at(
        &mut self,
        indices: &mut IndexSet,
        account_id: AccountId,
        amount: u128,
        promise_success: bool,
        now: u128,
    ) -> (res: Result<(u128, Option<FtLockupCreateLockup>), LockupError>)
        ensures
            refund_settled_at(
                old(self)@,
                old(indices)@,
                account_id,
                amount,
                promise_success,
                now,
                res,
                final(self)@,
                final(indices)@,
            ),
            old(self).well_formed() ==> final(self).well_formed(),
            within(old(indices)@, old(self)@.len()) ==> within(final(indices)@, final(self)@.len()),
    {
        if promise_success {
            return Ok((amount, None));
        }
        let lockup = match Lockup::new_unlocked_since(account_id, amount, now) {
            Ok(lockup) => lockup,
            Err(e) => {
                return Err(e);
            },
        };
        assert(self@.len() == self.lockups.len());
        let event = FtLockupCreateLockup::from((self.lockups.len() as u64, lockup.clone()));
        let index = self.internal_add_lockup(lockup, indices);
        Ok((0, Some(event)))
    }
}

} // verus!
