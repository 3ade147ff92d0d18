//! What holds of every batch of claims, proved from the definitions in
//! `contract` and `callbacks`.

use vstd::prelude::*;
use crate::callbacks::reverted;
use crate::contract::claims_outcome;
use crate::lockup::{after_claim, after_revert, LockupClaim, LockupIndex, LockupModel};

verus! {

/// Taking the claims back from the ledger one after the other never asks
/// for more than a lockup has claimed.
pub open spec fn reverts_in_full(ledger: Seq<LockupModel>, claims: Seq<LockupClaim>) -> bool
    decreases claims.len(),
{
    if claims.len() == 0 {
        true
    } else {
        let state = reverted(ledger, claims.drop_last());
        let claim = claims.last();
        &&& reverts_in_full(ledger, claims.drop_last())
        &&& claim.index < state.len()
        &&& state[claim.index as int].claimed_balance >= claim.claim_amount
    }
}

/// Every request names a lockup of a ledger of `len` lockups.
pub open spec fn requests_within(requests: Seq<(LockupIndex, u128)>, len: nat) -> bool {
    forall|k: int| 0 <= k < requests.len() ==> (#[trigger] requests[k]).0 < len
}

/// Taking claims back leaves as many lockups as there were.
pub proof fn lemma_reverted_len(ledger: Seq<LockupModel>, claims: Seq<LockupClaim>)
    requires
        reverts_in_full(ledger, claims),
    ensures
        reverted(ledger, claims).len() == ledger.len(),
    decreases claims.len(),
{
    if claims.len() > 0 {
        lemma_reverted_len(ledger, claims.drop_last());
    }
}

/// A claim made on lockup `index` before claims are taken back comes to the
/// same as the claim made after: where the claims are taken back in full,
/// they still are, and only lockup `index` ends with `amount` more claimed.
pub proof fn lemma_revert_commutes(
    ledger: Seq<LockupModel>,
    claims: Seq<LockupClaim>,
    index: int,
    amount: u128,
)
    requires
        0 <= index < ledger.len(),
        ledger[index].claimed_balance + amount <= u128::MAX,
        reverts_in_full(ledger, claims),
    ensures
        reverts_in_full(ledger.update(index, after_claim(ledger[index], amount)), claims),
        reverted(ledger, claims)[index].claimed_balance <= ledger[index].claimed_balance,
        reverted(ledger.update(index, after_claim(ledger[index], amount)), claims) == reverted(
            ledger,
            claims,
        ).update(index, after_claim(reverted(ledger, claims)[index], amount)),
    decreases claims.len(),
{
    let grown = ledger.update(index, after_claim(ledger[index], amount));
    if claims.len() > 0 {
        let rest = claims.drop_last();
        let claim = claims.last();
        lemma_revert_commutes(ledger, rest, index, amount);
        lemma_reverted_len(ledger, rest);
        lemma_reverted_len(grown, rest);
        let state = reverted(ledger, rest);
        let state_grown = reverted(grown, rest);
        assert(state_grown == state.update(index, after_claim(state[index], amount)));
        assert(reverted(grown, claims) =~= reverted(ledger, claims).update(
            index,
            after_claim(reverted(ledger, claims)[index], amount),
        ));
    } else {
        assert(reverted(grown, claims) =~= reverted(ledger, claims).update(
            index,
            after_claim(reverted(ledger, claims)[index], amount),
        ));
    }
}

/// Taking back the claims of a batch that was granted restores the ledger
/// exactly: every lockup is as it was before the batch, the lockups that
/// the batch did not touch included.
pub proof fn lemma_failed_batch_restores(
    ledger: Seq<LockupModel>,
    requests: Seq<(LockupIndex, u128)>,
    now: u128,
)
    requires
        requests_within(requests, ledger.len()),
        claims_outcome(ledger, requests, now) is Ok,
    ensures
        claims_outcome(ledger, requests, now)->Ok_0.0.len() == ledger.len(),
        reverts_in_full(
            claims_outcome(ledger, requests, now)->Ok_0.0,
            claims_outcome(ledger, requests, now)->Ok_0.1,
        ),
        reverted(
            claims_outcome(ledger, requests, now)->Ok_0.0,
            claims_outcome(ledger, requests, now)->Ok_0.1,
        ) == ledger,
    decreases requests.len(),
{
    if requests.len() > 0 {
        let earlier = requests.drop_last();
        let (index, amount) = requests.last();
        assert(requests[requests.len() - 1].0 < ledger.len());
        assert forall|k: int| 0 <= k < earlier.len() implies (#[trigger] earlier[k]).0
            < ledger.len() by {
            assert(requests[k].0 < ledger.len());
        }
        lemma_failed_batch_restores(ledger, earlier, now);
        let (state, claims, total) = claims_outcome(ledger, earlier, now)->Ok_0;
        if amount > 0 {
            lemma_revert_commutes(state, claims, index as int, amount);
            let grown = state.update(index as int, after_claim(state[index as int], amount));
            let claim = LockupClaim {
                index,
                claim_amount: amount,
                is_final: state[index as int].claimed_balance + amount
                    == state[index as int].schedule.last().balance,
            };
            let all = claims.push(claim);
            assert(all.drop_last() == claims);
            let back = reverted(grown, claims);
            assert(back == ledger.update(index as int, after_claim(ledger[index as int], amount)));
            assert(after_revert(back[index as int], amount) == ledger[index as int]);
            assert(reverted(grown, all) =~= ledger);
        }
    }
}

} // verus!
