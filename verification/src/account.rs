use vstd::prelude::*;

verus! {

/// The account names of NEAR. The ledger carries names along and never looks
/// into one, so nothing of what a name holds is exposed.
#[verifier::external_type_specification]
#[verifier::external_body]
pub struct ExAccountId(near_sdk::AccountId);

/// `clone` of `near_sdk::AccountId` copies the name: the copy names the same
/// account.
pub assume_specification[ <near_sdk::AccountId as Clone>::clone ](
    id: &near_sdk::AccountId,
) -> (res: near_sdk::AccountId)
    ensures
        res == *id,
;

} // verus!
