use vstd::prelude::*;
use near_sdk::AccountId;
use crate::contract::{within, Contract};
use crate::error::LockupError;
use crate::events::{creation_event, FtLockupCreateLockup};
use crate::index_set::IndexSet;
use crate::lockup::{
    lockup_validation, request_validation, requested_lockup, LockupCreate, LockupCreateModel,
    LockupModel,
};
use crate::LockupIndex;

verus! {

/// What the sender of tokens asks for with the transfer.
#[derive(Debug, PartialEq)]
pub enum FtMessage {
    /// To lock the tokens up.
    LockupCreate(LockupCreate),
}

/// What a message holds.
pub open spec fn message_model(message: FtMessage) -> LockupCreateModel {
    match message {
        FtMessage::LockupCreate(request) => request@,
    }
}

/// What the request `c`, sent by `sender` with `amount` tokens, answers: the
/// lockup, or why none is created. The lockup must be valid for the total
/// balance of its own release schedule, and then for `amount`.
pub open spec fn creation_outcome(c: LockupCreateModel, sender: AccountId, amount: u128) -> Result<
    LockupModel,
    LockupError,
> {
    if request_validation(c, sender) is Err {
        Err(request_validation(c, sender)->Err_0)
    } else if lockup_validation(requested_lockup(c, sender), amount) is Err {
        Err(lockup_validation(requested_lockup(c, sender), amount)->Err_0)
    } else {
        Ok(requested_lockup(c, sender))
    }
}

impl Contract {
    /// Takes in `amount` tokens that `sender_id` sent with a request to lock
    /// them up; see [`creation_outcome`]. `indices` is the set of the account
    /// that the lockup is for. The lockup is stored at the end of the ledger
    /// and its creation event is returned. A request that is refused changes
    /// nothing.
    pub fn ft_on_transfer(
        &mut self,
        indices: &mut IndexSet,
        sender_id: &AccountId,
        amount: u128,
        message: FtMessage,
    ) -> (res: Result<FtLockupCreateLockup, LockupError>)
        ensures
            match creation_outcome(message_model(message), *sender_id, amount) {
                Ok(lockup) => res == Ok::<FtLockupCreateLockup, LockupError>(
                    creation_event(old(self)@.len() as LockupIndex, lockup),
                ) && final(self)@ == old(self)@.push(lockup) && final(indices)@ == old(
                    indices,
                )@.insert(old(self)@.len() as LockupIndex),
                Err(e) => res == Err::<FtLockupCreateLockup, LockupError>(e) && final(self)@
                    == old(self)@ && final(indices)@ == old(indices)@,
            },
            old(self).well_formed() ==> final(self).well_formed(),
            within(old(indices)@, old(self)@.len()) ==> within(final(indices)@, final(self)@.len()),
    {
        match message {
            FtMessage::LockupCreate(lockup_create) => {
                let lockup = match lockup_create.into_lockup(sender_id) {
                    Ok(lockup) => lockup,
                    Err(e) => {
                        return Err(e);
                    },
                };
                match lockup.assert_valid(amount) {
                    Ok(()) => {},
                    Err(e) => {
                        return Err(e);
                    },
                }
                assert(self@.len() == self.lockups.len());
                let event = FtLockupCreateLockup::from((self.lockups.len() as u64, lockup.clone()));
                let index = self.internal_add_lockup(lockup, indices);
                Ok(event)
            },
        }
    }
}

} // verus!
