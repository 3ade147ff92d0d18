use vstd::prelude::*;
use crate::contract::{within, Contract};
use crate::index_set::IndexSet;
use crate::lockup::{lockup_well_formed, Lockup};
use crate::LockupIndex;

verus! {

impl Contract {
    /// Stores a new lockup at the end of the ledger and puts its index in
    /// the set of its account. Returns the index.
    pub fn internal_add_lockup(&mut self, lockup: Lockup, indices: &mut IndexSet) -> (index:
        LockupIndex)
        ensures
            index == old(self)@.len(),
            final(self)@ == old(self)@.push(lockup@),
            final(indices)@ == old(indices)@.insert(index),
            old(self).well_formed() && lockup.well_formed() ==> final(self).well_formed(),
            within(old(indices)@, old(self)@.len()) ==> within(final(indices)@, final(self)@.len()),
    {
        let ghost before = self@;
        assert(before.len() == self.lockups.len());
        let index = self.lockups.len() as u64;
        self.lockups.push(lockup);
        indices.insert(index);
        proof {
            assert(self@ =~= before.push(lockup@));
            if old(self).well_formed() && lockup.well_formed() {
                assert forall|i: int| 0 <= i < self@.len() implies lockup_well_formed(
                    #[trigger] self@[i],
                ) by {
                    if i < before.len() {
                        assert(lockup_well_formed(before[i]));
                    }
                }
            }
        }
        index
    }

    /// The lockups of the account whose set of indices is `indices`, each
    /// with its index, in ascending order of index.
    pub fn internal_get_account_lockups(&self, indices: &IndexSet) -> (res: Vec<
        (LockupIndex, Lockup),
    >)
        requires
            within(indices@, self@.len()),
        ensures
            res.len() == indices.items().len(),
            forall|k: int|
                0 <= k < res.len() ==> (#[trigger] res@[k]).0 == indices.items()[k]
                    && res@[k].1@ == self@[indices.items()[k] as int],
    {
        let items = indices.to_vec();
        proof {
            assert forall|k: int| 0 <= k < items.len() implies items@[k] < self@.len() by {
                assert(items@.contains(items@[k]));
            }
        }
        let mut res: Vec<(LockupIndex, Lockup)> = Vec::new();
        let mut i: usize = 0;
        while i < items.len()
            invariant
                i <= items.len(),
                res.len() == i,
                forall|k: int| 0 <= k < items.len() ==> items@[k] < self@.len(),
                forall|k: int|
                    0 <= k < i ==> (#[trigger] res@[k]).0 == items@[k] && res@[k].1@
                        == self@[items@[k] as int],
            decreases items.len() - i,
        {
            let index = items[i];
            res.push((index, self.lockup_at(index).clone()));
            i = i + 1;
        }
        res
    }
}

} // verus!
