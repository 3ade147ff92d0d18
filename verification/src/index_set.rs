use vstd::prelude::*;
use crate::LockupIndex;

verus! {

/// The numbers of `s` strictly increase.
pub open spec fn ascending(s: Seq<LockupIndex>) -> bool {
    forall|i: int, j: int| 0 <= i < j < s.len() ==> s[i] < s[j]
}

/// The lockups of one account, by index. An index is in the set or it is
/// not: adding one twice leaves one.
pub struct IndexSet {
    items: Vec<LockupIndex>,
}

impl View for IndexSet {
    type V = Set<LockupIndex>;

    closed spec fn view(&self) -> Set<LockupIndex> {
        Set::new(|index: LockupIndex| self.items@.contains(index))
    }
}

proof fn lemma_insert_contains(s: Seq<LockupIndex>, p: int, x: LockupIndex, y: LockupIndex)
    requires
        0 <= p <= s.len(),
    ensures
        s.insert(p, x).contains(y) <==> (s.contains(y) || y == x),
{
    let r = s.insert(p, x);
    if r.contains(y) {
        let k = choose|k: int| 0 <= k < r.len() && r[k] == y;
        if k < p {
            assert(s[k] == y);
        } else if k > p {
            assert(s[k - 1] == y);
        }
    }
    if s.contains(y) {
        let k = choose|k: int| 0 <= k < s.len() && s[k] == y;
        if k < p {
            assert(r[k] == y);
        } else {
            assert(r[k + 1] == y);
        }
    }
    if y == x {
        assert(r[p] == y);
    }
}

proof fn lemma_remove_contains(s: Seq<LockupIndex>, p: int, y: LockupIndex)
    requires
        0 <= p < s.len(),
        ascending(s),
    ensures
        s.remove(p).contains(y) <==> (s.contains(y) && y != s[p]),
{
    let r = s.remove(p);
    if r.contains(y) {
        let k = choose|k: int| 0 <= k < r.len() && r[k] == y;
        if k < p {
            assert(s[k] == y);
        } else {
            assert(s[k + 1] == y);
        }
    }
    if s.contains(y) && y != s[p] {
        let k = choose|k: int| 0 <= k < s.len() && s[k] == y;
        if k < p {
            assert(r[k] == y);
        } else {
            assert(r[k - 1] == y);
        }
    }
}

/// A copy of `v` with `x` put in at place `p`.
fn with_inserted(v: &Vec<LockupIndex>, p: usize, x: LockupIndex) -> (res: Vec<LockupIndex>)
    requires
        p <= v.len(),
    ensures
        res@ == v@.insert(p as int, x),
{
    let mut res: Vec<LockupIndex> = Vec::new();
    let mut i: usize = 0;
    while i < p
        invariant
            i <= p <= v.len(),
            res@ == v@.take(i as int),
        decreases p - i,
    {
        res.push(v[i]);
        i = i + 1;
    }
    res.push(x);
    while i < v.len()
        invariant
            p <= i <= v.len(),
            res@ == v@.take(p as int).push(x) + v@.subrange(p as int, i as int),
        decreases v.len() - i,
    {
        res.push(v[i]);
        i = i + 1;
    }
    assert(res@ =~= v@.insert(p as int, x));
    res
}

/// A copy of `v` without what stands at place `p`.
fn with_removed(v: &Vec<LockupIndex>, p: usize) -> (res: Vec<LockupIndex>)
    requires
        p < v.len(),
    ensures
        res@ == v@.remove(p as int),
{
    let mut res: Vec<LockupIndex> = Vec::new();
    let mut i: usize = 0;
    while i < v.len()
        invariant
            i <= v.len(),
            p < v.len(),
            res@ == (if i <= p {
                v@.take(i as int)
            } else {
                v@.take(p as int) + v@.subrange(p + 1, i as int)
            }),
        decreases v.len() - i,
    {
        if i != p {
            res.push(v[i]);
        }
        i = i + 1;
    }
    assert(res@ =~= v@.remove(p as int));
    res
}

impl IndexSet {
    #[verifier::type_invariant]
    spec fn listed_once(self) -> bool {
        ascending(self.items@)
    }

    /// The indices of the set in ascending order.
    pub closed spec fn items(&self) -> Seq<LockupIndex> {
        self.items@
    }

    /// The set without an index.
    pub fn new() -> (res: IndexSet)
        ensures
            res@ == Set::<LockupIndex>::empty(),
            res.items() == Seq::<LockupIndex>::empty(),
    {
        let res = IndexSet { items: Vec::new() };
        assert(res@ =~= Set::<LockupIndex>::empty());
        res
    }

    /// The set of the indices in `indices`, however often and in whatever
    /// order they stand there.
    pub fn from_vec(indices: Vec<LockupIndex>) -> (res: IndexSet)
        ensures
            res@ == indices@.to_set(),
    {
        let mut res = IndexSet::new();
        let mut i: usize = 0;
        while i < indices.len()
            invariant
                i <= indices.len(),
                res@ == indices@.take(i as int).to_set(),
            decreases indices.len() - i,
        {
            res.insert(indices[i]);
            proof {
                let before = indices@.take(i as int);
                let after = indices@.take(i + 1);
                assert(after == before.push(indices@[i as int]));
                assert forall|x: LockupIndex| after.contains(x) <==> (before.contains(x) || x
                    == indices@[i as int]) by {
                    lemma_insert_contains(before, before.len() as int, indices@[i as int], x);
                    assert(before.insert(before.len() as int, indices@[i as int]) == after);
                }
                assert(res@ =~= after.to_set());
            }
            i = i + 1;
        }
        proof {
            assert(indices@.take(indices@.len() as int) == indices@);
        }
        res
    }

    /// Tells whether `index` is in the set.
    pub fn contains(&self, index: LockupIndex) -> (res: bool)
        ensures
            res == self@.contains(index),
    {
        let mut i: usize = 0;
        while i < self.items.len()
            invariant
                i <= self.items.len(),
                forall|k: int| 0 <= k < i ==> self.items@[k] != index,
            decreases self.items.len() - i,
        {
            if self.items[i] == index {
                return true;
            }
            i = i + 1;
        }
        false
    }

    /// Puts `index` in the set. Tells whether it was missing.
    pub fn insert(&mut self, index: LockupIndex) -> (res: bool)
        ensures
            final(self)@ == old(self)@.insert(index),
            res == !old(self)@.contains(index),
    {
        proof {
            use_type_invariant(&*self);
        }
        let mut p: usize = 0;
        while p < self.items.len() && self.items[p] < index
            invariant
                p <= self.items.len(),
                self.items@ == old(self).items@,
                ascending(self.items@),
                forall|k: int| 0 <= k < p ==> self.items@[k] < index,
            decreases self.items.len() - p,
        {
            p = p + 1;
        }
        if p < self.items.len() && self.items[p] == index {
            assert(self@ =~= old(self)@.insert(index));
            return false;
        }
        let ghost before = self.items@;
        proof {
            if before.contains(index) {
                let k = choose|k: int| 0 <= k < before.len() && before[k] == index;
                if k > p {
                    assert(before[p as int] < before[k]);
                }
            }
        }
        self.items = with_inserted(&self.items, p, index);
        proof {
            assert forall|x: LockupIndex| self.items@.contains(x) <==> (before.contains(x) || x
                == index) by {
                lemma_insert_contains(before, p as int, index, x);
            }
            assert(self@ =~= old(self)@.insert(index));
            assert forall|i: int, j: int| 0 <= i < j < self.items@.len() implies self.items@[i]
                < self.items@[j] by {
                let a = if i < p { i } else { i - 1 };
                let b = if j < p { j } else { j - 1 };
                if i != p && j != p {
                    assert(before[a] < before[b]);
                }
            }
        }
        true
    }

    /// Takes `index` out of the set. Tells whether it was there.
    pub fn remove(&mut self, index: LockupIndex) -> (res: bool)
        ensures
            final(self)@ == old(self)@.remove(index),
            res == old(self)@.contains(index),
    {
        proof {
            use_type_invariant(&*self);
        }
        let mut p: usize = 0;
        while p < self.items.len()
            invariant
                p <= self.items.len(),
                self.items@ == old(self).items@,
                ascending(self.items@),
                forall|k: int| 0 <= k < p ==> self.items@[k] != index,
            decreases self.items.len() - p,
        {
            if self.items[p] == index {
                let ghost before = self.items@;
                self.items = with_removed(&self.items, p);
                proof {
                    assert forall|x: LockupIndex| self.items@.contains(x) <==> (before.contains(
                        x,
                    ) && x != index) by {
                        lemma_remove_contains(before, p as int, x);
                    }
                    assert(self@ =~= old(self)@.remove(index));
                    assert forall|i: int, j: int|
                        0 <= i < j < self.items@.len() implies self.items@[i] < self.items@[j] by {
                        let a = if i < p { i } else { i + 1 };
                        let b = if j < p { j } else { j + 1 };
                        assert(before[a] < before[b]);
                    }
                }
                return true;
            }
            p = p + 1;
        }
        assert(self@ =~= old(self)@.remove(index));
        false
    }

    /// Tells whether the set holds no index.
    pub fn is_empty(&self) -> (res: bool)
        ensures
            res == (self@ == Set::<LockupIndex>::empty()),
    {
        let res = self.items.len() == 0;
        proof {
            if res {
                assert(self@ =~= Set::<LockupIndex>::empty());
            } else {
                assert(self.items@.contains(self.items@[0]));
                assert(self@.contains(self.items@[0]));
            }
        }
        res
    }

    /// The indices of the set in ascending order, each once.
    pub fn to_vec(&self) -> (res: Vec<LockupIndex>)
        ensures
            res@ == self.items(),
            ascending(res@),
            forall|index: LockupIndex| res@.contains(index) <==> self@.contains(index),
    {
        proof {
            use_type_invariant(self);
        }
        let mut res: Vec<LockupIndex> = Vec::new();
        let mut i: usize = 0;
        while i < self.items.len()
            invariant
                i <= self.items.len(),
                res@ == self.items@.take(i as int),
            decreases self.items.len() - i,
        {
            res.push(self.items[i]);
            i = i + 1;
        }
        proof {
            assert(self.items@.take(self.items@.len() as int) == self.items@);
        }
        res
    }
}

} // verus!
