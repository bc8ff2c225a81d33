//! The subscriber registry: every live reader's delivery slot, keyed by a
//! registration number that stands for the slot's identity. A slot is added
//! exactly when a reader subscribes and removed exactly when that reader goes
//! away.

use vstd::prelude::*;

use crate::change::Change;

verus! {

/// One registered subscriber: its registration number and its slot.
pub struct Entry<T> {
    pub id: u64,
    pub change: Change<T>,
}

/// How much one entry contributes to the channel's busy count: a slot counts
/// until its reader has parked.
pub open spec fn busy_weight<T>(e: Entry<T>) -> nat {
    if e.change.val is Parked {
        0
    } else {
        1
    }
}

/// The number of entries whose reader has not parked: the channel is idle
/// exactly when this is zero.
pub open spec fn count_unparked<T>(s: Seq<Entry<T>>) -> nat
    decreases s.len(),
{
    if s.len() == 0 {
        0
    } else {
        count_unparked(s.drop_last()) + busy_weight(s.last())
    }
}

pub proof fn lemma_count_le_len<T>(s: Seq<Entry<T>>)
    ensures
        count_unparked(s) <= s.len(),
    decreases s.len(),
{
    if s.len() > 0 {
        lemma_count_le_len(s.drop_last());
    }
}

pub proof fn lemma_count_all_unparked<T>(s: Seq<Entry<T>>)
    requires
        forall|i: int| 0 <= i < s.len() ==> !((#[trigger] s[i]).change.val is Parked),
    ensures
        count_unparked(s) == s.len(),
    decreases s.len(),
{
    if s.len() > 0 {
        lemma_count_all_unparked(s.drop_last());
    }
}

pub proof fn lemma_count_push<T>(s: Seq<Entry<T>>, e: Entry<T>)
    ensures
        count_unparked(s.push(e)) == count_unparked(s) + busy_weight(e),
{
    assert(s.push(e).drop_last() =~= s);
}

pub proof fn lemma_count_update<T>(s: Seq<Entry<T>>, i: int, e: Entry<T>)
    requires
        0 <= i < s.len(),
    ensures
        count_unparked(s.update(i, e)) + busy_weight(s[i]) == count_unparked(s) + busy_weight(e),
    decreases s.len(),
{
    if i == s.len() - 1 {
        assert(s.update(i, e).drop_last() =~= s.drop_last());
        assert(s.update(i, e).last() == e);
    } else {
        lemma_count_update(s.drop_last(), i, e);
        assert(s.update(i, e).drop_last() =~= s.drop_last().update(i, e));
        assert(s.update(i, e).last() == s.last());
    }
}

pub proof fn lemma_count_remove<T>(s: Seq<Entry<T>>, i: int)
    requires
        0 <= i < s.len(),
    ensures
        count_unparked(s.remove(i)) + busy_weight(s[i]) == count_unparked(s),
    decreases s.len(),
{
    if i == s.len() - 1 {
        assert(s.remove(i) =~= s.drop_last());
    } else {
        lemma_count_remove(s.drop_last(), i);
        assert(s.remove(i).drop_last() =~= s.drop_last().remove(i));
        assert(s.remove(i).last() == s.last());
    }
}

/// The registry of per-subscriber slots. Kept by the channel; notification
/// walks it, subscription and unsubscription edit it.
pub struct Subscribers<T> {
    pub entries: Vec<Entry<T>>,
}

impl<T> Subscribers<T> {
    /// No two entries share a registration number.
    pub open spec fn ids_unique(self) -> bool {
        forall|i: int, j: int|
            0 <= i < self.entries@.len() && 0 <= j < self.entries@.len() && i != j
                ==> (#[trigger] self.entries@[i]).id != (#[trigger] self.entries@[j]).id
    }

    /// Whether some entry carries the registration number `id`.
    pub open spec fn contains_id(self, id: u64) -> bool {
        exists|i: int| 0 <= i < self.entries@.len() && (#[trigger] self.entries@[i]).id == id
    }

    /// The index of the entry carrying `id`.
    pub open spec fn index_of_id(self, id: u64) -> int {
        choose|i: int| 0 <= i < self.entries@.len() && (#[trigger] self.entries@[i]).id == id
    }

    /// An empty registry.
    pub fn new() -> (r: Self)
        ensures
            r.entries@.len() == 0,
    {
        Subscribers { entries: Vec::new() }
    }

    /// The registration numbers present right now, in registry order: the
    /// frozen view a notification pass walks.
    pub fn snapshot(&self) -> (r: Vec<u64>)
        ensures
            r@.len() == self.entries@.len(),
            forall|i: int|
                0 <= i < r@.len() ==> r@[i] == (#[trigger] self.entries@[i]).id,
    {
        let mut ids: Vec<u64> = Vec::new();
        let mut i: usize = 0;
        while i < self.entries.len()
            invariant
                i <= self.entries@.len(),
                ids@.len() == i,
                forall|j: int| 0 <= j < i ==> ids@[j] == (#[trigger] self.entries@[j]).id,
            decreases self.entries@.len() - i,
        {
            ids.push(self.entries[i].id);
            i = i + 1;
        }
        ids
    }

    /// Add a slot under a number not yet taken.
    pub fn subscribe(&mut self, id: u64, change: Change<T>)
        requires
            !old(self).contains_id(id),
        ensures
            final(self).entries@ == old(self).entries@.push((Entry { id, change })),
    {
        self.entries.push(Entry { id, change });
    }

    /// Remove the slot registered under `id`, if it is still there.
    pub fn unsubscribe(&mut self, id: u64)
        requires
            old(self).ids_unique(),
        ensures
            !old(self).contains_id(id) ==> *final(self) == *old(self),
            old(self).contains_id(id) ==> {
                let i = old(self).index_of_id(id);
                &&& 0 <= i < old(self).entries@.len()
                &&& old(self).entries@[i].id == id
                &&& final(self).entries@ == old(self).entries@.remove(i)
            },
    {
        let n = self.entries.len();
        let mut i: usize = 0;
        while i < n
            invariant
                *self == *old(self),
                self.ids_unique(),
                n == self.entries@.len(),
                i <= n,
                forall|j: int| 0 <= j < i ==> (#[trigger] self.entries@[j]).id != id,
            decreases n - i,
        {
            if self.entries[i].id == id {
                proof {
                    assert(self.contains_id(id));
                    let k = self.index_of_id(id);
                    assert(self.entries@[k].id == id);
                    if k != i as int {
                        assert(self.entries@[k].id != self.entries@[i as int].id);
                        assert(false);
                    }
                }
                self.entries.remove(i);
                return;
            }
            i = i + 1;
        }
        proof {
            assert(!self.contains_id(id));
        }
    }

    /// Find the current position of the slot registered under `id`.
    pub fn find(&self, id: u64) -> (r: Option<usize>)
        requires
            self.ids_unique(),
        ensures
            match r {
                Some(i) => {
                    &&& self.contains_id(id)
                    &&& i == self.index_of_id(id)
                    &&& i < self.entries@.len()
                    &&& self.entries@[i as int].id == id
                },
                None => !self.contains_id(id),
            },
    {
        let n = self.entries.len();
        let mut i: usize = 0;
        while i < n
            invariant
                self.ids_unique(),
                n == self.entries@.len(),
                i <= n,
                forall|j: int| 0 <= j < i ==> (#[trigger] self.entries@[j]).id != id,
            decreases n - i,
        {
            if self.entries[i].id == id {
                proof {
                    assert(self.contains_id(id));
                    let k = self.index_of_id(id);
                    assert(self.entries@[k].id == id);
                    if k != i as int {
                        assert(self.entries@[k].id != self.entries@[i as int].id);
                        assert(false);
                    }
                }
                return Some(i);
            }
            i = i + 1;
        }
        None
    }
}

} // verus!
