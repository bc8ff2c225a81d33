//! The state shared between one writer and all readers of a channel: the
//! snapshot cell, the subscriber registry, and the count of slots holding
//! undelivered news. Committing a write or the close updates the cell first
//! and then walks the registry delivering the new snapshot to every slot;
//! subscribing registers a fresh slot and then primes it with the current
//! snapshot, so that a write committed before the subscription is never
//! missed.

use vstd::prelude::*;
use vstd::pervasive::cloned;
use vstd::pervasive::VecAdditionalExecFns;

use crate::change::clear_busy;
use crate::change::deliver_spec;
use crate::change::opt_cloned;
use crate::change::set_busy;
use crate::change::slot_matches;
use crate::change::Change;
use crate::change::ChangeVal;
use crate::change::ChangeValNoWake;
use crate::error::Closed;
use crate::subscribers::count_unparked;
use crate::subscribers::lemma_count_all_unparked;
use crate::subscribers::lemma_count_le_len;
use crate::subscribers::lemma_count_push;
use crate::subscribers::lemma_count_remove;
use crate::subscribers::lemma_count_update;
use crate::subscribers::Entry;
use crate::subscribers::Subscribers;
use crate::values_exact;
use crate::Value;

verus! {

/// Every slot after a pass that delivered the snapshot `snap` to each entry.
pub open spec fn delivered_entries<T: Clone>(
    s: Seq<Entry<T>>,
    snap: ChangeValNoWake<T>,
) -> Seq<Entry<T>> {
    s.map_values(
        |e: Entry<T>| (Entry { id: e.id, change: (Change { val: deliver_spec(e.change.val, snap).0 }) }),
    )
}

/// Whether the borrowed value handed to an updating function is a view of
/// the given current value.
pub open spec fn ref_matches<T>(a: Option<&T>, b: Option<T>) -> bool {
    match (a, b) {
        (None, None) => true,
        (Some(x), Some(y)) => *x == y,
        _ => false,
    }
}

/// The registration numbers whose parked wakers a delivery pass of `snap`
/// must invoke, in registry order.
pub open spec fn wake_list<T>(s: Seq<Entry<T>>, snap: ChangeValNoWake<T>) -> Seq<u64>
    decreases s.len(),
{
    if s.len() == 0 {
        Seq::empty()
    } else {
        wake_list(s.drop_last(), snap) + if deliver_spec(s.last().change.val, snap).1 {
            seq![s.last().id]
        } else {
            Seq::empty()
        }
    }
}

/// The channel's shared state.
pub struct SharedState<T> {
    /// The snapshot cell: the single authoritative current state.
    pub last_write: ChangeValNoWake<T>,
    /// One delivery slot per live reader.
    pub subscribers: Subscribers<T>,
    /// How many slots hold undelivered news (their reader has not parked).
    pub busy: usize,
    /// The next registration number to hand out.
    pub next_id: u64,
}

impl<T: Clone> SharedState<T> {
    /// The registry's entries.
    pub open spec fn slots(self) -> Seq<Entry<T>> {
        self.subscribers.entries@
    }

    /// Whether the reader registered under `id` still has a slot.
    pub open spec fn has_slot(self, id: u64) -> bool {
        self.subscribers.contains_id(id)
    }

    /// Every slot agrees with the snapshot cell: none carries stale news, and
    /// once the cell is terminal every slot is too.
    pub open spec fn slots_coherent(self) -> bool {
        forall|i: int|
            0 <= i < self.slots().len() ==> slot_matches(
                (#[trigger] self.slots()[i]).change.val,
                self.last_write,
            )
    }

    /// The channel's invariant: registration numbers are unique and below the
    /// next one to be handed out, the busy count is exact, and the slots
    /// agree with the snapshot cell.
    pub open spec fn wf(self) -> bool {
        &&& self.subscribers.ids_unique()
        &&& forall|i: int|
            0 <= i < self.slots().len() ==> (#[trigger] self.slots()[i]).id < self.next_id
        &&& self.busy == count_unparked(self.slots())
        &&& self.slots_coherent()
    }
}

impl<T: Value> SharedState<T> {
    /// A fresh channel: nothing written, nobody subscribed.
    pub fn new() -> (r: Self)
        ensures
            r.wf(),
            r.last_write is Empty,
            r.slots().len() == 0,
            r.busy == 0,
            r.next_id == 0,
    {
        SharedState {
            last_write: ChangeValNoWake::Empty,
            subscribers: Subscribers::new(),
            busy: 0,
            next_id: 0,
        }
    }

    /// A channel that is already closed with `v` as its final value: every
    /// subscriber will observe `v` once and then `Closed`.
    pub fn from_value(v: T) -> (r: Self)
        ensures
            r.wf(),
            r.last_write == ChangeValNoWake::Finalizing(Some(v)),
            r.slots().len() == 0,
            r.busy == 0,
            r.next_id == 0,
    {
        SharedState {
            last_write: ChangeValNoWake::Finalizing(Some(v)),
            subscribers: Subscribers::new(),
            busy: 0,
            next_id: 0,
        }
    }

    /// A non-waiting peek at the current snapshot.
    pub fn value_immediate(&self) -> (r: Option<T>)
        ensures
            r is Some <==> self.last_write.current_value() is Some,
            opt_cloned(self.last_write.current_value(), r),
            values_exact::<T>() ==> r == self.last_write.current_value(),
    {
        match &self.last_write {
            ChangeValNoWake::Empty => None,
            ChangeValNoWake::Live(v) => Some(v.clone()),
            ChangeValNoWake::Finalizing(f) => {
                match f {
                    Some(v) => Some(v.clone()),
                    None => None,
                }
            }
        }
    }

    /// The current snapshot, or `Closed` if the channel closed with no value
    /// left to deliver; `None` while nothing was written yet and a waiting
    /// read would suspend.
    pub fn value(&self) -> (r: Option<Result<T, Closed>>)
        ensures
            self.last_write is Empty <==> r is None,
            r matches Some(Ok(v)) ==> self.last_write.current_value() is Some && cloned::<T>(
                self.last_write.current_value()->Some_0,
                v,
            ),
            r == Some(Err::<T, Closed>(Closed)) <==> self.last_write == ChangeValNoWake::Finalizing(
                Option::<T>::None,
            ),
            values_exact::<T>() ==> r == match self.last_write {
                ChangeValNoWake::Empty => None,
                ChangeValNoWake::Live(v) => Some(Ok(v)),
                ChangeValNoWake::Finalizing(Some(v)) => Some(Ok(v)),
                ChangeValNoWake::Finalizing(None) => Some(Err(Closed)),
            },
    {
        match &self.last_write {
            ChangeValNoWake::Empty => None,
            ChangeValNoWake::Live(v) => {
                let c = v.clone();
                proof {
                    assert(cloned::<T>(*v, c));
                }
                Some(Ok(c))
            }
            ChangeValNoWake::Finalizing(f) => {
                match f {
                    Some(v) => {
                        let c = v.clone();
                        proof {
                            assert(cloned::<T>(*v, c));
                        }
                        Some(Ok(c))
                    }
                    None => Some(Err(Closed)),
                }
            }
        }
    }

    /// Whether every reader is parked: no slot holds undelivered news.
    pub fn idle(&self) -> (r: bool)
        ensures
            r <==> self.busy == 0,
    {
        self.busy == 0
    }

    /// How many readers are subscribed right now.
    pub fn subscriber_count(&self) -> (r: usize)
        ensures
            r == self.slots().len(),
    {
        self.subscribers.entries.len()
    }

    /// Deliver the current snapshot to the slot at position `i` of the
    /// registry, keeping the busy count exact. Returns whether that reader's
    /// parked waker must be invoked once all locks are released.
    pub fn notify_one(&mut self, i: usize) -> (wake: bool)
        requires
            i < old(self).slots().len(),
            old(self).busy == count_unparked(old(self).slots()),
            old(self).last_write is Empty ==> old(self).slots()[i as int].change.val is Pending,
            old(self).last_write is Live ==> !(old(self).slots()[i as int].change.val is Final),
            old(self).slots()[i as int].change.val is Final ==> slot_matches(
                old(self).slots()[i as int].change.val,
                old(self).last_write,
            ),
        ensures
            final(self).last_write == old(self).last_write,
            final(self).next_id == old(self).next_id,
            final(self).busy == count_unparked(final(self).slots()),
            final(self).slots().len() == old(self).slots().len(),
            forall|j: int|
                0 <= j < old(self).slots().len() && j != i
                    ==> final(self).slots()[j] == old(self).slots()[j],
            final(self).slots()[i as int].id == old(self).slots()[i as int].id,
            wake == deliver_spec(old(self).slots()[i as int].change.val, old(self).last_write).1,
            slot_matches(final(self).slots()[i as int].change.val, old(self).last_write),
            final(self).slots()[i as int].change.val is Parked
                ==> old(self).slots()[i as int].change.val is Parked,
            old(self).last_write is Live ==> final(self).slots()[i as int].change.val is Fresh,
            old(self).last_write is Finalizing
                ==> final(self).slots()[i as int].change.val is Final,
            old(self).last_write is Finalizing && !(old(self).slots()[i as int].change.val is Final)
                ==> opt_cloned(
                old(self).last_write->Finalizing_0,
                final(self).slots()[i as int].change.val->Final_0,
            ),
            old(self).last_write is Empty
                ==> final(self).slots()[i as int] == old(self).slots()[i as int],
            values_exact::<T>() ==> final(self).slots() == old(self).slots().update(
                i as int,
                (Entry {
                    id: old(self).slots()[i as int].id,
                    change: (Change {
                        val: deliver_spec(
                            old(self).slots()[i as int].change.val,
                            old(self).last_write,
                        ).0,
                    }),
                }),
            ),
    {
        let ghost s0 = self.slots();
        let mut e = Entry { id: 0u64, change: Change::<T>::new() };
        self.subscribers.entries.set_and_swap(i, &mut e);
        let was_parked = match &e.change.val {
            ChangeVal::Parked => true,
            _ => false,
        };
        let wake = e.change.set_value(&self.last_write);
        let now_parked = match &e.change.val {
            ChangeVal::Parked => true,
            _ => false,
        };
        let ghost e1 = e;
        self.subscribers.entries.set_and_swap(i, &mut e);
        proof {
            assert(self.slots() =~= s0.update(i as int, e1));
            lemma_count_update(s0, i as int, e1);
        }
        if was_parked && !now_parked {
            // reading the length as a usize bounds the busy count, which
            // never exceeds the number of slots
            let _len = self.subscribers.entries.len();
            proof {
                lemma_count_le_len(self.slots());
            }
            set_busy(&mut self.busy);
        } else if !was_parked && now_parked {
            clear_busy(&mut self.busy);
        }
        wake
    }

    /// Deliver the current snapshot to every slot of the registry. Returns
    /// the registration numbers whose parked wakers must be invoked, in
    /// registry order.
    ///
    /// Called right after a commit: the cell is no longer empty, and no slot
    /// can already be terminal unless the cell is.
    pub fn notify_all(&mut self) -> (wakes: Vec<u64>)
        requires
            !(old(self).last_write is Empty),
            old(self).busy == count_unparked(old(self).slots()),
            old(self).last_write is Live ==> forall|i: int|
                0 <= i < old(self).slots().len() ==> !((#[trigger] old(self).slots()[i]).change.val is Final),
            forall|i: int|
                0 <= i < old(self).slots().len() && (#[trigger] old(self).slots()[i]).change.val is Final ==> slot_matches(
                    old(self).slots()[i].change.val,
                    old(self).last_write,
                ),
        ensures
            final(self).last_write == old(self).last_write,
            final(self).next_id == old(self).next_id,
            final(self).busy == count_unparked(final(self).slots()),
            final(self).slots().len() == old(self).slots().len(),
            forall|j: int|
                0 <= j < old(self).slots().len() ==> (#[trigger] final(self).slots()[j]).id == old(self).slots()[j].id,
            old(self).subscribers.ids_unique() ==> final(self).subscribers.ids_unique(),
            wakes@ == wake_list(old(self).slots(), old(self).last_write),
            forall|j: int|
                0 <= j < final(self).slots().len() ==> slot_matches(
                    (#[trigger] final(self).slots()[j]).change.val,
                    old(self).last_write,
                ),
            old(self).last_write is Live ==> forall|j: int|
                0 <= j < final(self).slots().len() ==> (#[trigger] final(self).slots()[j]).change.val is Fresh,
            old(self).last_write is Finalizing ==> forall|j: int|
                0 <= j < final(self).slots().len() ==> (#[trigger] final(self).slots()[j]).change.val is Final,
            old(self).last_write is Finalizing ==> forall|j: int|
                0 <= j < final(self).slots().len() && !((#[trigger] old(self).slots()[j]).change.val is Final) ==> opt_cloned(
                    old(self).last_write->Finalizing_0,
                    final(self).slots()[j].change.val->Final_0,
                ),
            forall|j: int|
                0 <= j < final(self).slots().len() && (#[trigger] final(self).slots()[j]).change.val is Parked ==> old(self).slots()[j].change.val is Parked,
            values_exact::<T>() ==> final(self).slots() == delivered_entries(
                old(self).slots(),
                old(self).last_write,
            ),
    {
        let ghost s0 = self.slots();
        let ghost lw = self.last_write;
        let mut wakes: Vec<u64> = Vec::new();
        let n = self.subscribers.entries.len();
        let mut i: usize = 0;
        while i < n
            invariant
                self.last_write == lw,
                self.next_id == old(self).next_id,
                !(lw is Empty),
                n == self.slots().len(),
                s0.len() == n,
                i <= n,
                self.busy == count_unparked(self.slots()),
                forall|j: int| i <= j < n ==> (#[trigger] self.slots()[j]) == s0[j],
                forall|j: int|
                    0 <= j < n ==> (#[trigger] self.slots()[j]).id == s0[j].id,
                lw is Live ==> forall|j: int|
                    0 <= j < n ==> !((#[trigger] s0[j]).change.val is Final),
                forall|j: int|
                    0 <= j < n && (#[trigger] s0[j]).change.val is Final ==> slot_matches(
                        s0[j].change.val,
                        lw,
                    ),
                forall|j: int|
                    0 <= j < i ==> slot_matches((#[trigger] self.slots()[j]).change.val, lw),
                lw is Live ==> forall|j: int|
                    0 <= j < i ==> (#[trigger] self.slots()[j]).change.val is Fresh,
                lw is Finalizing ==> forall|j: int|
                    0 <= j < i ==> (#[trigger] self.slots()[j]).change.val is Final,
                lw is Finalizing ==> forall|j: int|
                    0 <= j < i && !((#[trigger] s0[j]).change.val is Final) ==> opt_cloned(
                        lw->Finalizing_0,
                        self.slots()[j].change.val->Final_0,
                    ),
                forall|j: int|
                    0 <= j < i && (#[trigger] self.slots()[j]).change.val is Parked
                        ==> s0[j].change.val is Parked,
                wakes@ == wake_list(s0.take(i as int), lw),
                values_exact::<T>() ==> forall|j: int|
                    0 <= j < i ==> (#[trigger] self.slots()[j]) == (Entry {
                        id: s0[j].id,
                        change: (Change { val: deliver_spec(s0[j].change.val, lw).0 }),
                    }),
            decreases n - i,
        {
            let id = self.subscribers.entries[i].id;
            let wake = self.notify_one(i);
            if wake {
                wakes.push(id);
            }
            proof {
                assert(s0.take(i + 1).drop_last() =~= s0.take(i as int));
                assert(s0.take(i + 1).last() == s0[i as int]);
                assert(wakes@ == wake_list(s0.take(i + 1), lw));
            }
            i = i + 1;
        }
        proof {
            assert(s0.take(n as int) =~= s0);
            if old(self).subscribers.ids_unique() {
                assert forall|a: int, b: int|
                    0 <= a < self.slots().len() && 0 <= b < self.slots().len() && a != b implies (
                #[trigger] self.slots()[a]).id != (#[trigger] self.slots()[b]).id by {
                    assert(s0[a].id != s0[b].id);
                }
            }
            if values_exact::<T>() {
                assert(self.slots() =~= delivered_entries(s0, lw));
            }
        }
        wakes
    }

    /// Commit a write of `v`: the snapshot cell takes `v`, then every slot
    /// receives it. Ignored entirely once the channel is finalized. Returns
    /// the registration numbers whose parked wakers must be invoked.
    pub fn write(&mut self, v: T) -> (wakes: Vec<u64>)
        requires
            old(self).wf(),
        ensures
            final(self).wf(),
            final(self).next_id == old(self).next_id,
            final(self).last_write == old(self).last_write.commit_write_spec(v),
            final(self).slots().len() == old(self).slots().len(),
            forall|j: int|
                0 <= j < old(self).slots().len() ==> (#[trigger] final(self).slots()[j]).id == old(self).slots()[j].id,
            old(self).last_write is Finalizing ==> *final(self) == *old(self) && wakes@
                == Seq::<u64>::empty(),
            !(old(self).last_write is Finalizing) ==> {
                &&& wakes@ == wake_list(old(self).slots(), ChangeValNoWake::Live(v))
                &&& forall|j: int|
                    0 <= j < final(self).slots().len() ==> (#[trigger] final(self).slots()[j]).change.val is Fresh && cloned::<T>(
                        v,
                        final(self).slots()[j].change.val->Fresh_0,
                    )
                &&& final(self).busy == final(self).slots().len()
                &&& (values_exact::<T>() ==> final(self).slots() == delivered_entries(
                    old(self).slots(),
                    ChangeValNoWake::Live(v),
                ))
            },
    {
        let terminal = match &self.last_write {
            ChangeValNoWake::Finalizing(_) => true,
            _ => false,
        };
        if terminal {
            return Vec::new();
        }
        self.last_write.commit_write(v);
        let wakes = self.notify_all();
        proof {
            lemma_count_all_unparked(self.slots());
        }
        wakes
    }

    /// Atomic read-modify-write: apply `f` to the current value, if any, and
    /// commit the result as a write. Between the read and the commit nothing
    /// else can touch the cell. Ignored entirely once the channel is
    /// finalized.
    pub fn update<F: FnOnce(Option<&T>) -> T>(&mut self, f: F) -> (wakes: Vec<u64>)
        requires
            old(self).wf(),
            forall|x: Option<&T>| #[trigger] call_requires(f, (x,)),
        ensures
            final(self).wf(),
            final(self).next_id == old(self).next_id,
            final(self).slots().len() == old(self).slots().len(),
            old(self).last_write is Finalizing ==> *final(self) == *old(self) && wakes@
                == Seq::<u64>::empty(),
            !(old(self).last_write is Finalizing) ==> exists|arg: Option<&T>, v: T|
                {
                    &&& #[trigger] call_ensures(f, (arg,), v)
                    &&& ref_matches(arg, old(self).last_write.current_value())
                    &&& final(self).last_write == ChangeValNoWake::Live(v)
                    &&& wakes@ == wake_list(old(self).slots(), ChangeValNoWake::Live(v))
                    &&& (values_exact::<T>() ==> final(self).slots() == delivered_entries(
                        old(self).slots(),
                        ChangeValNoWake::Live(v),
                    ))
                },
    {
        let terminal = match &self.last_write {
            ChangeValNoWake::Finalizing(_) => true,
            _ => false,
        };
        if terminal {
            return Vec::new();
        }
        let v = match &self.last_write {
            ChangeValNoWake::Live(cur) => f(Some(cur)),
            _ => f(None),
        };
        self.write(v)
    }

    /// Commit the terminal transition (the writer is gone): the snapshot cell
    /// finalizes, keeping the latest value for one last delivery, and every
    /// slot receives the terminal state. Entered at most once; ignored if the
    /// channel is already finalized. Returns the registration numbers whose
    /// parked wakers must be invoked.
    pub fn close(&mut self) -> (wakes: Vec<u64>)
        requires
            old(self).wf(),
        ensures
            final(self).wf(),
            final(self).next_id == old(self).next_id,
            final(self).last_write == old(self).last_write.commit_close_spec(),
            final(self).slots().len() == old(self).slots().len(),
            forall|j: int|
                0 <= j < old(self).slots().len() ==> (#[trigger] final(self).slots()[j]).id == old(self).slots()[j].id,
            old(self).last_write is Finalizing ==> *final(self) == *old(self) && wakes@
                == Seq::<u64>::empty(),
            !(old(self).last_write is Finalizing) ==> {
                &&& wakes@ == wake_list(
                    old(self).slots(),
                    old(self).last_write.commit_close_spec(),
                )
                &&& forall|j: int|
                    0 <= j < final(self).slots().len() ==> (#[trigger] final(self).slots()[j]).change.val is Final
                &&& forall|j: int|
                    0 <= j < final(self).slots().len() ==> opt_cloned(
                        old(self).last_write.commit_close_spec()->Finalizing_0,
                        (#[trigger] final(self).slots()[j]).change.val->Final_0,
                    )
                &&& (values_exact::<T>() ==> final(self).slots() == delivered_entries(
                    old(self).slots(),
                    old(self).last_write.commit_close_spec(),
                ))
            },
    {
        let terminal = match &self.last_write {
            ChangeValNoWake::Finalizing(_) => true,
            _ => false,
        };
        if terminal {
            return Vec::new();
        }
        self.last_write.commit_close();
        self.notify_all()
    }

    /// Register a new slot and then prime it with the current snapshot, in
    /// that order, so that a write slipping in between is delivered rather
    /// than missed. Returns the new slot's registration number.
    pub fn subscribe(&mut self) -> (id: u64)
        requires
            old(self).wf(),
            old(self).next_id < u64::MAX,
        ensures
            final(self).wf(),
            id == old(self).next_id,
            final(self).next_id == old(self).next_id + 1,
            final(self).last_write == old(self).last_write,
            final(self).has_slot(id),
            final(self).slots().len() == old(self).slots().len() + 1,
            forall|j: int|
                0 <= j < old(self).slots().len() ==> (#[trigger] final(self).slots()[j]) == old(self).slots()[j],
            final(self).slots().last().id == id,
            slot_matches(final(self).slots().last().change.val, old(self).last_write),
            old(self).last_write is Empty ==> final(self).slots().last().change.val is Pending,
            old(self).last_write is Live ==> final(self).slots().last().change.val is Fresh
                && cloned::<T>(
                old(self).last_write->Live_0,
                final(self).slots().last().change.val->Fresh_0,
            ),
            old(self).last_write is Finalizing ==> final(self).slots().last().change.val is Final
                && opt_cloned(
                old(self).last_write->Finalizing_0,
                final(self).slots().last().change.val->Final_0,
            ),
            values_exact::<T>() ==> final(self).slots() == old(self).slots().push(
                (Entry {
                    id,
                    change: (Change {
                        val: deliver_spec(ChangeVal::Pending, old(self).last_write).0,
                    }),
                }),
            ),
    {
        let id = self.next_id;
        self.next_id = id + 1;
        proof {
            if self.subscribers.contains_id(id) {
                let k = choose|k: int|
                    0 <= k < self.slots().len() && (#[trigger] self.slots()[k]).id == id;
                assert(self.slots()[k].id < id);
            }
        }
        let ghost s0 = self.slots();
        self.subscribers.subscribe(id, Change::new());
        proof {
            lemma_count_push(s0, (Entry { id, change: (Change { val: ChangeVal::Pending }) }));
            lemma_count_le_len(s0);
        }
        let n = self.subscribers.entries.len();
        set_busy(&mut self.busy);
        let idx = n - 1;
        let wake = self.notify_one(idx);
        proof {
            if values_exact::<T>() {
                assert(self.slots() =~= s0.push(
                    (Entry {
                        id,
                        change: (Change {
                            val: deliver_spec(ChangeVal::Pending, old(self).last_write).0,
                        }),
                    }),
                ));
            }
        }
        id
    }

    /// Drop the slot registered under `id`: the mirror of `subscribe`, done
    /// when a reader goes away. A parked waker left in the slot needs no
    /// action; nobody will observe it.
    pub fn unsubscribe(&mut self, id: u64)
        requires
            old(self).wf(),
        ensures
            final(self).wf(),
            final(self).last_write == old(self).last_write,
            final(self).next_id == old(self).next_id,
            !final(self).has_slot(id),
            !old(self).has_slot(id) ==> *final(self) == *old(self),
            old(self).has_slot(id) ==> {
                let i = old(self).subscribers.index_of_id(id);
                &&& 0 <= i < old(self).slots().len()
                &&& old(self).slots()[i].id == id
                &&& final(self).slots() == old(self).slots().remove(i)
            },
    {
        let found = self.subscribers.find(id);
        match found {
            None => {
                proof {
                    assert(!self.has_slot(id));
                }
            }
            Some(idx) => {
                let ghost s0 = self.slots();
                let was_parked = match &self.subscribers.entries[idx].change.val {
                    ChangeVal::Parked => true,
                    _ => false,
                };
                proof {
                    lemma_count_remove(s0, idx as int);
                }
                self.subscribers.unsubscribe(id);
                if !was_parked {
                    clear_busy(&mut self.busy);
                }
                proof {
                    let i = idx as int;
                    assert forall|a: int, b: int|
                        0 <= a < self.slots().len() && 0 <= b < self.slots().len() && a != b implies (
                    #[trigger] self.slots()[a]).id != (#[trigger] self.slots()[b]).id by {
                        let a0 = if a < i {
                            a
                        } else {
                            a + 1
                        };
                        let b0 = if b < i {
                            b
                        } else {
                            b + 1
                        };
                        assert(self.slots()[a] == s0[a0]);
                        assert(self.slots()[b] == s0[b0]);
                        assert(s0[a0].id != s0[b0].id);
                    }
                    assert forall|a: int| 0 <= a < self.slots().len() implies (
                    #[trigger] self.slots()[a]).id < self.next_id && slot_matches(
                        self.slots()[a].change.val,
                        self.last_write,
                    ) && self.slots()[a].id != id by {
                        let a0 = if a < i {
                            a
                        } else {
                            a + 1
                        };
                        assert(self.slots()[a] == s0[a0]);
                        if self.slots()[a].id == id {
                            assert(s0[a0].id == s0[i].id);
                        }
                    }
                    if self.has_slot(id) {
                        let k = choose|k: int|
                            0 <= k < self.slots().len() && (#[trigger] self.slots()[k]).id == id;
                        assert(false);
                    }
                }
            }
        }
    }
}

} // verus!
