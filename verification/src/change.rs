//! The two cells at the heart of a channel and their state machines.
//!
//! `ChangeValNoWake` is the channel's central snapshot cell: it remembers the
//! latest committed write and whether the writer is gone. `ChangeVal` is one
//! subscriber's delivery slot: it carries the next observation owed to that
//! reader, or records that the reader is parked waiting for news. `Change`
//! wraps a slot and implements the two slot operations: `set_value`, by which
//! the channel pushes the current snapshot in, and `poll`, by which a reader
//! takes its next observation out.

use vstd::prelude::*;
use vstd::pervasive::cloned;

use crate::error::Closed;
use crate::values_exact;
use crate::Value;

verus! {

/// Raise the process's count of slots holding undelivered news. The runtime
/// keeps one such count per channel group to let tests await quiescence.
pub fn set_busy(count: &mut usize)
    requires
        *old(count) < usize::MAX,
    ensures
        *final(count) == *old(count) + 1,
{
    *count = *count + 1;
}

/// Lower the count raised by `set_busy`.
pub fn clear_busy(count: &mut usize)
    requires
        *old(count) > 0,
    ensures
        *final(count) == *old(count) - 1,
{
    *count = *count - 1;
}

/// The snapshot cell: the single authoritative current state of a channel.
///
/// Transitions only move forward: `Empty` to `Live`, `Live` to `Live`, and
/// either into `Finalizing`, which is terminal.
pub enum ChangeValNoWake<T> {
    /// Nothing was ever written.
    Empty,
    /// The latest committed write.
    Live(T),
    /// The writer is gone; an undelivered last value may remain.
    Finalizing(Option<T>),
}

/// One subscriber's delivery slot.
pub enum ChangeVal<T> {
    /// No undelivered news for this reader.
    Pending,
    /// A value to deliver.
    Fresh(T),
    /// A terminal delivery: the last value, if one is still owed, then close.
    Final(Option<T>),
    /// No news, and the reader parked a waker to be invoked on the next update.
    Parked,
}

impl<T> ChangeValNoWake<T> {
    /// The value a non-waiting peek observes.
    pub open spec fn current_value(self) -> Option<T> {
        match self {
            ChangeValNoWake::Empty => None,
            ChangeValNoWake::Live(v) => Some(v),
            ChangeValNoWake::Finalizing(f) => f,
        }
    }

    /// The snapshot state machine, on a write of `v`: a live cell replaces
    /// its value; a finalized cell ignores everything.
    pub open spec fn commit_write_spec(self, v: T) -> ChangeValNoWake<T> {
        if self is Finalizing {
            self
        } else {
            ChangeValNoWake::Live(v)
        }
    }

    /// The snapshot state machine, on close: the latest value, if any, is
    /// kept for one last delivery. Terminal, and entered at most once.
    pub open spec fn commit_close_spec(self) -> ChangeValNoWake<T> {
        match self {
            ChangeValNoWake::Empty => ChangeValNoWake::Finalizing(None),
            ChangeValNoWake::Live(v) => ChangeValNoWake::Finalizing(Some(v)),
            ChangeValNoWake::Finalizing(f) => ChangeValNoWake::Finalizing(f),
        }
    }

    /// Commit a write to the cell.
    pub fn commit_write(&mut self, v: T)
        ensures
            *final(self) == old(self).commit_write_spec(v),
    {
        let terminal = match self {
            ChangeValNoWake::Finalizing(_) => true,
            _ => false,
        };
        if !terminal {
            *self = ChangeValNoWake::Live(v);
        }
    }

    /// Commit the terminal transition.
    pub fn commit_close(&mut self)
        ensures
            *final(self) == old(self).commit_close_spec(),
    {
        let mut taken = ChangeValNoWake::Empty;
        core::mem::swap(self, &mut taken);
        match taken {
            ChangeValNoWake::Empty => {
                *self = ChangeValNoWake::Finalizing(None);
            }
            ChangeValNoWake::Live(v) => {
                *self = ChangeValNoWake::Finalizing(Some(v));
            }
            ChangeValNoWake::Finalizing(f) => {
                *self = ChangeValNoWake::Finalizing(f);
            }
        }
    }
}

/// Whether `b` holds a clone of what `a` holds.
pub open spec fn opt_cloned<T: Clone>(a: Option<T>, b: Option<T>) -> bool {
    match (a, b) {
        (None, None) => true,
        (Some(x), Some(y)) => cloned::<T>(x, y),
        _ => false,
    }
}

/// The slot states a subscriber may be left in when the snapshot cell holds
/// `snap`: a slot never carries news older than the cell, and once the cell
/// is terminal the slot is too. Delivered payloads are clones of what the
/// cell holds.
pub open spec fn slot_matches<T: Clone>(slot: ChangeVal<T>, snap: ChangeValNoWake<T>) -> bool {
    match snap {
        ChangeValNoWake::Empty => slot is Pending || slot is Parked,
        ChangeValNoWake::Live(v) => slot is Pending || slot is Parked || (slot is Fresh
            && cloned::<T>(v, slot->Fresh_0)),
        ChangeValNoWake::Finalizing(f) => slot is Final && (slot->Final_0 is None || opt_cloned(
            f,
            slot->Final_0,
        )),
    }
}

/// What `set_value` does to a slot holding `slot` when the snapshot cell
/// holds `snap`: the new slot state, and whether a parked waker must be
/// invoked. An empty snapshot delivers nothing; a live value overwrites
/// whatever undelivered news was there (the reader only ever cares for the
/// latest); a terminal snapshot is copied in once and never overwritten.
pub open spec fn deliver_spec<T>(slot: ChangeVal<T>, snap: ChangeValNoWake<T>) -> (ChangeVal<
    T,
>, bool) {
    match snap {
        ChangeValNoWake::Empty => (slot, false),
        ChangeValNoWake::Live(v) => (ChangeVal::Fresh(v), slot is Parked),
        ChangeValNoWake::Finalizing(f) => {
            if slot is Final {
                (slot, false)
            } else {
                (ChangeVal::Final(f), slot is Parked)
            }
        },
    }
}

/// What `poll` does to a slot holding `slot` for a reader whose last
/// observation was `prev`: the new slot state, and the observation returned,
/// `None` meaning "no news, the reader parks". A fresh value equal to `prev`
/// is suppressed; a terminal slot yields its last value once, then `Closed`
/// forever.
pub open spec fn poll_spec<T>(slot: ChangeVal<T>, prev: Option<Result<T, Closed>>) -> (ChangeVal<
    T,
>, Option<Result<T, Closed>>) {
    match slot {
        ChangeVal::Fresh(v) => {
            if prev != Some(Ok::<T, Closed>(v)) {
                (ChangeVal::Pending, Some(Ok(v)))
            } else {
                (ChangeVal::Parked, None)
            }
        },
        ChangeVal::Final(f) => {
            match f {
                Some(v) => {
                    if prev != Some(Ok::<T, Closed>(v)) {
                        (ChangeVal::Final(None), Some(Ok(v)))
                    } else {
                        (ChangeVal::Final(None), Some(Err(Closed)))
                    }
                },
                None => (ChangeVal::Final(None), Some(Err(Closed))),
            }
        },
        ChangeVal::Pending => (ChangeVal::Parked, None),
        ChangeVal::Parked => (ChangeVal::Parked, None),
    }
}

/// A subscriber's slot. The surrounding runtime keeps one of these per
/// reader, next to the reader's waker.
pub struct Change<T> {
    pub val: ChangeVal<T>,
}

/// Whether `prev` records an earlier observation of exactly the value `v`.
fn same_observation<T: Value>(prev: &Option<Result<T, Closed>>, v: &T) -> (r: bool)
    ensures
        values_exact::<T>() ==> (r <==> *prev == Some(Ok::<T, Closed>(*v))),
{
    match prev {
        Some(Ok(p)) => p.eq(v),
        _ => false,
    }
}

impl<T: Value> Change<T> {
    /// A fresh slot: nothing owed, nobody parked.
    pub fn new() -> (r: Self)
        ensures
            r.val == ChangeVal::<T>::Pending,
    {
        Change { val: ChangeVal::Pending }
    }

    /// Push the current snapshot into this slot. Returns whether a parked
    /// waker must now be invoked (after all locks are released).
    ///
    /// An empty snapshot only ever meets a fresh `Pending` slot (priming a
    /// new subscription before anything was written), and a live snapshot
    /// never meets a slot already finalized: the channel commits the snapshot
    /// cell first and finalizes it at most once.
    pub fn set_value(&mut self, snap: &ChangeValNoWake<T>) -> (wake: bool)
        requires
            *snap is Empty ==> old(self).val is Pending,
            *snap is Live ==> !(old(self).val is Final),
        ensures
            wake == deliver_spec(old(self).val, *snap).1,
            values_exact::<T>() ==> final(self).val == deliver_spec(old(self).val, *snap).0,
            final(self).val is Parked ==> old(self).val is Parked,
            *snap is Empty ==> final(self).val == old(self).val,
            *snap is Live ==> final(self).val is Fresh && cloned::<T>(
                snap->Live_0,
                final(self).val->Fresh_0,
            ),
            *snap is Finalizing ==> final(self).val is Final,
            *snap is Finalizing && old(self).val is Final ==> final(self).val == old(self).val,
            *snap is Finalizing && !(old(self).val is Final) ==> opt_cloned(
                snap->Finalizing_0,
                final(self).val->Final_0,
            ),
    {
        match snap {
            ChangeValNoWake::Empty => false,
            ChangeValNoWake::Live(v) => {
                let was_parked = match &self.val {
                    ChangeVal::Parked => true,
                    _ => false,
                };
                let c = v.clone();
                proof {
                    if values_exact::<T>() {
                        assert(cloned::<T>(*v, c));
                    }
                }
                self.val = ChangeVal::Fresh(c);
                was_parked
            }
            ChangeValNoWake::Finalizing(f) => {
                let already_final = match &self.val {
                    ChangeVal::Final(_) => true,
                    _ => false,
                };
                if already_final {
                    false
                } else {
                    let was_parked = match &self.val {
                        ChangeVal::Parked => true,
                        _ => false,
                    };
                    let c = f.clone();
                    proof {
                        if values_exact::<T>() {
                            if f is Some {
                                assert(cloned::<T>(f->Some_0, c->Some_0));
                            }
                            assert(c == *f);
                        }
                    }
                    self.val = ChangeVal::Final(c);
                    was_parked
                }
            }
        }
    }

    /// Take this reader's next observation out of the slot, deduplicated
    /// against `prev`, the observation the reader last returned. `None` means
    /// no news: the slot is left `Parked` and the caller must suspend.
    pub fn poll(&mut self, prev: &Option<Result<T, Closed>>) -> (r: Option<Result<T, Closed>>)
        ensures
            values_exact::<T>() ==> ({
                &&& final(self).val == poll_spec(old(self).val, *prev).0
                &&& r == poll_spec(old(self).val, *prev).1
            }),
            r is None <==> final(self).val is Parked,
            r is None ==> (old(self).val is Pending || old(self).val is Parked
                || old(self).val is Fresh),
            old(self).val is Final ==> final(self).val == ChangeVal::<T>::Final(None)
                && r is Some,
            (old(self).val is Pending || old(self).val is Parked) ==> r is None,
            old(self).val is Fresh ==> (final(self).val is Pending || final(self).val is Parked),
            r matches Some(Ok(v)) ==> (old(self).val == ChangeVal::Fresh(v) || (old(
                self,
            ).val matches ChangeVal::Final(Some(w)) && w == v)),
            r matches Some(Err(_)) ==> old(self).val is Final,
    {
        let mut taken = ChangeVal::Pending;
        core::mem::swap(&mut self.val, &mut taken);
        match taken {
            ChangeVal::Fresh(v) => {
                if !same_observation(prev, &v) {
                    // the slot was already left `Pending` by the swap
                    Some(Ok(v))
                } else {
                    self.val = ChangeVal::Parked;
                    None
                }
            }
            ChangeVal::Final(f) => {
                self.val = ChangeVal::Final(None);
                match f {
                    Some(v) => {
                        if !same_observation(prev, &v) {
                            Some(Ok(v))
                        } else {
                            Some(Err(Closed))
                        }
                    }
                    None => Some(Err(Closed)),
                }
            }
            ChangeVal::Pending => {
                self.val = ChangeVal::Parked;
                None
            }
            ChangeVal::Parked => {
                self.val = ChangeVal::Parked;
                None
            }
        }
    }
}

} // verus!
