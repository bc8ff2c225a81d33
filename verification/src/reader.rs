//! The reader's side of a channel: a registered slot plus the observation
//! the reader last returned, against which every candidate delivery is
//! deduplicated. A reader never returns the same observation twice in a row.

use vstd::prelude::*;
use vstd::pervasive::cloned;
use vstd::pervasive::unreached;
use vstd::pervasive::VecAdditionalExecFns;

use crate::change::clear_busy;
use crate::change::deliver_spec;
use crate::change::opt_cloned;
use crate::change::poll_spec;
use crate::change::slot_matches;
use crate::change::Change;
use crate::change::ChangeVal;
use crate::error::Closed;
use crate::shared_state::SharedState;
use crate::subscribers::lemma_count_update;
use crate::subscribers::Entry;
use crate::values_exact;
use crate::Value;

verus! {

/// Whether `b` could be a copy of the observation `a`: equal up to cloning
/// of the payload.
pub open spec fn observation_cloned<T: Clone>(
    a: Option<Result<T, Closed>>,
    b: Option<Result<T, Closed>>,
) -> bool {
    match (a, b) {
        (None, None) => true,
        (Some(Ok(x)), Some(Ok(y))) => cloned::<T>(x, y),
        (Some(Err(_)), Some(Err(_))) => true,
        _ => false,
    }
}

/// A subscribed reader: the registration number of its slot and the
/// observation it last returned.
pub struct EventualReader<T> {
    /// Which slot of the channel's registry belongs to this reader.
    pub id: u64,
    /// The observation most recently returned, used to suppress a redundant
    /// re-delivery of the same snapshot.
    pub prev: Option<Result<T, Closed>>,
}

impl<T: Value> EventualReader<T> {
    /// Subscribe to `state`: register a fresh slot, primed with the current
    /// snapshot, and start with nothing observed.
    pub fn new(state: &mut SharedState<T>) -> (r: Self)
        requires
            old(state).wf(),
            old(state).next_id < u64::MAX,
        ensures
            final(state).wf(),
            r.prev is None,
            r.id == old(state).next_id,
            final(state).next_id == old(state).next_id + 1,
            final(state).last_write == old(state).last_write,
            final(state).has_slot(r.id),
            final(state).slots().len() == old(state).slots().len() + 1,
            forall|j: int|
                0 <= j < old(state).slots().len() ==> (#[trigger] final(state).slots()[j]) == old(state).slots()[j],
            final(state).slots().last().id == r.id,
            slot_matches(final(state).slots().last().change.val, old(state).last_write),
            old(state).last_write is Empty ==> final(state).slots().last().change.val is Pending,
            old(state).last_write is Live ==> final(state).slots().last().change.val is Fresh
                && cloned::<T>(
                old(state).last_write->Live_0,
                final(state).slots().last().change.val->Fresh_0,
            ),
            old(state).last_write is Finalizing ==> final(state).slots().last().change.val is Final
                && opt_cloned(
                old(state).last_write->Finalizing_0,
                final(state).slots().last().change.val->Final_0,
            ),
            values_exact::<T>() ==> final(state).slots() == old(state).slots().push(
                (Entry {
                    id: r.id,
                    change: (Change {
                        val: deliver_spec(ChangeVal::Pending, old(state).last_write).0,
                    }),
                }),
            ),
    {
        let id = state.subscribe();
        EventualReader { id, prev: None }
    }

    /// Forget the last observation, so that the current snapshot will be
    /// delivered again even if it equals what this reader already saw. Used
    /// only by the retrying map: when the caller's function failed on a
    /// value, the value must come again.
    pub(crate) fn force_dirty(&mut self)
        ensures
            final(self).id == old(self).id,
            final(self).prev is None,
    {
        self.prev = None;
    }

    /// A new subscription that behaves as this reader would from here on:
    /// a fresh primed slot, deduplicated against the same last observation.
    pub fn clone_reader(&self, state: &mut SharedState<T>) -> (r: Self)
        requires
            old(state).wf(),
            old(state).next_id < u64::MAX,
        ensures
            final(state).wf(),
            observation_cloned(self.prev, r.prev),
            values_exact::<T>() ==> r.prev == self.prev,
            r.id == old(state).next_id,
            final(state).next_id == old(state).next_id + 1,
            final(state).last_write == old(state).last_write,
            final(state).has_slot(r.id),
            final(state).slots().len() == old(state).slots().len() + 1,
            forall|j: int|
                0 <= j < old(state).slots().len() ==> (#[trigger] final(state).slots()[j]) == old(state).slots()[j],
            final(state).slots().last().id == r.id,
            slot_matches(final(state).slots().last().change.val, old(state).last_write),
            old(state).last_write is Empty ==> final(state).slots().last().change.val is Pending,
            old(state).last_write is Live ==> final(state).slots().last().change.val is Fresh
                && cloned::<T>(
                old(state).last_write->Live_0,
                final(state).slots().last().change.val->Fresh_0,
            ),
            old(state).last_write is Finalizing ==> final(state).slots().last().change.val is Final
                && opt_cloned(
                old(state).last_write->Finalizing_0,
                final(state).slots().last().change.val->Final_0,
            ),
            values_exact::<T>() ==> final(state).slots() == old(state).slots().push(
                (Entry {
                    id: r.id,
                    change: (Change {
                        val: deliver_spec(ChangeVal::Pending, old(state).last_write).0,
                    }),
                }),
            ),
    {
        let id = state.subscribe();
        let prev: Option<Result<T, Closed>> = match &self.prev {
            None => None,
            Some(Ok(v)) => {
                let c = v.clone();
                proof {
                    assert(cloned::<T>(*v, c));
                }
                Some(Ok(c))
            }
            Some(Err(e)) => Some(Err(*e)),
        };
        EventualReader { id, prev }
    }

    /// Take this reader's next observation, or `None` when there is no news
    /// and the caller must park and suspend. The slot is drained under
    /// deduplication against the last observation, which is updated with
    /// whatever is returned.
    pub fn next(&mut self, state: &mut SharedState<T>) -> (r: Option<Result<T, Closed>>)
        requires
            old(state).wf(),
            old(state).has_slot(old(self).id),
        ensures
            final(state).wf(),
            final(self).id == old(self).id,
            final(state).last_write == old(state).last_write,
            final(state).next_id == old(state).next_id,
            final(state).slots().len() == old(state).slots().len(),
            final(state).has_slot(old(self).id),
            forall|j: int|
                0 <= j < old(state).slots().len() && j != old(state).subscribers.index_of_id(
                    old(self).id,
                ) ==> (#[trigger] final(state).slots()[j]) == old(state).slots()[j],
            r is None ==> final(self).prev == old(self).prev,
            r is Some ==> observation_cloned(r, final(self).prev),
            ({
                let idx = old(state).subscribers.index_of_id(old(self).id);
                let slot0 = old(state).slots()[idx].change.val;
                &&& final(state).slots()[idx].id == old(self).id
                &&& (r matches Some(Ok(v)) ==> slot0 == ChangeVal::Fresh(v) || slot0
                    == ChangeVal::Final(Some(v)))
                &&& (r matches Some(Err(_)) ==> slot0 is Final)
                &&& (r is None ==> (slot0 is Pending || slot0 is Parked || slot0 is Fresh))
                &&& ((slot0 is Pending || slot0 is Parked) ==> r is None)
                &&& (slot0 is Final ==> r is Some && final(state).slots()[idx].change.val
                    == ChangeVal::<T>::Final(None))
            }),
            values_exact::<T>() ==> ({
                let idx = old(state).subscribers.index_of_id(old(self).id);
                let step = poll_spec(old(state).slots()[idx].change.val, old(self).prev);
                &&& r == step.1
                &&& final(state).slots()[idx].change.val == step.0
                &&& final(self).prev == if r is Some {
                    r
                } else {
                    old(self).prev
                }
                &&& (r matches Some(Ok(v)) ==> old(self).prev != Some(Ok::<T, Closed>(v)))
            }),
    {
        let found = state.subscribers.find(self.id);
        let idx = match found {
            Some(i) => i,
            None => unreached(),
        };
        let ghost s0 = state.slots();
        let mut e = Entry { id: 0u64, change: Change::<T>::new() };
        state.subscribers.entries.set_and_swap(idx, &mut e);
        let was_parked = match &e.change.val {
            ChangeVal::Parked => true,
            _ => false,
        };
        let r = e.change.poll(&self.prev);
        let now_parked = match &e.change.val {
            ChangeVal::Parked => true,
            _ => false,
        };
        let ghost e1 = e;
        state.subscribers.entries.set_and_swap(idx, &mut e);
        proof {
            assert(state.slots() =~= s0.update(idx as int, e1));
            lemma_count_update(s0, idx as int, e1);
        }
        if !was_parked && now_parked {
            clear_busy(&mut state.busy);
        }
        proof {
            assert forall|a: int, b: int|
                0 <= a < state.slots().len() && 0 <= b < state.slots().len() && a != b implies (
            #[trigger] state.slots()[a]).id != (#[trigger] state.slots()[b]).id by {
                assert(s0[a].id != s0[b].id);
            }
            assert(state.has_slot(self.id));
        }
        match &r {
            None => {}
            Some(Ok(v)) => {
                let c = v.clone();
                proof {
                    assert(cloned::<T>(*v, c));
                }
                self.prev = Some(Ok(c));
            }
            Some(Err(_)) => {
                self.prev = Some(Err(Closed));
            }
        }
        r
    }
}

} // verus!
