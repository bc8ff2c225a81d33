//! The guarantees of the channel, stated and proved over the specification
//! transitions that the executable operations are verified against: one
//! writer committing writes and one close, many readers polling their slots
//! under deduplication.

use vstd::prelude::*;

use crate::change::deliver_spec;
use crate::change::poll_spec;
use crate::change::slot_matches;
use crate::change::Change;
use crate::change::ChangeVal;
use crate::change::ChangeValNoWake;
use crate::error::Closed;
use crate::shared_state::delivered_entries;
use crate::subscribers::Entry;

verus! {

/// One committed write, as the channel performs it: the snapshot cell takes
/// the value, then every slot receives it; all of it ignored once the channel
/// is finalized.
pub open spec fn spec_write<T: Clone>(
    snap: ChangeValNoWake<T>,
    slots: Seq<Entry<T>>,
    v: T,
) -> (ChangeValNoWake<T>, Seq<Entry<T>>) {
    if snap is Finalizing {
        (snap, slots)
    } else {
        (ChangeValNoWake::Live(v), delivered_entries(slots, ChangeValNoWake::Live(v)))
    }
}

/// The close, as the channel performs it on the writer going away.
pub open spec fn spec_close<T: Clone>(snap: ChangeValNoWake<T>, slots: Seq<Entry<T>>) -> (ChangeValNoWake<
    T,
>, Seq<Entry<T>>) {
    if snap is Finalizing {
        (snap, slots)
    } else {
        (snap.commit_close_spec(), delivered_entries(slots, snap.commit_close_spec()))
    }
}

/// A new subscription: a fresh slot is registered and then primed with the
/// current snapshot.
pub open spec fn spec_subscribe<T: Clone>(
    snap: ChangeValNoWake<T>,
    slots: Seq<Entry<T>>,
    id: u64,
) -> Seq<Entry<T>> {
    slots.push(
        (Entry { id, change: (Change { val: deliver_spec(ChangeVal::Pending, snap).0 }) }),
    )
}

/// A whole sequence of committed writes, in order.
pub open spec fn spec_writes<T: Clone>(
    snap: ChangeValNoWake<T>,
    slots: Seq<Entry<T>>,
    ws: Seq<T>,
) -> (ChangeValNoWake<T>, Seq<Entry<T>>)
    decreases ws.len(),
{
    if ws.len() == 0 {
        (snap, slots)
    } else {
        let prior = spec_writes(snap, slots, ws.drop_last());
        spec_write(prior.0, prior.1, ws.last())
    }
}

/// The snapshot state machine is terminal in its finalizing state: neither a
/// write nor another close moves it, and the whole channel ignores them.
pub proof fn lemma_finalizing_terminal<T: Clone>(snap: ChangeValNoWake<T>, slots: Seq<Entry<T>>, v: T)
    requires
        snap is Finalizing,
    ensures
        snap.commit_write_spec(v) == snap,
        snap.commit_close_spec() == snap,
        spec_write(snap, slots, v) == (snap, slots),
        spec_close(snap, slots) == (snap, slots),
{
}

/// While the writer lives, any run of writes converges: the cell holds the
/// last value written and every slot carries exactly that value, whatever
/// each held before.
pub proof fn lemma_writes_converge<T: Clone>(snap: ChangeValNoWake<T>, slots: Seq<Entry<T>>, ws: Seq<T>)
    requires
        !(snap is Finalizing),
        ws.len() > 0,
    ensures
        spec_writes(snap, slots, ws).0 == ChangeValNoWake::Live(ws.last()),
        spec_writes(snap, slots, ws).1.len() == slots.len(),
        forall|i: int|
            0 <= i < slots.len() ==> (#[trigger] spec_writes(snap, slots, ws).1[i]).id
                == slots[i].id,
        forall|i: int|
            0 <= i < slots.len() ==> (#[trigger] spec_writes(snap, slots, ws).1[i]).change.val
                == ChangeVal::Fresh(ws.last()),
    decreases ws.len(),
{
    if ws.len() > 1 {
        lemma_writes_converge(snap, slots, ws.drop_last());
    } else {
        assert(spec_writes(snap, slots, ws.drop_last()) == (snap, slots));
    }
    let prior = spec_writes(snap, slots, ws.drop_last());
    let live = ChangeValNoWake::Live(ws.last());
    assert(spec_writes(snap, slots, ws) == spec_write(prior.0, prior.1, ws.last()));
    assert(spec_writes(snap, slots, ws).1 == delivered_entries(prior.1, live));
    assert forall|i: int| 0 <= i < slots.len() implies (#[trigger] spec_writes(
        snap,
        slots,
        ws,
    ).1[i]).id == slots[i].id && spec_writes(snap, slots, ws).1[i].change.val == ChangeVal::Fresh(
        ws.last(),
    ) by {
        assert(prior.1[i].id == slots[i].id);
        assert(delivered_entries(prior.1, live)[i] == (Entry {
            id: prior.1[i].id,
            change: (Change { val: deliver_spec(prior.1[i].change.val, live).0 }),
        }));
    }
}

/// Last-write convergence: after any writes ending in `vn` and then the
/// close, every subscribed reader that polls to completion observes `vn`
/// followed by `Closed` — or only `Closed`, if `vn` is exactly what it had
/// already observed last.
pub proof fn lemma_last_write_convergence<T: Clone>(
    snap: ChangeValNoWake<T>,
    slots: Seq<Entry<T>>,
    ws: Seq<T>,
    i: int,
    prev: Option<Result<T, Closed>>,
)
    requires
        !(snap is Finalizing),
        ws.len() > 0,
        0 <= i < slots.len(),
    ensures
        ({
            let written = spec_writes(snap, slots, ws);
            let closed = spec_close(written.0, written.1);
            let first = poll_spec(closed.1[i].change.val, prev);
            &&& closed.0 == ChangeValNoWake::Finalizing(Some(ws.last()))
            &&& closed.1[i].change.val == ChangeVal::Final(Some(ws.last()))
            &&& (prev != Some(Ok::<T, Closed>(ws.last())) ==> first.1 == Some(
                Ok::<T, Closed>(ws.last()),
            ) && poll_spec(first.0, first.1).1 == Some(Err::<T, Closed>(Closed)))
            &&& (prev == Some(Ok::<T, Closed>(ws.last())) ==> first.1 == Some(
                Err::<T, Closed>(Closed),
            ))
        }),
{
    lemma_writes_converge(snap, slots, ws);
}

/// A reader subscribing only after the channel closed is primed with the
/// terminal state, so the final value and the close are not missed even by
/// the latest of subscribers.
pub proof fn lemma_late_subscriber_not_missed<T: Clone>(
    snap: ChangeValNoWake<T>,
    slots: Seq<Entry<T>>,
    id: u64,
)
    requires
        snap is Finalizing,
    ensures
        spec_subscribe(snap, slots, id).last().change.val == ChangeVal::Final(
            snap->Finalizing_0,
        ),
{
}

/// Force-dirty re-delivery: a fresh subscription whose last observation is
/// forgotten observes the channel's unchanged current value on its very first
/// poll — the deduplication cannot suppress it — so a retrying map sees the
/// value its function just failed on again.
pub proof fn lemma_force_dirty_redelivers<T: Clone>(
    snap: ChangeValNoWake<T>,
    slots: Seq<Entry<T>>,
    id: u64,
)
    requires
        snap is Live,
    ensures
        ({
            let primed = spec_subscribe(snap, slots, id).last().change.val;
            &&& primed == ChangeVal::Fresh(snap->Live_0)
            &&& poll_spec(primed, None).1 == Some(Ok::<T, Closed>(snap->Live_0))
        }),
{
}

/// Tearing a chain down: a subscription that is dropped again removes exactly
/// the slot it added, so once every reader a combinator chain made is gone,
/// each channel's registry stands as it did before the chain was built.
pub proof fn lemma_teardown_roundtrip<T: Clone>(
    snap: ChangeValNoWake<T>,
    slots: Seq<Entry<T>>,
    id: u64,
)
    requires
        forall|i: int| 0 <= i < slots.len() ==> (#[trigger] slots[i]).id != id,
    ensures
        spec_subscribe(snap, slots, id).len() == slots.len() + 1,
        spec_subscribe(snap, slots, id).last().id == id,
        spec_subscribe(snap, slots, id).remove(slots.len() as int) == slots,
        forall|i: int|
            0 <= i < slots.len() ==> (#[trigger] spec_subscribe(snap, slots, id)[i]).id != id,
{
    assert(spec_subscribe(snap, slots, id).remove(slots.len() as int) =~= slots);
}

/// No duplicate adjacency: a poll never returns the observation the reader
/// last returned, so successive observations are pairwise distinct — two
/// values in a row differ, and after `Closed` no value ever follows it that
/// equals the one before it.
pub proof fn lemma_no_duplicate_adjacency<T: Clone>(
    slot1: ChangeVal<T>,
    prev: Option<Result<T, Closed>>,
    slot2: ChangeVal<T>,
)
    ensures
        poll_spec(slot1, prev).1 matches Some(Ok(v)) ==> prev != Some(Ok::<T, Closed>(v)),
        ({
            let first = poll_spec(slot1, prev).1;
            let second = poll_spec(slot2, first).1;
            second matches Some(Ok(_)) ==> second != first
        }),
{
}

/// One reader's resolved observations over a whole run of polls: the slot
/// passes through the states `slots` — whatever the interleaved deliveries
/// were — and each poll that resolves advances the deduplication state, as
/// the reader's own step does.
pub open spec fn observed<T>(
    slots: Seq<ChangeVal<T>>,
    prev: Option<Result<T, Closed>>,
) -> Seq<Result<T, Closed>>
    decreases slots.len(),
{
    if slots.len() == 0 {
        Seq::empty()
    } else {
        let step = poll_spec(slots.first(), prev);
        match step.1 {
            None => observed(slots.drop_first(), prev),
            Some(o) => seq![o] + observed(slots.drop_first(), Some(o)),
        }
    }
}

/// No duplicate adjacency, over a whole run: however the slot's states are
/// interleaved with deliveries, the sequence of observations a reader's
/// successive polls resolve to contains no adjacent equal elements — and its
/// first element differs from whatever the reader had observed before.
pub proof fn lemma_no_duplicate_adjacency_run<T: Clone>(
    slots: Seq<ChangeVal<T>>,
    prev: Option<Result<T, Closed>>,
)
    ensures
        ({
            let obs = observed(slots, prev);
            &&& forall|i: int|
                (0 < i < obs.len() && (#[trigger] obs[i]) matches Ok(_)) ==> obs[i] != obs[i - 1]
            &&& ((obs.len() > 0 && obs[0] matches Ok(_)) ==> prev != Some(obs[0]))
        }),
    decreases slots.len(),
{
    if slots.len() > 0 {
        let step = poll_spec(slots.first(), prev);
        match step.1 {
            None => {
                lemma_no_duplicate_adjacency_run(slots.drop_first(), prev);
            },
            Some(o) => {
                lemma_no_duplicate_adjacency_run(slots.drop_first(), Some(o));
                let rest = observed(slots.drop_first(), Some(o));
                let obs = observed(slots, prev);
                assert(obs == seq![o] + rest);
                assert forall|i: int|
                    (0 < i < obs.len() && (#[trigger] obs[i]) matches Ok(_)) implies obs[i] != obs[
                    i - 1] by {
                    if i == 1 {
                        assert(rest[0] matches Ok(_) ==> Some(rest[0]) != Some(o));
                    } else {
                        assert(obs[i] == rest[i - 1] && obs[i - 1] == rest[i - 2]);
                    }
                }
            },
        }
    }
}

/// No missed finalization: once the writer is gone, every slot — whatever
/// news it held — is terminal; a poll of a terminal slot always resolves
/// rather than parking, and `Closed` is reached within two polls and is then
/// sticky forever.
pub proof fn lemma_no_missed_finalization<T: Clone>(
    snap: ChangeValNoWake<T>,
    slots: Seq<Entry<T>>,
    i: int,
    prev: Option<Result<T, Closed>>,
)
    requires
        0 <= i < slots.len(),
        slot_matches(slots[i].change.val, snap),
    ensures
        spec_close(snap, slots).0 is Finalizing,
        spec_close(snap, slots).1[i].change.val is Final,
        ({
            let first = poll_spec(spec_close(snap, slots).1[i].change.val, prev);
            &&& first.1 is Some
            &&& (first.1 matches Some(Ok(v)) ==> poll_spec(first.0, first.1).1 == Some(
                Err::<T, Closed>(Closed),
            ))
            &&& (first.1 == Some(Err::<T, Closed>(Closed)) ==> first.0 == ChangeVal::<T>::Final(
                None,
            ))
        }),
        forall|p: Option<Result<T, Closed>>|
            poll_spec(ChangeVal::<T>::Final(None), p) == (
            ChangeVal::<T>::Final(None),
            Some(Err::<T, Closed>(Closed)),
            ),
{
}

/// Subscribing before a write and subscribing after it cannot be told apart:
/// either way the registry ends up the same, and the new reader's first poll
/// observes exactly the written value.
pub proof fn lemma_subscribe_write_commutes<T: Clone>(
    snap: ChangeValNoWake<T>,
    slots: Seq<Entry<T>>,
    id: u64,
    v: T,
)
    requires
        !(snap is Finalizing),
    ensures
        ({
            let sub_first = spec_write(snap, spec_subscribe(snap, slots, id), v);
            let write_first = spec_write(snap, slots, v);
            let sub_second = spec_subscribe(write_first.0, write_first.1, id);
            &&& sub_first.0 == write_first.0
            &&& sub_first.1 == sub_second
            &&& poll_spec(sub_first.1.last().change.val, None).1 == Some(Ok::<T, Closed>(v))
        }),
{
    let live = ChangeValNoWake::Live(v);
    let primed = (Entry { id, change: (Change { val: deliver_spec(ChangeVal::Pending, snap).0 }) });
    let fresh = (Entry { id, change: (Change { val: ChangeVal::Fresh(v) }) });
    assert(delivered_entries(slots.push(primed), live) =~= delivered_entries(slots, live).push(
        fresh,
    ));
}

} // verus!
