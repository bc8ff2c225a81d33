//! The decisions made by the combinators that chain channels together.
//!
//! Every combinator follows one shape at run time: a background task reads
//! from an upstream channel and writes to a downstream one, ending — and
//! thereby closing the downstream — when the upstream closes or nobody reads
//! the downstream any more. The task's waiting, sleeping and spawning live in
//! the surrounding runtime; what it decides at each step stands here, as
//! verified functions from state and event to new state and action.

use vstd::prelude::*;
use vstd::pervasive::cloned;

use crate::change::deliver_spec;
use crate::change::opt_cloned;
use crate::change::poll_spec;
use crate::change::slot_matches;
use crate::change::Change;
use crate::change::ChangeVal;
use crate::change::ChangeValNoWake;
use crate::reader::EventualReader;
use crate::shared_state::delivered_entries;
use crate::shared_state::SharedState;
use crate::subscribers::Entry;
use crate::values_exact;
use crate::Value;

verus! {

/// The throttle's state: either between windows, or inside a window holding
/// the value to be written when the window closes.
pub enum ThrottleState<T> {
    /// No window is open; the next upstream value opens one.
    Idle,
    /// A window is open; the held value is replaced by every further upstream
    /// value and written out when the window expires.
    Window(T),
}

/// The throttle, on receiving an upstream value: the value is held, replacing
/// whatever the open window already held. Returns whether a new window must
/// be opened (a timer started).
pub fn throttle_receive<T: Value>(st: ThrottleState<T>, v: T) -> (r: (ThrottleState<T>, bool))
    ensures
        r.0 == ThrottleState::Window(v),
        r.1 == (st is Idle),
{
    match st {
        ThrottleState::Idle => (ThrottleState::Window(v), true),
        ThrottleState::Window(_) => (ThrottleState::Window(v), false),
    }
}

/// The throttle, on its window expiring: the held value — the last one
/// received during the window — is handed out to be written downstream.
pub fn throttle_expire<T: Value>(st: ThrottleState<T>) -> (r: (ThrottleState<T>, Option<T>))
    ensures
        st matches ThrottleState::Window(v) ==> r == (ThrottleState::<T>::Idle, Some(v)),
        st is Idle ==> r == (ThrottleState::<T>::Idle, Option::<T>::None),
{
    match st {
        ThrottleState::Idle => (ThrottleState::Idle, None),
        ThrottleState::Window(v) => (ThrottleState::Idle, Some(v)),
    }
}

/// Where the retrying loop stands.
pub enum RetryPhase {
    /// The current attempt is delivering values.
    Streaming,
    /// The last value was an error; a fresh attempt was requested and is
    /// raced against the current attempt producing something fresher.
    AwaitingRetry,
}

/// What the retrying loop hears: an observation from the current attempt, or
/// the fresh attempt becoming ready.
pub enum RetryEvent<O, E> {
    /// The current attempt produced a payload.
    Value(Result<O, E>),
    /// The source underneath is closed; no attempt will ever produce more.
    UpstreamClosed,
    /// The requested fresh attempt is ready to be subscribed.
    AttemptReady,
}

/// What the runtime must do next.
pub enum RetryAction<O, E> {
    /// Write the value downstream and poll the attempt again.
    WriteOut(O),
    /// Hand the error to the retry factory and race the fresh attempt
    /// against the current one.
    LaunchRetry(E),
    /// Drop the current attempt, subscribe to the fresh one, poll it.
    SwitchAttempt,
    /// Close the downstream channel and stop: the source is gone, and the
    /// factory is never called again.
    Stop,
}

/// One decision of the retrying loop. A successful value is always written,
/// even while a retry is pending — a fresher value obviates the retry. An
/// error always launches a retry. The close of the source ends the loop at
/// once.
pub fn retry_step<O: Value, E: Value>(phase: RetryPhase, event: RetryEvent<O, E>) -> (r: (
    RetryPhase,
    RetryAction<O, E>,
))
    requires
        event is AttemptReady ==> phase is AwaitingRetry,
    ensures
        event matches RetryEvent::Value(Ok(v)) ==> r == (
            RetryPhase::Streaming,
            RetryAction::<O, E>::WriteOut(v),
        ),
        event matches RetryEvent::Value(Err(e)) ==> r == (
            RetryPhase::AwaitingRetry,
            RetryAction::<O, E>::LaunchRetry(e),
        ),
        event is UpstreamClosed ==> r.1 == RetryAction::<O, E>::Stop,
        event is AttemptReady ==> r == (
            RetryPhase::Streaming,
            RetryAction::<O, E>::SwitchAttempt,
        ),
{
    match event {
        RetryEvent::Value(Ok(v)) => (RetryPhase::Streaming, RetryAction::WriteOut(v)),
        RetryEvent::Value(Err(e)) => (RetryPhase::AwaitingRetry, RetryAction::LaunchRetry(e)),
        RetryEvent::UpstreamClosed => (phase, RetryAction::Stop),
        RetryEvent::AttemptReady => (RetryPhase::Streaming, RetryAction::SwitchAttempt),
    }
}

/// The join's barrier: the latest value of each input, none until that input
/// has produced one.
pub struct JoinState<A, B> {
    /// The first input's latest value.
    pub a: Option<A>,
    /// The second input's latest value.
    pub b: Option<B>,
}

impl<A: Value, B: Value> JoinState<A, B> {
    /// Neither input has produced anything yet.
    pub fn new() -> (r: Self)
        ensures
            r.a is None,
            r.b is None,
    {
        JoinState { a: None, b: None }
    }

    /// The first input produced `v`: hold it, and once every input has
    /// produced at least one value, hand out the fresh pair to be written.
    pub fn update_first(&mut self, v: A) -> (out: Option<(A, B)>)
        ensures
            final(self).a == Some(v),
            final(self).b == old(self).b,
            out is Some <==> old(self).b is Some,
            out matches Some(p) ==> cloned::<A>(v, p.0) && cloned::<B>(old(self).b->0, p.1),
            values_exact::<A>() && values_exact::<B>() ==> out == match old(self).b {
                Some(b) => Some((v, b)),
                None => None,
            },
    {
        let out = match &self.b {
            Some(b) => {
                let ca = v.clone();
                let cb = b.clone();
                proof {
                    assert(cloned::<A>(v, ca));
                    assert(cloned::<B>(old(self).b->0, cb));
                }
                Some((ca, cb))
            }
            None => None,
        };
        self.a = Some(v);
        out
    }

    /// The second input produced `v`: the mirror of `update_first`.
    pub fn update_second(&mut self, v: B) -> (out: Option<(A, B)>)
        ensures
            final(self).b == Some(v),
            final(self).a == old(self).a,
            out is Some <==> old(self).a is Some,
            out matches Some(p) ==> cloned::<A>(old(self).a->0, p.0) && cloned::<B>(v, p.1),
            values_exact::<A>() && values_exact::<B>() ==> out == match old(self).a {
                Some(a) => Some((a, v)),
                None => None,
            },
    {
        let out = match &self.a {
            Some(a) => {
                let ca = a.clone();
                let cb = v.clone();
                proof {
                    assert(cloned::<A>(old(self).a->0, ca));
                    assert(cloned::<B>(v, cb));
                }
                Some((ca, cb))
            }
            None => None,
        };
        self.b = Some(v);
        out
    }
}

/// One step of the mapping loop: take the upstream reader's next observation;
/// on a value, write its image under `f` downstream; on the upstream close,
/// close the downstream; on no news, do nothing — the runtime parks. Returns
/// whether there was news.
pub fn map_step<I: Value, O: Value, F: Fn(I) -> O>(
    up: &mut SharedState<I>,
    reader: &mut EventualReader<I>,
    down: &mut SharedState<O>,
    f: F,
) -> (progressed: bool)
    requires
        old(up).wf(),
        old(up).has_slot(old(reader).id),
        old(down).wf(),
        forall|x: I| #[trigger] call_requires(f, (x,)),
    ensures
        final(up).wf(),
        final(down).wf(),
        final(reader).id == old(reader).id,
        final(up).has_slot(old(reader).id),
        final(up).last_write == old(up).last_write,
        final(down).next_id == old(down).next_id,
        final(down).slots().len() == old(down).slots().len(),
        final(up).slots().len() == old(up).slots().len(),
        forall|j: int|
            0 <= j < old(up).slots().len() && j != old(up).subscribers.index_of_id(
                old(reader).id,
            ) ==> (#[trigger] final(up).slots()[j]) == old(up).slots()[j],
        !progressed ==> *final(down) == *old(down) && final(reader).prev == old(reader).prev,
        ({
            let idx = old(up).subscribers.index_of_id(old(reader).id);
            let slot0 = old(up).slots()[idx].change.val;
            &&& ((slot0 is Pending || slot0 is Parked) ==> !progressed)
            &&& (slot0 is Final ==> progressed)
            &&& (!progressed ==> (slot0 is Pending || slot0 is Parked || slot0 is Fresh))
            &&& (progressed ==> ({
                ||| exists|v: I, w: O|
                    {
                        &&& (slot0 == ChangeVal::Fresh(v) || slot0 == ChangeVal::Final(Some(v)))
                        &&& #[trigger] call_ensures(f, (v,), w)
                        &&& final(down).last_write == old(down).last_write.commit_write_spec(w)
                        &&& (!(old(down).last_write is Finalizing) ==> forall|j: int|
                            0 <= j < final(down).slots().len() ==> (#[trigger] final(down).slots()[j]).change.val is Fresh && cloned::<O>(
                                w,
                                final(down).slots()[j].change.val->Fresh_0,
                            ))
                        &&& (values_exact::<O>() && !(old(down).last_write is Finalizing)
                            ==> final(down).slots() == delivered_entries(
                            old(down).slots(),
                            ChangeValNoWake::Live(w),
                        ))
                    }
                ||| (slot0 is Final && final(down).last_write == old(down).last_write.commit_close_spec() && (!(old(down).last_write is Finalizing)
                    ==> forall|j: int|
                    0 <= j < final(down).slots().len() ==> (#[trigger] final(down).slots()[j]).change.val is Final))
            }))
        }),
        values_exact::<I>() ==> ({
            let idx = old(up).subscribers.index_of_id(old(reader).id);
            let step = poll_spec(old(up).slots()[idx].change.val, old(reader).prev);
            &&& progressed == (step.1 is Some)
            &&& final(up).slots()[idx].change.val == step.0
            &&& (step.1 matches Some(Ok(v)) ==> exists|w: O|
                {
                    &&& #[trigger] call_ensures(f, (v,), w)
                    &&& final(down).last_write == old(down).last_write.commit_write_spec(w)
                })
            &&& (step.1 matches Some(Err(_)) ==> final(down).last_write == old(down).last_write.commit_close_spec())
            &&& (final(reader).prev == if step.1 is Some {
                step.1
            } else {
                old(reader).prev
            })
        }),
{
    let r = reader.next(up);
    match r {
        None => false,
        Some(Ok(v)) => {
            let ghost observed = v;
            let w = f(v);
            let ghost image = w;
            let _wakes = down.write(w);
            proof {
                assert(call_ensures(f, (observed,), image));
            }
            true
        }
        Some(Err(_)) => {
            let _wakes = down.close();
            true
        }
    }
}

/// What one step of the error-splitting loop found.
pub enum ErrorOutcome<E> {
    /// No news; the runtime parks.
    Idle,
    /// A successful value was written downstream.
    Delivered,
    /// An error payload: handed back for the caller's handler, with nothing
    /// written downstream.
    Failed(E),
    /// The upstream closed; the downstream was closed in turn.
    Ended,
}

/// One step of the loop that splits a stream of fallible payloads: successes
/// flow downstream, errors are handed to the caller, the close propagates.
pub fn handle_errors_step<O: Value, E: Value>(
    up: &mut SharedState<Result<O, E>>,
    reader: &mut EventualReader<Result<O, E>>,
    down: &mut SharedState<O>,
) -> (out: ErrorOutcome<E>)
    requires
        old(up).wf(),
        old(up).has_slot(old(reader).id),
        old(down).wf(),
    ensures
        final(up).wf(),
        final(down).wf(),
        final(reader).id == old(reader).id,
        final(up).has_slot(old(reader).id),
        final(up).last_write == old(up).last_write,
        final(up).slots().len() == old(up).slots().len(),
        forall|j: int|
            0 <= j < old(up).slots().len() && j != old(up).subscribers.index_of_id(
                old(reader).id,
            ) ==> (#[trigger] final(up).slots()[j]) == old(up).slots()[j],
        final(down).next_id == old(down).next_id,
        final(down).slots().len() == old(down).slots().len(),
        out is Idle ==> *final(down) == *old(down) && final(reader).prev == old(reader).prev,
        out matches ErrorOutcome::Failed(_) ==> *final(down) == *old(down),
        ({
            let idx = old(up).subscribers.index_of_id(old(reader).id);
            let slot0 = old(up).slots()[idx].change.val;
            &&& (out is Idle ==> (slot0 is Pending || slot0 is Parked || slot0 is Fresh))
            &&& ((slot0 is Pending || slot0 is Parked) ==> out is Idle)
            &&& (slot0 is Final ==> !(out is Idle))
            &&& (out is Delivered ==> exists|v: O|
                {
                    &&& (slot0 == ChangeVal::Fresh(Ok::<O, E>(v)) || slot0 == ChangeVal::Final(
                        Some(Ok::<O, E>(v)),
                    ))
                    &&& final(down).last_write == #[trigger] old(down).last_write.commit_write_spec(v)
                    &&& (!(old(down).last_write is Finalizing) ==> forall|j: int|
                        0 <= j < final(down).slots().len() ==> (#[trigger] final(down).slots()[j]).change.val is Fresh && cloned::<O>(
                            v,
                            final(down).slots()[j].change.val->Fresh_0,
                        ))
                    &&& (values_exact::<O>() && !(old(down).last_write is Finalizing) ==> final(down).slots() == delivered_entries(
                        old(down).slots(),
                        ChangeValNoWake::Live(v),
                    ))
                })
            &&& (out matches ErrorOutcome::Failed(e) ==> (slot0 == ChangeVal::Fresh(
                Err::<O, E>(e),
            ) || slot0 == ChangeVal::Final(Some(Err::<O, E>(e)))))
            &&& (out is Ended ==> slot0 is Final && final(down).last_write == old(down).last_write.commit_close_spec())
        }),
        values_exact::<Result<O, E>>() ==> ({
            let idx = old(up).subscribers.index_of_id(old(reader).id);
            let step = poll_spec(old(up).slots()[idx].change.val, old(reader).prev);
            &&& (out is Idle <==> step.1 is None)
            &&& (step.1 matches Some(Ok(Ok(v))) ==> out is Delivered && final(down).last_write
                == old(down).last_write.commit_write_spec(v))
            &&& (step.1 matches Some(Ok(Err(e))) ==> out == ErrorOutcome::<E>::Failed(e))
            &&& (step.1 matches Some(Err(_)) ==> out is Ended)
            &&& final(up).slots()[idx].change.val == step.0
            &&& final(reader).prev == if step.1 is Some {
                step.1
            } else {
                old(reader).prev
            }
        }),
{
    let r = reader.next(up);
    match r {
        None => ErrorOutcome::Idle,
        Some(Ok(Ok(v))) => {
            let _wakes = down.write(v);
            ErrorOutcome::Delivered
        }
        Some(Ok(Err(e))) => ErrorOutcome::Failed(e),
        Some(Err(_)) => {
            let _wakes = down.close();
            ErrorOutcome::Ended
        }
    }
}

/// On a failed attempt, the retrying map re-subscribes to the source as of
/// the same reader and forgets the last observation, so that the very value
/// the caller's function failed on is delivered again rather than suppressed
/// as a duplicate.
pub fn map_with_retry_resubscribe<T: Value>(
    reader: &EventualReader<T>,
    src: &mut SharedState<T>,
) -> (r: EventualReader<T>)
    requires
        old(src).wf(),
        old(src).next_id < u64::MAX,
    ensures
        final(src).wf(),
        r.prev is None,
        r.id == old(src).next_id,
        final(src).has_slot(r.id),
        final(src).last_write == old(src).last_write,
        final(src).next_id == old(src).next_id + 1,
        final(src).slots().len() == old(src).slots().len() + 1,
        forall|j: int|
            0 <= j < old(src).slots().len() ==> (#[trigger] final(src).slots()[j]) == old(src).slots()[j],
        final(src).slots().last().id == r.id,
        slot_matches(final(src).slots().last().change.val, old(src).last_write),
        old(src).last_write is Empty ==> final(src).slots().last().change.val is Pending,
        old(src).last_write is Live ==> final(src).slots().last().change.val is Fresh
            && cloned::<T>(
            old(src).last_write->Live_0,
            final(src).slots().last().change.val->Fresh_0,
        ),
        old(src).last_write is Finalizing ==> final(src).slots().last().change.val is Final
            && opt_cloned(
            old(src).last_write->Finalizing_0,
            final(src).slots().last().change.val->Final_0,
        ),
        values_exact::<T>() ==> final(src).slots() == old(src).slots().push(
            (Entry {
                id: r.id,
                change: (Change { val: deliver_spec(ChangeVal::Pending, old(src).last_write).0 }),
            }),
        ),
{
    let mut fresh = reader.clone_reader(src);
    fresh.force_dirty();
    fresh
}

/// The inputs of a select, each a channel paired with this loop's reader of
/// it, and the pairing sound.
pub open spec fn select_inputs_wf<T: Clone>(
    ups: Seq<SharedState<T>>,
    readers: Seq<EventualReader<T>>,
) -> bool {
    &&& ups.len() == readers.len()
    &&& forall|j: int| 0 <= j < ups.len() ==> (#[trigger] ups[j]).wf()
    &&& forall|j: int| 0 <= j < ups.len() ==> (#[trigger] ups[j]).has_slot(readers[j].id)
}

/// One step of the select loop, attending to input `i`: a value from it is
/// written downstream; an input that closed is dropped, and when the last
/// input is gone the downstream is closed; no news means the runtime parks
/// on that input.
pub fn select_step<T: Value>(
    ups: &mut Vec<SharedState<T>>,
    readers: &mut Vec<EventualReader<T>>,
    i: usize,
    down: &mut SharedState<T>,
) -> (progressed: bool)
    requires
        select_inputs_wf(old(ups)@, old(readers)@),
        i < old(ups)@.len(),
        old(down).wf(),
    ensures
        select_inputs_wf(final(ups)@, final(readers)@),
        final(down).wf(),
        final(down).next_id == old(down).next_id,
        final(ups)@.len() == old(ups)@.len() || final(ups)@.len() == old(ups)@.len() - 1,
        !progressed ==> *final(down) == *old(down) && final(ups)@.len() == old(ups)@.len(),
        final(ups)@.len() < old(ups)@.len() ==> final(ups)@ == old(ups)@.remove(i as int)
            && final(readers)@ == old(readers)@.remove(i as int),
        ({
            let idx = old(ups)@[i as int].subscribers.index_of_id(old(readers)@[i as int].id);
            let slot0 = old(ups)@[i as int].slots()[idx].change.val;
            &&& ((slot0 is Pending || slot0 is Parked) ==> !progressed)
            &&& (slot0 is Final ==> progressed)
            &&& (!progressed ==> (slot0 is Pending || slot0 is Parked || slot0 is Fresh))
            &&& (progressed && final(ups)@.len() == old(ups)@.len() ==> exists|v: T|
                {
                    &&& (slot0 == ChangeVal::Fresh(v) || slot0 == ChangeVal::Final(Some(v)))
                    &&& final(down).last_write == #[trigger] old(down).last_write.commit_write_spec(v)
                    &&& (!(old(down).last_write is Finalizing) ==> forall|j: int|
                        0 <= j < final(down).slots().len() ==> (#[trigger] final(down).slots()[j]).change.val is Fresh && cloned::<T>(
                            v,
                            final(down).slots()[j].change.val->Fresh_0,
                        ))
                })
            &&& (progressed && final(ups)@.len() < old(ups)@.len() ==> slot0 is Final && (old(ups)@.len() == 1 ==> final(down).last_write == old(down).last_write.commit_close_spec()) && (old(ups)@.len() > 1 ==> *final(down) == *old(down)))
        }),
        values_exact::<T>() ==> ({
            let idx = old(ups)@[i as int].subscribers.index_of_id(old(readers)@[i as int].id);
            let step = poll_spec(
                old(ups)@[i as int].slots()[idx].change.val,
                old(readers)@[i as int].prev,
            );
            &&& progressed == (step.1 is Some)
            &&& (step.1 matches Some(Ok(v)) ==> final(ups)@.len() == old(ups)@.len() && final(down).last_write == old(down).last_write.commit_write_spec(v))
            &&& (step.1 matches Some(Err(_)) ==> final(ups)@.len() == old(ups)@.len() - 1 && (
            old(ups)@.len() == 1 ==> final(down).last_write == old(down).last_write.commit_close_spec()) && (old(ups)@.len() > 1 ==> *final(down) == *old(down)))
        }),
{
    let ghost ups0 = ups@;
    let ghost readers0 = readers@;
    let mut up = SharedState::<T>::new();
    ups.set_and_swap(i, &mut up);
    let mut rd = EventualReader { id: 0u64, prev: None };
    readers.set_and_swap(i, &mut rd);
    let r = rd.next(&mut up);
    match r {
        None => {
            ups.set_and_swap(i, &mut up);
            readers.set_and_swap(i, &mut rd);
            proof {
                assert(ups@ =~= ups0.update(i as int, ups@[i as int]));
                assert(readers@ =~= readers0.update(i as int, readers@[i as int]));
            }
            false
        }
        Some(Ok(v)) => {
            let ghost observed = v;
            ups.set_and_swap(i, &mut up);
            readers.set_and_swap(i, &mut rd);
            proof {
                assert(ups@ =~= ups0.update(i as int, ups@[i as int]));
                assert(readers@ =~= readers0.update(i as int, readers@[i as int]));
            }
            let _wakes = down.write(v);
            proof {
                assert(final(down).last_write == old(down).last_write.commit_write_spec(observed));
            }
            true
        }
        Some(Err(_)) => {
            // this input is exhausted: drop its channel and reader
            ups.remove(i);
            readers.remove(i);
            proof {
                assert(ups@ =~= ups0.remove(i as int));
                assert(readers@ =~= readers0.remove(i as int));
                assert forall|j: int| 0 <= j < ups@.len() implies (#[trigger] ups@[j]).wf() && ups@[j].has_slot(
                    readers@[j].id,
                ) by {
                    let j0 = if j < i as int {
                        j
                    } else {
                        j + 1
                    };
                    assert(ups@[j] == ups0[j0]);
                    assert(readers@[j] == readers0[j0]);
                }
            }
            if ups.len() == 0 {
                let _wakes = down.close();
            }
            true
        }
    }
}

} // verus!
