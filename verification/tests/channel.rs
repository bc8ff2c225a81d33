use eventuals::error::Closed;
use eventuals::reader::EventualReader;
use eventuals::shared_state::SharedState;

// writing the same value repeatedly delivers it once: the reader
// deduplicates against its last observation
#[test]
fn dedup_suppresses_repeated_writes() {
    let mut st: SharedState<u32> = SharedState::new();
    let mut reader = EventualReader::new(&mut st);
    st.write(1);
    st.write(1);
    st.write(1);
    assert_eq!(reader.next(&mut st), Some(Ok(1)));
    assert_eq!(reader.next(&mut st), None);

    // even a fresh delivery of the same value is suppressed
    st.write(1);
    assert_eq!(reader.next(&mut st), None);

    // a different value comes through
    st.write(2);
    assert_eq!(reader.next(&mut st), Some(Ok(2)));
}

#[test]
fn three_readers_drop_one() {
    let mut st: SharedState<u32> = SharedState::new();
    let reader_0 = EventualReader::new(&mut st);
    let mut reader_1 = EventualReader::new(&mut st);
    let mut reader_2 = EventualReader::new(&mut st);

    st.write(5);
    st.write(10);
    assert_eq!(reader_1.next(&mut st), Some(Ok(10)));
    assert_eq!(reader_2.next(&mut st), Some(Ok(10)));

    st.unsubscribe(reader_0.id);
    st.write(1);

    assert_eq!(reader_1.next(&mut st), Some(Ok(1)));
    assert_eq!(reader_1.next(&mut st), None);
    assert_eq!(reader_2.next(&mut st), Some(Ok(1)));
    assert_eq!(reader_2.next(&mut st), None);
}

// the snapshot cell is terminal once finalized: later writes and closes are
// ignored entirely
#[test]
fn write_after_close_is_ignored() {
    let mut st: SharedState<u32> = SharedState::new();
    st.write(5);
    let wakes = st.close();
    assert_eq!(wakes.len(), 0);
    st.write(7);
    assert_eq!(st.value_immediate(), Some(5));
    let mut reader = EventualReader::new(&mut st);
    assert_eq!(reader.next(&mut st), Some(Ok(5)));
    assert_eq!(reader.next(&mut st), Some(Err(Closed)));
}

#[test]
fn close_twice_is_ignored() {
    let mut st: SharedState<u32> = SharedState::new();
    st.write(5);
    st.close();
    st.close();
    assert_eq!(st.value_immediate(), Some(5));
}

#[test]
fn subscribe_after_close_gets_final_value_then_closed() {
    let mut st: SharedState<u32> = SharedState::new();
    st.write(5);
    st.close();
    let mut reader = EventualReader::new(&mut st);
    assert_eq!(reader.next(&mut st), Some(Ok(5)));
    assert_eq!(reader.next(&mut st), Some(Err(Closed)));
    // Closed is sticky
    assert_eq!(reader.next(&mut st), Some(Err(Closed)));
}

#[test]
fn close_with_no_write_closes_empty() {
    let mut st: SharedState<u32> = SharedState::new();
    let mut before = EventualReader::new(&mut st);
    st.close();
    assert_eq!(before.next(&mut st), Some(Err(Closed)));
    let mut after = EventualReader::new(&mut st);
    assert_eq!(after.next(&mut st), Some(Err(Closed)));
    assert_eq!(st.value_immediate(), None);
    assert_eq!(st.value(), Some(Err(Closed)));
}

#[test]
fn value_immediate_peeks_without_waiting() {
    let mut st: SharedState<u32> = SharedState::new();
    assert_eq!(st.value_immediate(), None);
    assert_eq!(st.value(), None);
    st.write(3);
    assert_eq!(st.value_immediate(), Some(3));
    assert_eq!(st.value(), Some(Ok(3)));
    st.close();
    assert_eq!(st.value_immediate(), Some(3));
    assert_eq!(st.value(), Some(Ok(3)));
}

#[test]
fn update_on_closed_channel_is_ignored() {
    let mut st: SharedState<u32> = SharedState::new();
    st.write(2);
    st.close();
    st.update(|prev: Option<&u32>| prev.copied().unwrap_or(0) + 1);
    assert_eq!(st.value_immediate(), Some(2));
}

// a value written before the subscription is delivered, and the close after
// it is too
#[test]
fn write_subscribe_observe_close() {
    let mut st: SharedState<u32> = SharedState::new();
    st.write(5);
    let mut reader = EventualReader::new(&mut st);
    assert_eq!(reader.next(&mut st), Some(Ok(5)));
    st.close();
    assert_eq!(reader.next(&mut st), Some(Err(Closed)));
}

// a write before the subscription is observed exactly as a write after it
#[test]
fn subscribe_write_order_equivalent() {
    let mut before: SharedState<u32> = SharedState::new();
    before.write(5);
    let mut r_before = EventualReader::new(&mut before);

    let mut after: SharedState<u32> = SharedState::new();
    let mut r_after = EventualReader::new(&mut after);
    after.write(5);

    assert_eq!(r_before.next(&mut before), Some(Ok(5)));
    assert_eq!(r_after.next(&mut after), Some(Ok(5)));
    assert_eq!(r_before.next(&mut before), None);
    assert_eq!(r_after.next(&mut after), None);
}

// the registry's snapshot lists every subscription, in order
#[test]
fn registry_snapshot_lists_subscriptions() {
    let mut st: SharedState<u32> = SharedState::new();
    let r0 = EventualReader::new(&mut st);
    let r1 = EventualReader::new(&mut st);
    let r2 = EventualReader::new(&mut st);
    assert_eq!(st.subscribers.snapshot(), vec![r0.id, r1.id, r2.id]);
    st.unsubscribe(r1.id);
    assert_eq!(st.subscribers.snapshot(), vec![r0.id, r2.id]);
}

// the wake list names exactly the parked readers, in registry order
#[test]
fn writes_wake_parked_readers() {
    let mut st: SharedState<u32> = SharedState::new();
    let mut parked = EventualReader::new(&mut st);
    let fresh = EventualReader::new(&mut st);
    assert_eq!(parked.next(&mut st), None);

    let wakes = st.write(9);
    assert_eq!(wakes, vec![parked.id]);
    assert_ne!(parked.id, fresh.id);

    // the woken reader finds its value
    assert_eq!(parked.next(&mut st), Some(Ok(9)));
}
