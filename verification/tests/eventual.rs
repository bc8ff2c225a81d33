use eventuals::error::Closed;
use eventuals::reader::EventualReader;
use eventuals::shared_state::SharedState;
use eventuals::combinators::map_step;

#[test]
fn dropped_writer_closes() {
    let mut st: SharedState<u32> = SharedState::new();
    let mut read_0 = EventualReader::new(&mut st);
    st.close();
    assert_eq!(read_0.next(&mut st), Some(Err(Closed)));
}

#[test]
fn can_observe_value_written_after_subscribe() {
    let mut st: SharedState<u32> = SharedState::new();
    let mut read_0 = EventualReader::new(&mut st);
    st.write(5);
    assert_eq!(read_0.next(&mut st), Some(Ok(5)));
}

#[test]
fn can_observe_value_updated_after_subscribe() {
    let mut st: SharedState<i32> = SharedState::new();
    let mut read_0 = EventualReader::new(&mut st);
    let inc = |prev: Option<&i32>| -> i32 { prev.map(|v| v + 1).unwrap_or_default() };
    st.update(inc);
    assert_eq!(read_0.next(&mut st), Some(Ok(0)));
    st.update(inc);
    assert_eq!(read_0.next(&mut st), Some(Ok(1)));
}

#[test]
fn can_observe_value_written_before_subscribe() {
    let mut st: SharedState<u32> = SharedState::from_value(5);
    let mut read_0 = EventualReader::new(&mut st);
    assert_eq!(read_0.next(&mut st), Some(Ok(5)));
    assert_eq!(read_0.next(&mut st), Some(Err(Closed)));
}

#[test]
fn only_most_recent_value_is_observed() {
    let mut st: SharedState<u32> = SharedState::new();
    let mut read_0 = EventualReader::new(&mut st);
    st.write(5);
    st.write(10);
    assert_eq!(read_0.next(&mut st), Some(Ok(10)));
    // nothing further: the next call parks
    assert_eq!(read_0.next(&mut st), None);
}

#[test]
fn drop_doesnt_interfere() {
    let mut st: SharedState<u32> = SharedState::new();
    assert_eq!(st.subscriber_count(), 0);
    let mut read_0 = EventualReader::new(&mut st);
    assert_eq!(st.subscriber_count(), 1);
    let mut read_1 = EventualReader::new(&mut st);
    assert_eq!(st.subscriber_count(), 2);
    st.write(5);
    st.write(10);
    assert_eq!(read_0.next(&mut st), Some(Ok(10)));
    st.unsubscribe(read_0.id);
    assert_eq!(st.subscriber_count(), 1);
    st.write(1);
    // after dropping one subscriber the other still observes new writes
    assert_eq!(read_1.next(&mut st), Some(Ok(1)));
    st.unsubscribe(read_1.id);
    assert_eq!(st.subscriber_count(), 0);
}

#[test]
fn can_message_pass() {
    let mut chan_a: SharedState<u32> = SharedState::new();
    let mut chan_b: SharedState<u32> = SharedState::new();
    let mut read_a = EventualReader::new(&mut chan_a);
    let mut read_b = EventualReader::new(&mut chan_b);

    // one side echoes each value incremented, summing what it saw
    let mut sum = 0;
    chan_a.write(0);
    while let Some(Ok(v)) = read_a.next(&mut chan_a) {
        sum += v;
        chan_b.write(v + 1);
        // the other side answers until it has seen 5
        match read_b.next(&mut chan_b) {
            Some(Ok(5)) => {
                chan_a.close();
            }
            Some(Ok(n)) => {
                chan_a.write(n + 1);
            }
            _ => unreachable!(),
        }
    }
    assert_eq!(read_a.next(&mut chan_a), Some(Err(Closed)));
    assert_eq!(sum, 6);
}

// Values flow through a whole chain of maps, and dropping the terminal
// reader releases every subscription back to the source.
#[test]
fn chained_eventuals_drop() {
    let mut stages: Vec<SharedState<u32>> = Vec::new();
    for _ in 0..26 {
        stages.push(SharedState::new());
    }
    // reader i subscribes to stage i and feeds stage i + 1
    let mut readers: Vec<EventualReader<u32>> = Vec::new();
    for i in 0..25 {
        readers.push(EventualReader::new(&mut stages[i]));
    }
    assert_eq!(stages[0].subscriber_count(), 1);
    assert_eq!(stages[25].subscriber_count(), 0);

    stages[0].write(5);
    // drive every stage of the pipeline once
    for i in 0..25 {
        let (up, down) = stages.split_at_mut(i + 1);
        let progressed = map_step(&mut up[i], &mut readers[i], &mut down[0], |v| v + 1);
        assert!(progressed);
    }
    assert_eq!(stages[25].value(), Some(Ok(30)));

    assert_eq!(stages[0].subscriber_count(), 1);
    // dropping the terminal reader tears the chain down stage by stage
    for i in (0..25).rev() {
        stages[i].unsubscribe(readers[i].id);
    }
    assert_eq!(stages[0].subscriber_count(), 0);
}

#[test]
fn clone_reader() {
    let mut st: SharedState<u32> = SharedState::new();
    st.write(99);
    let mut read_0 = EventualReader::new(&mut st);
    let mut read_1 = read_0.clone_reader(&mut st);
    assert_eq!(read_1.next(&mut st), Some(Ok(99)));

    // a clone of a reader that has observed 99 pends: the snapshot is
    // suppressed as a duplicate
    let mut read_2 = read_1.clone_reader(&mut st);
    assert_eq!(read_2.next(&mut st), None);

    st.close();
    let mut read_3 = read_0.clone_reader(&mut st);
    assert_eq!(read_3.next(&mut st), Some(Ok(99)));
    assert_eq!(read_0.next(&mut st), Some(Ok(99)));
    let mut read_4 = read_0.clone_reader(&mut st);
    assert_eq!(read_4.next(&mut st), Some(Err(Closed)));
}

#[test]
fn init_with_has_value() {
    // a channel primed with an initial value, then following the source
    let mut source: SharedState<u32> = SharedState::new();
    let mut src_reader = EventualReader::new(&mut source);
    let mut out: SharedState<u32> = SharedState::new();
    out.write(5);
    let mut values = EventualReader::new(&mut out);
    assert_eq!(values.next(&mut out), Some(Ok(5)));
    source.write(10);
    assert!(map_step(&mut source, &mut src_reader, &mut out, |v| v));
    assert_eq!(values.next(&mut out), Some(Ok(10)));
}
