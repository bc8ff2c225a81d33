use eventuals::error::Closed;
use eventuals::reader::EventualReader;
use eventuals::shared_state::SharedState;

#[test]
fn produces_side_effect() {
    let mut handle_chan: SharedState<u32> = SharedState::new();
    let mut source: SharedState<u32> = SharedState::new();
    let mut pipe_reader = EventualReader::new(&mut source);

    source.write(1);
    // the piping loop: every observed value produces the side effect
    while let Some(Ok(v)) = pipe_reader.next(&mut source) {
        handle_chan.write(v);
    }

    let mut handle = EventualReader::new(&mut handle_chan);
    assert_eq!(handle.next(&mut handle_chan), Some(Ok(1)));
}

#[test]
fn stops_after_drop_handle() {
    let mut source: SharedState<u32> = SharedState::new();
    let mut pipe_reader = EventualReader::new(&mut source);
    let mut seen: Vec<u32> = Vec::new();

    source.write(1);
    if let Some(Ok(v)) = pipe_reader.next(&mut source) {
        seen.push(v);
    }

    // dropping the pipe handle unsubscribes its reader; a later write is
    // not delivered anywhere and the side effect can never run again
    source.unsubscribe(pipe_reader.id);
    assert_eq!(source.subscriber_count(), 0);
    source.write(2);
    assert_eq!(seen, vec![1]);
}

#[test]
fn forever_cleans_up_when_writer_closed() {
    let mut source: SharedState<u32> = SharedState::new();
    let mut pipe_reader = EventualReader::new(&mut source);
    let mut ack_chan: SharedState<u32> = SharedState::new();
    let mut ack = EventualReader::new(&mut ack_chan);

    source.write(1);
    source.close();

    // the detached pipe still runs until the source is closed, and the last
    // value is passed through before it stops
    let mut ended = false;
    while !ended {
        match pipe_reader.next(&mut source) {
            Some(Ok(v)) => {
                ack_chan.write(v);
            }
            Some(Err(Closed)) => ended = true,
            None => unreachable!(),
        }
    }
    source.unsubscribe(pipe_reader.id);
    assert_eq!(source.subscriber_count(), 0);
    assert_eq!(ack.next(&mut ack_chan), Some(Ok(1)));
}
