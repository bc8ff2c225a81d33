use eventuals::combinators::map_step;
use eventuals::reader::EventualReader;
use eventuals::shared_state::SharedState;

#[test]
fn never_idle_in_map() {
    let mut source: SharedState<u8> = SharedState::new();
    let mut map_reader = EventualReader::new(&mut source);

    // a fresh subscription has not parked yet
    assert!(!source.idle());
    assert_eq!(map_reader.next(&mut source), None);
    assert!(source.idle());

    // an undelivered write keeps the channel busy
    source.write(1);
    assert!(!source.idle());

    // the value was taken but the mapping work has not parked again:
    // the pipeline is still not idle
    assert_eq!(map_reader.next(&mut source), Some(Ok(1)));
    assert!(!source.idle());

    assert_eq!(map_reader.next(&mut source), None);
    assert!(source.idle());

    // dropping the map's subscription also leaves the pipeline idle
    source.unsubscribe(map_reader.id);
    assert!(source.idle());
}

#[test]
fn idle_after_map() {
    let mut source: SharedState<u8> = SharedState::from_value(5);
    let mut map_reader = EventualReader::new(&mut source);
    let mut mapped: SharedState<u8> = SharedState::new();

    // the fresh subscription was primed with the final snapshot: busy
    assert!(!source.idle());
    assert!(map_step(&mut source, &mut map_reader, &mut mapped, |v| v));
    assert_eq!(mapped.value_immediate(), Some(5));

    // the next step observes the close and ends the mapping task, whose
    // dropped reader unsubscribes; only then is the source idle
    assert!(map_step(&mut source, &mut map_reader, &mut mapped, |v| v));
    source.unsubscribe(map_reader.id);
    assert!(source.idle());
    assert_eq!(mapped.value_immediate(), Some(5));
}
