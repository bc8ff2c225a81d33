use eventuals::combinators::JoinState;
use eventuals::reader::EventualReader;
use eventuals::shared_state::SharedState;

#[test]
fn joins_values() {
    let mut a: SharedState<&'static str> = SharedState::new();
    let mut b: SharedState<i32> = SharedState::new();

    a.write("a");
    b.write(1);

    let mut a_reader = EventualReader::new(&mut a);
    let mut b_reader = EventualReader::new(&mut b);
    let mut joined: SharedState<(&'static str, i32)> = SharedState::new();
    let mut ab = EventualReader::new(&mut joined);
    let mut barrier: JoinState<&'static str, i32> = JoinState::new();

    // nothing is emitted until every input has produced a value
    match a_reader.next(&mut a) {
        Some(Ok(v)) => assert_eq!(barrier.update_first(v), None),
        _ => unreachable!(),
    }
    match b_reader.next(&mut b) {
        Some(Ok(v)) => match barrier.update_second(v) {
            Some(pair) => {
                joined.write(pair);
            }
            None => unreachable!(),
        },
        _ => unreachable!(),
    }
    assert_eq!(ab.next(&mut joined), Some(Ok(("a", 1))));

    // post-barrier, every update emits a fresh pair
    a.write("A");
    match a_reader.next(&mut a) {
        Some(Ok(v)) => match barrier.update_first(v) {
            Some(pair) => {
                joined.write(pair);
            }
            None => unreachable!(),
        },
        _ => unreachable!(),
    }
    assert_eq!(ab.next(&mut joined), Some(Ok(("A", 1))));

    b.write(2);
    match b_reader.next(&mut b) {
        Some(Ok(v)) => match barrier.update_second(v) {
            Some(pair) => {
                joined.write(pair);
            }
            None => unreachable!(),
        },
        _ => unreachable!(),
    }
    assert_eq!(ab.next(&mut joined), Some(Ok(("A", 2))));
}
