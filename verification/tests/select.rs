use eventuals::combinators::select_step;
use eventuals::error::Closed;
use eventuals::reader::EventualReader;
use eventuals::shared_state::SharedState;

#[test]
fn it_works() {
    let mut a: SharedState<&'static str> = SharedState::new();
    let mut b: SharedState<&'static str> = SharedState::new();
    let a_reader = EventualReader::new(&mut a);
    let b_reader = EventualReader::new(&mut b);

    let mut ups = vec![a, b];
    let mut readers = vec![a_reader, b_reader];
    let mut either: SharedState<&'static str> = SharedState::new();
    let mut values = EventualReader::new(&mut either);

    ups[0].write("a");
    assert!(select_step(&mut ups, &mut readers, 0, &mut either));
    assert_eq!(values.next(&mut either), Some(Ok("a")));

    ups[1].write("b");
    assert!(select_step(&mut ups, &mut readers, 1, &mut either));
    assert_eq!(values.next(&mut either), Some(Ok("b")));

    // an input with no news parks
    assert!(!select_step(&mut ups, &mut readers, 0, &mut either));

    // closed inputs are dropped one by one; the last one closes the output
    ups[1].close();
    assert!(select_step(&mut ups, &mut readers, 1, &mut either));
    assert_eq!(ups.len(), 1);
    ups[0].close();
    assert!(select_step(&mut ups, &mut readers, 0, &mut either));
    assert_eq!(ups.len(), 0);
    assert_eq!(values.next(&mut either), Some(Err(Closed)));
}
