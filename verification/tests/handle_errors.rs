use eventuals::combinators::handle_errors_step;
use eventuals::combinators::map_step;
use eventuals::combinators::ErrorOutcome;
use eventuals::reader::EventualReader;
use eventuals::shared_state::SharedState;

#[test]
fn handle_errors_basic() {
    let mut numbers: SharedState<u32> = SharedState::new();
    let mut num_reader = EventualReader::new(&mut numbers);

    let mut validated: SharedState<Result<u32, u32>> = SharedState::new();
    let mut val_reader = EventualReader::new(&mut validated);

    let mut even_numbers: SharedState<u32> = SharedState::new();

    let mut errors: Vec<u32> = Vec::new();

    let validate = |n: u32| -> Result<u32, u32> {
        if n % 2 == 0 {
            Ok(n)
        } else {
            Err(n)
        }
    };

    for n in [0, 1, 2, 3, 4, 5, 6, 7, 8, 9, 10] {
        numbers.write(n);
        assert!(map_step(&mut numbers, &mut num_reader, &mut validated, validate));
        match handle_errors_step(&mut validated, &mut val_reader, &mut even_numbers) {
            ErrorOutcome::Delivered => {}
            ErrorOutcome::Failed(err) => errors.push(err),
            _ => unreachable!(),
        }
        assert_eq!(even_numbers.value(), Some(Ok((n / 2) * 2)));
    }

    assert_eq!(errors, vec![1, 3, 5, 7, 9]);
}

#[test]
fn errors_do_not_disturb_the_last_good_value() {
    let mut source: SharedState<Result<u32, u32>> = SharedState::new();
    let mut reader = EventualReader::new(&mut source);
    let mut good: SharedState<u32> = SharedState::new();

    source.write(Ok(1));
    assert!(matches!(
        handle_errors_step(&mut source, &mut reader, &mut good),
        ErrorOutcome::<u32>::Delivered
    ));
    assert_eq!(good.value(), Some(Ok(1)));

    source.write(Err(7));
    assert!(matches!(
        handle_errors_step(&mut source, &mut reader, &mut good),
        ErrorOutcome::<u32>::Failed(7)
    ));
    // the error is not a value: the last good value stands
    assert_eq!(good.value(), Some(Ok(1)));

    source.close();
    assert!(matches!(
        handle_errors_step(&mut source, &mut reader, &mut good),
        ErrorOutcome::<u32>::Ended
    ));
    let mut good_reader = EventualReader::new(&mut good);
    assert_eq!(good_reader.next(&mut good), Some(Ok(1)));
    assert_eq!(
        good_reader.next(&mut good),
        Some(Err(eventuals::error::Closed))
    );
}
