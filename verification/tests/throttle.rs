use eventuals::combinators::{throttle_expire, throttle_receive, ThrottleState};

#[test]
fn throttle_delivers_last_value_of_window() {
    // the first value opens a window
    let (st, opened) = throttle_receive(ThrottleState::Idle, 1u32);
    assert!(opened);

    // values inside the window replace the held one without a new timer
    let (st, opened) = throttle_receive(st, 2u32);
    assert!(!opened);
    let (st, opened) = throttle_receive(st, 3u32);
    assert!(!opened);

    // when the window expires, only the last value is written
    let (st, out) = throttle_expire(st);
    assert_eq!(out, Some(3));

    // with no window open, expiry writes nothing
    let (_st, out) = throttle_expire(st);
    assert_eq!(out, None);
}

#[test]
fn throttle_window_reopens_after_expiry() {
    let (st, opened) = throttle_receive(ThrottleState::Idle, 7u32);
    assert!(opened);
    let (st, out) = throttle_expire(st);
    assert_eq!(out, Some(7));

    let (st, opened) = throttle_receive(st, 8u32);
    assert!(opened);
    let (_st, out) = throttle_expire(st);
    assert_eq!(out, Some(8));
}
