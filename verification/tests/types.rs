use abacus::types::{
    check_wake_state, counter_value, interlock_state, InterlockState, WaitResult, WaitState,
    WatchedWord, RTS_OVERRUN, RTS_TIMEOUT,
};

#[test]
fn wake_state_classification() {
    assert_eq!(check_wake_state(5, 5), WaitState::Normal);
    assert_eq!(check_wake_state(5, 6), WaitState::Overrun);
    assert_eq!(check_wake_state(5, 4), WaitState::Timeout);
    assert_eq!(RTS_TIMEOUT, WaitState::Timeout);
    assert_eq!(RTS_OVERRUN, WaitState::Overrun);
}

#[test]
fn state_derivation() {
    assert_eq!(interlock_state(0, 0, 100, 50), InterlockState::Closed);
    assert_eq!(interlock_state(3, 1, 100, 50), InterlockState::Open);
    assert_eq!(interlock_state(1, 3, 100, 50), InterlockState::Overrun);
    assert_eq!(interlock_state(3, 1, 100, 100), InterlockState::Expired);
    assert_eq!(interlock_state(3, 1, 0, 0), InterlockState::Expired);
    // Expired takes priority over overrun.
    assert_eq!(interlock_state(1, 3, 10, 20), InterlockState::Expired);
    // A freed interlock carries the terminal sentinel: it is Expired.
    assert_eq!(interlock_state(3, 1, u64::MAX, 50), InterlockState::Expired);
}

#[test]
fn value_wraps_as_signed() {
    assert_eq!(counter_value(3, 1), 2);
    assert_eq!(counter_value(1, 3), -2);
    assert_eq!(counter_value(u64::MAX, 0), -1);
    assert_eq!(counter_value(0, u64::MAX), 1);
}

#[test]
fn watched_word_discriminants() {
    assert_eq!(WatchedWord::OpenCount.to_u8(), 0);
    assert_eq!(WatchedWord::ClosedCount.to_u8(), 1);
}

#[test]
fn wait_result_is_plain_data() {
    let r = WaitResult { completed_at: 7, state: WaitState::Normal };
    assert_eq!(r, WaitResult { completed_at: 7, state: WaitState::Normal });
}
