use abacus::clock::{
    expiration_alive, futex_word, ms_to_nanos, nanos_from_timespec, remaining_until, split_nanos,
};
use abacus::daemon::{clock_after_cycle, clock_start_words, cycle_boundary, millis_from_nanos, poll_timeout_ms, tier_from_wire};
use abacus::interlock::{
    arm_deadline, arm_step, creation_deadline, is_reapable, raise_step, terminated, ArmStep,
    InterlockWords, SENTINEL,
};
use abacus::registry::Tier;

#[test]
fn timespec_conversion() {
    assert_eq!(nanos_from_timespec(2, 5), Some(2_000_000_005));
    assert_eq!(nanos_from_timespec(-1, 5), None);
    assert_eq!(nanos_from_timespec(1, -5), None);
    assert_eq!(nanos_from_timespec(i64::MAX, 0), None);
    assert_eq!(nanos_from_timespec(18_446_744_073, 709_551_615), Some(u64::MAX));
    assert_eq!(nanos_from_timespec(18_446_744_073, 709_551_616), None);
}

#[test]
fn time_arithmetic() {
    assert!(expiration_alive(11, 10));
    assert!(!expiration_alive(10, 10));
    assert_eq!(ms_to_nanos(3), 3_000_000);
    assert_eq!(ms_to_nanos(u64::MAX), u64::MAX);
    assert_eq!(futex_word(0x1_0000_0007), 7);
    assert_eq!(split_nanos(2_500_000_001), (2, 500_000_001));
    assert_eq!(remaining_until(10, 4), Some(6));
    assert_eq!(remaining_until(10, 10), None);
    assert_eq!(millis_from_nanos(5_999_999), 5);
}

#[test]
fn loop_timeout_rounds_up() {
    assert_eq!(cycle_boundary(1_000, 3), 3_001_000);
    assert_eq!(poll_timeout_ms(2_000_001, 1_000_000), 2);
    assert_eq!(poll_timeout_ms(2_000_000, 1_000_000), 1);
    assert_eq!(poll_timeout_ms(5, 5), 0);
    assert_eq!(poll_timeout_ms(5, 9), 0);
}

#[test]
fn tiers_from_wire() {
    assert_eq!(tier_from_wire(0), Some(Tier::Interlock));
    assert_eq!(tier_from_wire(4), Some(Tier::WaitBarrier));
    assert_eq!(tier_from_wire(5), None);
}

#[test]
fn arming_moves_forward_only() {
    assert_eq!(arm_step(0, 100), ArmStep::Reaped);
    assert_eq!(arm_step(SENTINEL, 100), ArmStep::Reaped);
    assert_eq!(arm_step(200, 100), ArmStep::Unchanged);
    assert_eq!(arm_step(200, 200), ArmStep::Unchanged);
    assert_eq!(arm_step(200, 300), ArmStep::Store(300));
    assert_eq!(arm_deadline(u64::MAX - 1, 5), u64::MAX);
    assert_eq!(creation_deadline(5), 100_000_005);
}

#[test]
fn reaping_and_raising() {
    assert!(is_reapable(0, 5));
    assert!(is_reapable(SENTINEL, 5));
    assert!(is_reapable(4, 5));
    assert!(!is_reapable(5, 5));
    assert_eq!(raise_step(5, 5), None);
    assert_eq!(raise_step(5, 3), None);
    assert_eq!(raise_step(5, 9), Some(9));
    let w = InterlockWords { open_count: 1, closed_count: 2, expiration_ns: 3 };
    assert_eq!(
        terminated(w),
        InterlockWords { open_count: 1, closed_count: 2, expiration_ns: SENTINEL }
    );
}

#[test]
fn clock_starts_at_the_daemon_start() {
    let w = clock_start_words(5_123_456_789);
    assert_eq!(
        w,
        InterlockWords { open_count: 5_123, closed_count: 5_123, expiration_ns: 6_123_456_789 }
    );
    assert_eq!(clock_start_words(u64::MAX).expiration_ns, u64::MAX);
}

#[test]
fn clock_cycle_advances_and_rearms() {
    let start = clock_start_words(5_000_000_000);
    let w = clock_after_cycle(start, 5_700_000_000);
    assert_eq!(
        w,
        InterlockWords { open_count: 5_700, closed_count: 5_000, expiration_ns: 6_700_000_000 }
    );
    // A later expiration is never moved back.
    let ahead = InterlockWords { expiration_ns: 9_000_000_000, ..w };
    assert_eq!(clock_after_cycle(ahead, 5_800_000_000).expiration_ns, 9_000_000_000);
    assert_eq!(clock_after_cycle(ahead, 5_800_000_000).open_count, 5_800);
}
