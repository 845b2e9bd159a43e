use abacus::interlock::SENTINEL;
use abacus::types::{WaitResult, WaitState};
use abacus::waits::{
    barrier_step, counter_after_wake, cron_step, delivered, doubled_ttl, expiration_lapsed,
    race_winner, timer_step, timer_target, wait_for_timestamp, word_wait_step, CounterWake,
    FireStep, TimerStep, WordWait,
};

#[test]
fn word_wait_checks_sentinel_first() {
    assert_eq!(word_wait_step(SENTINEL, 5), WordWait::Reaped);
    assert_eq!(word_wait_step(7, 5), WordWait::Reached(7));
    assert_eq!(word_wait_step(5, 5), WordWait::Reached(5));
    assert_eq!(word_wait_step(4, 5), WordWait::Wait);
}

#[test]
fn expiration_lapses_on_sentinel_or_past() {
    assert!(expiration_lapsed(SENTINEL, 0));
    assert!(expiration_lapsed(9, 10));
    assert!(!expiration_lapsed(10, 10));
}

#[test]
fn doubled_ttl_saturates() {
    assert_eq!(doubled_ttl(100), 200);
    assert_eq!(doubled_ttl(u64::MAX / 2 + 1), u64::MAX);
}

#[test]
fn delivery_outcomes() {
    assert_eq!(delivered(5, 5), Some(WaitResult { completed_at: 5, state: WaitState::Normal }));
    assert_eq!(delivered(5, 8), Some(WaitResult { completed_at: 8, state: WaitState::Overrun }));
    assert_eq!(delivered(5, 4), None);
}

#[test]
fn counter_wake_order() {
    assert_eq!(
        counter_after_wake(5, 5, SENTINEL, true),
        CounterWake::Done(WaitResult { completed_at: 5, state: WaitState::Normal })
    );
    assert_eq!(counter_after_wake(5, 1, SENTINEL, true), CounterWake::Reaped);
    assert_eq!(
        counter_after_wake(5, 1, 100, true),
        CounterWake::Done(WaitResult { completed_at: 1, state: WaitState::Timeout })
    );
    assert_eq!(counter_after_wake(5, 1, 100, false), CounterWake::Again);
}

#[test]
fn timer_steps() {
    assert_eq!(
        timer_step(10, 12, 500, 0, 100),
        TimerStep::Done(WaitResult { completed_at: 12, state: WaitState::Overrun })
    );
    assert_eq!(timer_step(10, 0, SENTINEL, 200, 100), TimerStep::Reaped);
    assert_eq!(timer_step(10, 0, 150, 200, 100), TimerStep::Reaped);
    assert_eq!(timer_step(10, 0, 500, 200, 100), TimerStep::Abort);
    assert_eq!(timer_step(10, 0, 500, 40, 100), TimerStep::Wait(60));
    assert_eq!(timer_target(1000, 50), 1050);
    assert_eq!(wait_for_timestamp(1050, 1000), 50);
    assert_eq!(wait_for_timestamp(900, 1000), 0);
}

#[test]
fn cron_steps() {
    assert_eq!(cron_step(0, 0, SENTINEL, 100, 0), FireStep::Reaped);
    // Fired and re-armed: open ahead of closed is the normal state.
    assert_eq!(
        cron_step(100, 165, 140, 500, 0),
        FireStep::Done(WaitResult { completed_at: 140, state: WaitState::Normal })
    );
    assert_eq!(
        cron_step(100, 132, 140, 500, 0),
        FireStep::Done(WaitResult { completed_at: 140, state: WaitState::Overrun })
    );
    assert_eq!(cron_step(100, 132, 100, 500, 600), FireStep::Reaped);
    assert_eq!(cron_step(100, 132, 100, 500, 0), FireStep::Wait);
}

#[test]
fn barrier_steps() {
    assert_eq!(barrier_step(1, 0, 100), FireStep::Wait);
    assert_eq!(
        barrier_step(1, 77, 100),
        FireStep::Done(WaitResult { completed_at: 77, state: WaitState::Overrun })
    );
    assert_eq!(
        barrier_step(1, 1, 100),
        FireStep::Done(WaitResult { completed_at: 1, state: WaitState::Normal })
    );
    assert_eq!(barrier_step(1, 0, SENTINEL), FireStep::Reaped);
}

#[test]
fn race_picks_first_advanced() {
    let initial = vec![3, 4, 5];
    assert_eq!(race_winner(&initial, &vec![(9, 3), (9, 4), (9, 5)]), None);
    assert_eq!(
        race_winner(&initial, &vec![(9, 3), (9, 9), (9, 6)]),
        Some((1, WaitResult { completed_at: 9, state: WaitState::Normal }))
    );
}
