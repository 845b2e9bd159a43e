//! The decisions of the SDK's wait loops. Each loop reads the interlock's
//! words, asks one of these functions what to do, and blocks on a futex when
//! told to wait.

use vstd::prelude::*;

use crate::interlock::SENTINEL;
use crate::types::{
    check_wake_state, counter_value, spec_counter_value, spec_wake_state, WaitResult, WaitState,
};

verus! {

/// One step of waiting for a counter word to reach a target.
#[derive(Debug, Clone, Copy, PartialEq, Eq, Structural)]
pub enum WordWait {
    /// The word reads as the terminal sentinel: InterlockReaped.
    Reaped,
    /// The word has reached the target; this is its value.
    Reached(u64),
    /// Block on the word and look again.
    Wait,
}

pub open spec fn spec_word_wait(current: u64, target: u64) -> WordWait {
    if current == SENTINEL {
        WordWait::Reaped
    } else if current >= target {
        WordWait::Reached(current)
    } else {
        WordWait::Wait
    }
}

/// Decide a `wait_open`/`wait_close` step. The sentinel is checked before
/// the target: it would satisfy any `>= target` comparison otherwise.
pub fn word_wait_step(current: u64, target: u64) -> (r: WordWait)
    ensures
        r == spec_word_wait(current, target),
{
    if current == SENTINEL {
        WordWait::Reaped
    } else if current >= target {
        WordWait::Reached(current)
    } else {
        WordWait::Wait
    }
}

/// After a futex wake: the interlock is gone when its expiration reads as
/// the sentinel or has already passed.
pub fn expiration_lapsed(expiration_ns: u64, now_ns: u64) -> (r: bool)
    ensures
        r == (expiration_ns == SENTINEL || expiration_ns < now_ns),
{
    expiration_ns == SENTINEL || expiration_ns < now_ns
}

/// Twice a wait's timeout, the TTL margin a wait sets, saturating.
pub fn doubled_ttl(nanos: u64) -> (r: u64)
    ensures
        r == if 2 * nanos > u64::MAX {
            u64::MAX
        } else {
            (2 * nanos) as u64
        },
{
    match nanos.checked_mul(2) {
        Some(t) => t,
        None => u64::MAX,
    }
}

/// The result a wait returns once the daemon has delivered, if it has: the
/// daemon's answer and how it relates to the target.
pub fn delivered(open: u64, closed: u64) -> (r: Option<WaitResult>)
    ensures
        closed >= open ==> r == Some(
            WaitResult { completed_at: closed, state: spec_wake_state(open, closed) },
        ),
        closed < open ==> r is None,
{
    let state = check_wake_state(open, closed);
    match state {
        WaitState::Normal | WaitState::Overrun => Some(WaitResult { completed_at: closed, state }),
        WaitState::Timeout => None,
    }
}

/// What a WaitCounter does after a futex wake or timeout.
#[derive(Debug, Clone, Copy, PartialEq, Eq, Structural)]
pub enum CounterWake {
    Done(WaitResult),
    Reaped,
    Again,
}

pub open spec fn spec_counter_wake(open: u64, closed: u64, expiration_ns: u64, timed_out: bool) -> CounterWake {
    if closed >= open {
        CounterWake::Done(WaitResult { completed_at: closed, state: spec_wake_state(open, closed) })
    } else if expiration_ns == SENTINEL {
        CounterWake::Reaped
    } else if timed_out {
        CounterWake::Done(WaitResult { completed_at: closed, state: WaitState::Timeout })
    } else {
        CounterWake::Again
    }
}

/// Decide what `WaitCounter::wait_until` does after a futex return, given
/// the counters and expiration it then reads and whether the futex reported
/// a timeout: a delivery wins, then a reaped interlock, then the timeout;
/// a spurious or interrupted wake waits again.
pub fn counter_after_wake(open: u64, closed: u64, expiration_ns: u64, timed_out: bool) -> (r:
    CounterWake)
    ensures
        r == spec_counter_wake(open, closed, expiration_ns, timed_out),
{
    match delivered(open, closed) {
        Some(res) => CounterWake::Done(res),
        None => {
            if expiration_ns == SENTINEL {
                CounterWake::Reaped
            } else if timed_out {
                CounterWake::Done(WaitResult { completed_at: closed, state: WaitState::Timeout })
            } else {
                CounterWake::Again
            }
        },
    }
}

/// One step of a WaitTimer's wait.
#[derive(Debug, Clone, Copy, PartialEq, Eq, Structural)]
pub enum TimerStep {
    Done(WaitResult),
    Reaped,
    /// RTSTimeout: the budget is spent and the interlock is live. Fatal.
    Abort,
    /// Block on closed_count for at most this many nanoseconds.
    Wait(u64),
}

pub open spec fn spec_timer_step(
    open: u64,
    closed: u64,
    expiration_ns: u64,
    now_ns: u64,
    deadline_ns: u64,
) -> TimerStep {
    if closed >= open {
        TimerStep::Done(WaitResult { completed_at: closed, state: spec_wake_state(open, closed) })
    } else if expiration_ns == SENTINEL {
        TimerStep::Reaped
    } else if now_ns >= deadline_ns {
        if expiration_ns < now_ns {
            TimerStep::Reaped
        } else {
            TimerStep::Abort
        }
    } else {
        TimerStep::Wait((deadline_ns - now_ns) as u64)
    }
}

/// Decide one iteration of `WaitTimer::wait_ms`. The sentinel check runs
/// first, so a reaped or freed timer reports InterlockReaped rather than
/// aborting; the abort fires only for a live interlock past its deadline.
pub fn timer_step(open: u64, closed: u64, expiration_ns: u64, now_ns: u64, deadline_ns: u64) -> (r:
    TimerStep)
    ensures
        r == spec_timer_step(open, closed, expiration_ns, now_ns, deadline_ns),
{
    match delivered(open, closed) {
        Some(res) => TimerStep::Done(res),
        None => {
            if expiration_ns == SENTINEL {
                return TimerStep::Reaped;
            }
            if now_ns >= deadline_ns {
                if expiration_ns < now_ns {
                    return TimerStep::Reaped;
                }
                return TimerStep::Abort;
            }
            TimerStep::Wait(deadline_ns - now_ns)
        },
    }
}

/// The target a WaitTimer sets: the clock plus the wait.
pub fn timer_target(clock_now_ms: u64, ms: u64) -> (r: u64)
    requires
        clock_now_ms + ms <= u64::MAX,
    ensures
        r == clock_now_ms + ms,
{
    clock_now_ms + ms
}

/// The wait `WaitTimer::wait_until` turns an absolute timestamp into: zero
/// once the timestamp has passed.
pub fn wait_for_timestamp(timestamp_ms: u64, clock_now_ms: u64) -> (r: u64)
    ensures
        timestamp_ms >= clock_now_ms ==> r == timestamp_ms - clock_now_ms,
        timestamp_ms < clock_now_ms ==> r == 0,
{
    if timestamp_ms >= clock_now_ms {
        timestamp_ms - clock_now_ms
    } else {
        0
    }
}

/// One step of a WaitCron's or a WaitBarrier's wait.
#[derive(Debug, Clone, Copy, PartialEq, Eq, Structural)]
pub enum FireStep {
    Done(WaitResult),
    Reaped,
    Wait,
}

pub open spec fn spec_cron_step(
    initial_closed: u64,
    open: u64,
    closed: u64,
    expiration_ns: u64,
    now_ns: u64,
) -> FireStep {
    if closed == SENTINEL {
        FireStep::Reaped
    } else if closed > initial_closed {
        FireStep::Done(
            WaitResult {
                completed_at: closed,
                state: if closed > open {
                    WaitState::Overrun
                } else {
                    WaitState::Normal
                },
            },
        )
    } else if expiration_ns == SENTINEL || expiration_ns < now_ns {
        FireStep::Reaped
    } else {
        FireStep::Wait
    }
}

/// Decide one iteration of `WaitCron::wait`: the cron fired once
/// closed_count has advanced past its value at entry. After a firing the
/// daemon has usually re-armed open_count to the next grid line, so open
/// ahead of closed is the normal state; only closed past open is late.
pub fn cron_step(initial_closed: u64, open: u64, closed: u64, expiration_ns: u64, now_ns: u64) -> (r:
    FireStep)
    ensures
        r == spec_cron_step(initial_closed, open, closed, expiration_ns, now_ns),
{
    if closed == SENTINEL {
        return FireStep::Reaped;
    }
    if closed > initial_closed {
        let state = if closed >= open {
            if closed == open {
                WaitState::Normal
            } else {
                WaitState::Overrun
            }
        } else {
            WaitState::Normal
        };
        return FireStep::Done(WaitResult { completed_at: closed, state });
    }
    if expiration_lapsed(expiration_ns, now_ns) {
        return FireStep::Reaped;
    }
    FireStep::Wait
}

pub open spec fn spec_barrier_step(open: u64, closed: u64, expiration_ns: u64) -> FireStep {
    if spec_counter_value(open, closed) <= 0 && closed > 0 {
        FireStep::Done(
            WaitResult {
                completed_at: closed,
                state: if closed == open {
                    WaitState::Normal
                } else {
                    WaitState::Overrun
                },
            },
        )
    } else if expiration_ns == SENTINEL || closed == SENTINEL || open == SENTINEL {
        FireStep::Reaped
    } else {
        FireStep::Wait
    }
}

/// Decide one iteration of `WaitBarrier::wait`, before blocking: the barrier
/// fired once the daemon stamped a closed_count that caught up with
/// open_count.
pub fn barrier_step(open: u64, closed: u64, expiration_ns: u64) -> (r: FireStep)
    ensures
        r == spec_barrier_step(open, closed, expiration_ns),
{
    let value = counter_value(open, closed);
    if value <= 0 && closed > 0 {
        let state = if closed == open {
            WaitState::Normal
        } else {
            WaitState::Overrun
        };
        return FireStep::Done(WaitResult { completed_at: closed, state });
    }
    if expiration_ns == SENTINEL || closed == SENTINEL || open == SENTINEL {
        return FireStep::Reaped;
    }
    FireStep::Wait
}

/// The first counter of a race whose closed_count advanced past its
/// snapshot, with its result; `None` while none has.
pub fn race_winner(initial: &Vec<u64>, peeks: &Vec<(u64, u64)>) -> (r: Option<(usize, WaitResult)>)
    requires
        initial@.len() == peeks@.len(),
    ensures
        r matches Some((i, res)) ==> {
            &&& i < peeks@.len()
            &&& peeks@[i as int].1 > initial@[i as int]
            &&& forall|k: int| 0 <= k < i ==> #[trigger] peeks@[k].1 <= initial@[k]
            &&& res == WaitResult {
                completed_at: peeks@[i as int].1,
                state: spec_wake_state(peeks@[i as int].0, peeks@[i as int].1),
            }
        },
        r is None ==> forall|k: int| 0 <= k < peeks@.len() ==> #[trigger] peeks@[k].1 <= initial@[k],
{
    let mut i: usize = 0;
    while i < peeks.len()
        invariant
            i <= peeks@.len(),
            initial@.len() == peeks@.len(),
            forall|k: int| 0 <= k < i ==> #[trigger] peeks@[k].1 <= initial@[k],
        decreases peeks@.len() - i,
    {
        let (open, closed) = peeks[i];
        if closed > initial[i] {
            let state = check_wake_state(open, closed);
            return Some((i, WaitResult { completed_at: closed, state }));
        }
        i = i + 1;
    }
    None
}

// -- Laws --

/// The terminal sentinel always surfaces as InterlockReaped, whatever the
/// target: no wait returns it as a value.
pub proof fn sentinel_never_reached(target: u64)
    ensures
        spec_word_wait(SENTINEL, target) == WordWait::Reaped,
{
}

/// A reaped or freed WaitTimer reports InterlockReaped and never aborts: the
/// fatal timeout needs a live expiration.
pub proof fn timer_aborts_only_when_live(
    open: u64,
    closed: u64,
    expiration_ns: u64,
    now_ns: u64,
    deadline_ns: u64,
)
    ensures
        spec_timer_step(open, closed, expiration_ns, now_ns, deadline_ns) == TimerStep::Abort
            ==> expiration_ns != SENTINEL && expiration_ns >= now_ns && now_ns >= deadline_ns
            && closed < open,
        expiration_ns == SENTINEL && closed < open ==> spec_timer_step(
            open,
            closed,
            expiration_ns,
            now_ns,
            deadline_ns,
        ) == TimerStep::Reaped,
{
}

/// A wait that returns a delivery reports the daemon's answer faithfully:
/// Normal means the answer equals the target, Overrun that it passed it.
pub proof fn delivery_reports_answer(open: u64, closed: u64, expiration_ns: u64, timed_out: bool)
    ensures
        spec_counter_wake(open, closed, expiration_ns, timed_out) matches CounterWake::Done(r) ==> {
            &&& r.completed_at == closed
            &&& r.state == WaitState::Normal ==> closed == open
            &&& r.state == WaitState::Overrun ==> closed > open
            &&& r.state == WaitState::Timeout ==> closed < open && timed_out
        },
{
}

/// A WaitTimer step reports a delivery exactly when the daemon's answer
/// (closed_count) has reached the target (open_count), and then reports that
/// answer: Normal exactly when it equals the target, Overrun exactly when it
/// passed it, never Timeout.
pub proof fn timer_reports_the_delivered_answer(
    open: u64,
    closed: u64,
    expiration_ns: u64,
    now_ns: u64,
    deadline_ns: u64,
)
    ensures
        (spec_timer_step(open, closed, expiration_ns, now_ns, deadline_ns) is Done) <==> closed
            >= open,
        spec_timer_step(open, closed, expiration_ns, now_ns, deadline_ns) matches TimerStep::Done(
            r,
        ) ==> {
            &&& r.completed_at == closed
            &&& (r.state == WaitState::Normal) <==> closed == open
            &&& (r.state == WaitState::Overrun) <==> closed > open
            &&& r.state != WaitState::Timeout
        },
        spec_timer_step(open, closed, expiration_ns, now_ns, deadline_ns) matches TimerStep::Wait(
            n,
        ) ==> n == deadline_ns - now_ns && now_ns < deadline_ns,
{
}

/// After a wake, a WaitCounter whose answer (closed_count) has reached its
/// target (open_count) is done with that answer, Normal when equal and
/// Overrun when past, whatever the expiration word or the timeout flag. Short
/// of the target, a terminated expiration is InterlockReaped, then a
/// reported timeout is a Timeout result, and otherwise it waits again.
pub proof fn counter_wake_delivers_once_reached(
    open: u64,
    closed: u64,
    expiration_ns: u64,
    timed_out: bool,
)
    ensures
        closed >= open ==> spec_counter_wake(open, closed, expiration_ns, timed_out)
            == CounterWake::Done(
            WaitResult {
                completed_at: closed,
                state: if closed == open {
                    WaitState::Normal
                } else {
                    WaitState::Overrun
                },
            },
        ),
        closed < open && expiration_ns == u64::MAX ==> spec_counter_wake(
            open,
            closed,
            expiration_ns,
            timed_out,
        ) == CounterWake::Reaped,
        closed < open && expiration_ns != u64::MAX && timed_out ==> spec_counter_wake(
            open,
            closed,
            expiration_ns,
            timed_out,
        ) == CounterWake::Done(WaitResult { completed_at: closed, state: WaitState::Timeout }),
        closed < open && expiration_ns != u64::MAX && !timed_out ==> spec_counter_wake(
            open,
            closed,
            expiration_ns,
            timed_out,
        ) == CounterWake::Again,
{
}

/// A WaitCron fires once closed_count has advanced past its value at entry
/// and is not the terminal marker; it then reports that value, Overrun
/// exactly when it passed open_count and Normal otherwise. The marker in
/// closed_count is always InterlockReaped.
pub proof fn cron_fires_on_an_advanced_stamp(
    initial_closed: u64,
    open: u64,
    closed: u64,
    expiration_ns: u64,
    now_ns: u64,
)
    ensures
        closed == u64::MAX ==> spec_cron_step(initial_closed, open, closed, expiration_ns, now_ns)
            == FireStep::Reaped,
        closed != u64::MAX && closed > initial_closed ==> spec_cron_step(
            initial_closed,
            open,
            closed,
            expiration_ns,
            now_ns,
        ) == FireStep::Done(
            WaitResult {
                completed_at: closed,
                state: if closed > open {
                    WaitState::Overrun
                } else {
                    WaitState::Normal
                },
            },
        ),
        spec_cron_step(initial_closed, open, closed, expiration_ns, now_ns) is Done ==> closed
            > initial_closed && closed != u64::MAX,
        closed <= initial_closed && (expiration_ns == u64::MAX || expiration_ns < now_ns)
            ==> spec_cron_step(initial_closed, open, closed, expiration_ns, now_ns)
            == FireStep::Reaped,
{
}

/// A WaitBarrier is done once the daemon has stamped a closed_count that
/// caught up with open_count, and reports that stamp, Normal when it equals
/// open_count and Overrun when it passed it; it is never done before a stamp
/// (closed_count 0). For counters in the range the contracts represent, the
/// catch-up is plain: closed_count at least open_count.
pub proof fn barrier_done_once_caught_up(open: u64, closed: u64, expiration_ns: u64)
    ensures
        spec_barrier_step(open, closed, expiration_ns) matches FireStep::Done(r) ==> {
            &&& closed > 0
            &&& r.completed_at == closed
            &&& (r.state == WaitState::Normal) <==> closed == open
            &&& (r.state == WaitState::Overrun) <==> closed != open
            &&& (open <= i64::MAX && closed <= i64::MAX) ==> closed >= open
        },
        open <= i64::MAX && closed <= i64::MAX && closed >= open && closed > 0 ==> spec_barrier_step(
            open,
            closed,
            expiration_ns,
        ) is Done,
        closed == 0 ==> spec_barrier_step(open, closed, expiration_ns) !is Done,
{
    if open <= i64::MAX && closed <= i64::MAX {
        assert((open as i64) as int == open as int) by (bit_vector)
            requires
                open <= 0x7fff_ffff_ffff_ffffu64,
        ;
        assert((closed as i64) as int == closed as int) by (bit_vector)
            requires
                closed <= 0x7fff_ffff_ffff_ffffu64,
        ;
    }
}

/// A wait for a word reaches only a real value at or past the target; the
/// terminal marker is InterlockReaped, and anything short of the target
/// waits.
pub proof fn word_wait_reaches_only_real_values(current: u64, target: u64)
    ensures
        spec_word_wait(current, target) matches WordWait::Reached(v) ==> v == current && v
            >= target && v != u64::MAX,
        current != u64::MAX && current >= target ==> spec_word_wait(current, target)
            == WordWait::Reached(current),
        current < target ==> spec_word_wait(current, target) == WordWait::Wait,
        current == u64::MAX ==> spec_word_wait(current, target) == WordWait::Reaped,
{
}

} // verus!
