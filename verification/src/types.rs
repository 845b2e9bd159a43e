//! Client SDK result types and the pure state derivations behind them.

use vstd::prelude::*;

use crate::interlock::{is_terminal_expiration, SENTINEL};

verus! {

/// Internal poll cadence for wait loops (100 ms).
pub const DEFAULT_TIMEOUT_NANOS: u64 = 100_000_000;

/// Default touch interval in milliseconds.
pub const DEFAULT_TOUCH_INTERVAL_MS: u64 = 40;

/// Outcome of a wait operation.
#[derive(Debug, Clone, Copy, PartialEq, Eq, Structural)]
pub enum WaitState {
    /// closed_count == open_count: woken exactly at target.
    Normal,
    /// closed_count > open_count: the daemon overshot the target.
    Overrun,
    /// The daemon never delivered.
    Timeout,
}

/// Result returned by the wait operations.
#[derive(Debug, Clone, Copy, PartialEq, Eq, Structural)]
pub struct WaitResult {
    /// The closed_count value when woken (the daemon's response).
    pub completed_at: u64,
    /// Whether the wake was normal, late, or timed out.
    pub state: WaitState,
}

/// Interlock lifecycle state, derived from value (open - closed) and TTL.
#[derive(Debug, Clone, Copy, PartialEq, Eq, Structural)]
pub enum InterlockState {
    /// value == 0, ttl > 0.
    Closed,
    /// value > 0, ttl > 0.
    Open,
    /// value < 0.
    Overrun,
    /// ttl <= 0.
    Expired,
}

/// The signed difference `open - closed` as a two's complement 64-bit value:
/// both counters read as `i64`, the subtraction wrapping.
pub open spec fn spec_counter_value(open: u64, closed: u64) -> i64 {
    vstd::wrapping::i64_specs::wrapping_sub(open as i64, closed as i64)
}

/// The lifecycle state the contracts assign to a counter pair and a TTL. A
/// terminated interlock (expiration 0 or the sentinel) is Expired, as is one
/// whose expiration is not after the clock; otherwise the value decides.
pub open spec fn spec_interlock_state(open: u64, closed: u64, expiration_ns: u64, clock_ns: u64) -> InterlockState {
    if is_terminal_expiration(expiration_ns) || clock_ns >= expiration_ns {
        InterlockState::Expired
    } else if spec_counter_value(open, closed) < 0 {
        InterlockState::Overrun
    } else if spec_counter_value(open, closed) > 0 {
        InterlockState::Open
    } else {
        InterlockState::Closed
    }
}

/// Wrapping signed difference `open - closed`, the interlock's value.
pub fn counter_value(open: u64, closed: u64) -> (v: i64)
    ensures
        v == spec_counter_value(open, closed),
{
    (open as i64).wrapping_sub(closed as i64)
}

/// Compute the interlock lifecycle state from raw field values.
pub fn interlock_state(open: u64, closed: u64, expiration_ns: u64, clock_ns: u64) -> (s: InterlockState)
    ensures
        s == spec_interlock_state(open, closed, expiration_ns, clock_ns),
{
    if expiration_ns == 0 || expiration_ns == SENTINEL || clock_ns >= expiration_ns {
        return InterlockState::Expired;
    }
    let value = counter_value(open, closed);
    if value < 0 {
        InterlockState::Overrun
    } else if value > 0 {
        InterlockState::Open
    } else {
        InterlockState::Closed
    }
}


/// Which word of a watched interlock to compare against the target.
/// On the wire: 0 = open_count, 1 = closed_count.
#[derive(Debug, Clone, Copy, PartialEq, Eq, Structural)]
pub enum WatchedWord {
    /// Watch open_count (word 0).
    OpenCount,
    /// Watch closed_count (word 1).
    ClosedCount,
}

pub open spec fn spec_watched_word_to_u8(w: WatchedWord) -> u8 {
    match w {
        WatchedWord::OpenCount => 0,
        WatchedWord::ClosedCount => 1,
    }
}

impl WatchedWord {
    /// Wire protocol discriminant.
    pub fn to_u8(self) -> (b: u8)
        ensures
            b == spec_watched_word_to_u8(self),
    {
        match self {
            WatchedWord::OpenCount => 0,
            WatchedWord::ClosedCount => 1,
        }
    }
}

/// RTSTimeout: the daemon did not deliver within the timeout.
pub const RTS_TIMEOUT: WaitState = WaitState::Timeout;

/// RTSOverrun: the daemon delivered late (completed_at > wait_until).
pub const RTS_OVERRUN: WaitState = WaitState::Overrun;

/// How a wake relates the daemon's answer (closed) to the target (open).
pub open spec fn spec_wake_state(open: u64, closed: u64) -> WaitState {
    if closed == open {
        WaitState::Normal
    } else if closed > open {
        WaitState::Overrun
    } else {
        WaitState::Timeout
    }
}

/// Determine the wake state from the open/closed counter pair.
pub fn check_wake_state(open: u64, closed: u64) -> (s: WaitState)
    ensures
        s == spec_wake_state(open, closed),
{
    if closed == open {
        WaitState::Normal
    } else if closed > open {
        WaitState::Overrun
    } else {
        WaitState::Timeout
    }
}

/// The wake states partition the counter pairs: exactly one holds, Normal
/// when the daemon answered exactly the target, Overrun when it answered
/// past it, Timeout when it has not reached it.
pub proof fn wake_states_partition(open: u64, closed: u64)
    ensures
        (spec_wake_state(open, closed) == WaitState::Normal) == (closed == open),
        (spec_wake_state(open, closed) == WaitState::Overrun) == (closed > open),
        (spec_wake_state(open, closed) == WaitState::Timeout) == (closed < open),
{
}

/// An interlock whose words are live and whose counters are equal is
/// Closed; ahead by less than 2^63, Open; behind by less than 2^63, Overrun.
pub proof fn state_follows_counters(open: u64, closed: u64, expiration_ns: u64, clock_ns: u64)
    requires
        !is_terminal_expiration(expiration_ns),
        clock_ns < expiration_ns,
        open <= i64::MAX,
        closed <= i64::MAX,
    ensures
        open == closed ==> spec_interlock_state(open, closed, expiration_ns, clock_ns)
            == InterlockState::Closed,
        open > closed ==> spec_interlock_state(open, closed, expiration_ns, clock_ns)
            == InterlockState::Open,
        open < closed ==> spec_interlock_state(open, closed, expiration_ns, clock_ns)
            == InterlockState::Overrun,
        spec_counter_value(open, closed) == open - closed,
{
    assert((open as i64) as int == open as int) by (bit_vector)
        requires
            open <= 0x7fff_ffff_ffff_ffffu64,
    ;
    assert((closed as i64) as int == closed as int) by (bit_vector)
        requires
            closed <= 0x7fff_ffff_ffff_ffffu64,
    ;
}
/// An interlock is Expired exactly when its expiration is 0, the terminal
/// marker, or not after the clock; whatever its counters.
pub proof fn expired_exactly_when_the_ttl_is_spent(
    open: u64,
    closed: u64,
    expiration_ns: u64,
    clock_ns: u64,
)
    ensures
        (spec_interlock_state(open, closed, expiration_ns, clock_ns) == InterlockState::Expired)
            <==> (expiration_ns == 0 || expiration_ns == u64::MAX || clock_ns >= expiration_ns),
{
    if !(expiration_ns == 0 || expiration_ns == u64::MAX || clock_ns >= expiration_ns) {
        assert(spec_counter_value(open, closed) < 0 || spec_counter_value(open, closed) > 0
            || spec_counter_value(open, closed) == 0);
    }
}

} // verus!
