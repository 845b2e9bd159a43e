//! The interlock: three `u64` words (open_count, closed_count, expiration_ns)
//! and the rules for arming and reaping them.

use vstd::prelude::*;

verus! {

/// Bytes of the shared interlock region: three `u64` words.
pub const INTERLOCK_SIZE: usize = 24;

/// Time to live given to a fresh interlock: 100 ms.
pub const CREATION_TTL_NANOS: u64 = 100_000_000;

/// The terminal marker, `u64::MAX`. A daemon reap and a client free() both
/// write it (a creator into expiration_ns, an attacher into open_count), and
/// every wait reports a word that reads it as InterlockReaped. An expiration
/// of zero is read as terminal as well, so an interlock whose expiration was
/// cleared to zero also counts as reaped.
pub const SENTINEL: u64 = 0xffff_ffff_ffff_ffff;

/// The three words of an interlock, as read at one moment.
#[derive(Debug, Clone, Copy, PartialEq, Eq, Structural)]
pub struct InterlockWords {
    pub open_count: u64,
    pub closed_count: u64,
    pub expiration_ns: u64,
}

/// `a + b`, or `u64::MAX` when the sum does not fit.
pub open spec fn saturating_add(a: u64, b: u64) -> u64 {
    if a + b > u64::MAX {
        u64::MAX
    } else {
        (a + b) as u64
    }
}

/// The expiration of an interlock created at `now`.
pub fn creation_deadline(now: u64) -> (r: u64)
    ensures
        r == saturating_add(now, CREATION_TTL_NANOS),
{
    now.saturating_add(CREATION_TTL_NANOS)
}

/// The expiration a touch of `ttl_nanos` at `now` asks for.
pub fn arm_deadline(now: u64, ttl_nanos: u64) -> (r: u64)
    ensures
        r == saturating_add(now, ttl_nanos),
{
    now.saturating_add(ttl_nanos)
}

/// An expiration word that marks the interlock as gone: zero or the sentinel.
pub open spec fn is_terminal_expiration(expiration_ns: u64) -> bool {
    expiration_ns == 0 || expiration_ns == SENTINEL
}

/// One step of the compare-and-swap loop that moves expiration forward.
#[derive(Debug, Clone, Copy, PartialEq, Eq, Structural)]
pub enum ArmStep {
    /// The interlock is gone; arming fails with InterlockReaped.
    Reaped,
    /// The current expiration already reaches the deadline; nothing to write.
    Unchanged,
    /// Swap the current expiration for this later one.
    Store(u64),
}

/// Decide how to arm an interlock whose expiration word reads `current`,
/// towards `deadline`: the expiration only ever moves forward, to
/// `max(current, deadline)`, and a gone interlock is never revived.
pub fn arm_step(current: u64, deadline: u64) -> (r: ArmStep)
    ensures
        r == spec_arm_step(current, deadline),
{
    if current == 0 || current == SENTINEL {
        return ArmStep::Reaped;
    }
    let target = if current > deadline {
        current
    } else {
        deadline
    };
    if target == current {
        ArmStep::Unchanged
    } else {
        ArmStep::Store(target)
    }
}

/// An interlock is reapable once its expiration is zero, the sentinel, or
/// already past.
pub fn is_reapable(expiration_ns: u64, now: u64) -> (r: bool)
    ensures
        r == (is_terminal_expiration(expiration_ns) || expiration_ns < now),
{
    expiration_ns == 0 || expiration_ns == SENTINEL || expiration_ns < now
}

/// The words of an interlock just reaped or freed: expiration set to the
/// sentinel, counters untouched.
pub fn terminated(words: InterlockWords) -> (r: InterlockWords)
    ensures
        r == (InterlockWords { expiration_ns: SENTINEL, ..words }),
{
    InterlockWords { expiration_ns: SENTINEL, ..words }
}

/// Decide a compare-and-swap raise of a counter to `target`: never written
/// backward, so a target at or below the current value writes nothing.
pub fn raise_step(current: u64, target: u64) -> (r: Option<u64>)
    ensures
        target <= current ==> r is None,
        target > current ==> r == Some(target),
{
    if target <= current {
        None
    } else {
        Some(target)
    }
}

/// Arming never moves the expiration backward and never revives a gone
/// interlock: whatever `arm_step` decides, the expiration after it is at
/// least the one before it, and it reaches the deadline unless the
/// interlock is gone.
pub proof fn arm_is_monotonic_forward(current: u64, deadline: u64)
    ensures
        ({
            let after = match spec_arm_step(current, deadline) {
                ArmStep::Store(t) => t,
                _ => current,
            };
            &&& after >= current
            &&& !is_terminal_expiration(current) ==> after >= deadline
            &&& is_terminal_expiration(current) ==> after == current
        }),
{
}

/// The decision `arm_step` makes, as mathematics.
pub open spec fn spec_arm_step(current: u64, deadline: u64) -> ArmStep {
    if is_terminal_expiration(current) {
        ArmStep::Reaped
    } else if deadline <= current {
        ArmStep::Unchanged
    } else {
        ArmStep::Store(deadline)
    }
}

/// Arming moves a live expiration forward to the deadline and nowhere else:
/// a deadline past the expiration is stored as is, one at or before it
/// leaves it unchanged, and a terminated expiration (0 or `u64::MAX`) is
/// refused whatever the deadline.
pub proof fn arm_stores_exactly_a_later_deadline(current: u64, deadline: u64)
    ensures
        (current == 0 || current == u64::MAX) ==> spec_arm_step(current, deadline)
            == ArmStep::Reaped,
        (current != 0 && current != u64::MAX && deadline > current) ==> spec_arm_step(
            current,
            deadline,
        ) == ArmStep::Store(deadline),
        (current != 0 && current != u64::MAX && deadline <= current) ==> spec_arm_step(
            current,
            deadline,
        ) == ArmStep::Unchanged,
{
}

} // verus!
