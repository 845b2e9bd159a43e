//! Monotonic time arithmetic and futex word helpers.

use vstd::prelude::*;

verus! {

pub const NANOS_PER_SEC: u64 = 1_000_000_000;

pub const NANOS_PER_MS: u64 = 1_000_000;

/// The nanosecond count a `timespec` denotes, when it is non-negative and
/// fits in a `u64`.
pub open spec fn spec_nanos_from_timespec(tv_sec: i64, tv_nsec: i64) -> Option<u64> {
    if tv_sec >= 0 && tv_nsec >= 0 && tv_sec * NANOS_PER_SEC + tv_nsec <= u64::MAX {
        Some((tv_sec * NANOS_PER_SEC + tv_nsec) as u64)
    } else {
        None
    }
}

/// Convert a `timespec` (seconds, nanoseconds) to nanoseconds; `None` when a
/// field is negative or the total does not fit in a `u64`.
pub fn nanos_from_timespec(tv_sec: i64, tv_nsec: i64) -> (r: Option<u64>)
    ensures
        r == spec_nanos_from_timespec(tv_sec, tv_nsec),
{
    if tv_sec < 0 || tv_nsec < 0 {
        return None;
    }
    let secs = tv_sec as u64;
    let nsecs = tv_nsec as u64;
    match secs.checked_mul(NANOS_PER_SEC) {
        Some(s) => s.checked_add(nsecs),
        None => None,
    }
}

/// An expiration is alive while it lies strictly in the future.
pub fn expiration_alive(expiration_ns: u64, now: u64) -> (r: bool)
    ensures
        r == (expiration_ns > now),
{
    expiration_ns > now
}

pub open spec fn spec_ms_to_nanos(ms: u64) -> u64 {
    if ms * NANOS_PER_MS > u64::MAX {
        u64::MAX
    } else {
        (ms * NANOS_PER_MS) as u64
    }
}

/// Milliseconds to nanoseconds, saturating at `u64::MAX`.
pub fn ms_to_nanos(ms: u64) -> (r: u64)
    ensures
        r == spec_ms_to_nanos(ms),
{
    match ms.checked_mul(NANOS_PER_MS) {
        Some(n) => n,
        None => u64::MAX,
    }
}

/// The low 32 bits of a `u64`, the part a futex compares.
pub fn futex_word(value: u64) -> (r: u32)
    ensures
        r == value % 0x1_0000_0000,
{
    let r = value as u32;
    assert(value as u32 == value % 0x1_0000_0000) by (bit_vector);
    r
}

/// A nanosecond span as (whole seconds, remaining nanoseconds), the two
/// fields of a `timespec`.
pub fn split_nanos(nanos: u64) -> (r: (u64, u64))
    ensures
        r.0 == nanos / NANOS_PER_SEC,
        r.1 == nanos % NANOS_PER_SEC,
        r.0 * NANOS_PER_SEC + r.1 == nanos,
        r.1 < NANOS_PER_SEC,
{
    (nanos / NANOS_PER_SEC, nanos % NANOS_PER_SEC)
}

/// How long a sleep until `target` still has to last at `now`: nothing once
/// the target is reached.
pub fn remaining_until(target: u64, now: u64) -> (r: Option<u64>)
    ensures
        now >= target ==> r is None,
        now < target ==> r == Some((target - now) as u64),
{
    if now >= target {
        None
    } else {
        Some(target - now)
    }
}

} // verus!
