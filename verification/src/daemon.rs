//! The daemon's answers to requests, and the arithmetic of its 1 ms loop.

use vstd::prelude::*;
use vstd::string::StringExecFns;

use crate::clock::NANOS_PER_MS;
use crate::error::{
    condition_text, protocol_fault_text, Condition, ConditionModel, IoOperation, ProtocolFault,
    TransportError,
};
use crate::interlock::{
    arm_deadline, arm_step, is_terminal_expiration, saturating_add, spec_arm_step, ArmStep,
    InterlockWords,
};
use crate::registry::{lookup, opt_string_view, registry_wf, wire_conditions_view, Registry, Tier};
use crate::wire::{
    Request, RequestModel, Response, ResponseModel, ERR_ALLOCATION_FAILED, ERR_INTERLOCK_NOT_FOUND, ERR_INTERLOCK_REAPED,
    ERR_INVALID_REQUEST,
};

verus! {

/// The clock's expiration is refreshed to one second ahead every cycle.
pub const CLOCK_TTL_NANOS: u64 = 1_000_000_000;

/// The system clock's words when the daemon starts at `start_ns`: both
/// counters at the start in whole milliseconds (open_count then advances each
/// cycle, closed_count stays the start time), and the expiration one clock
/// TTL ahead.
pub open spec fn spec_clock_start_words(start_ns: u64) -> InterlockWords {
    InterlockWords {
        open_count: start_ns / NANOS_PER_MS,
        closed_count: start_ns / NANOS_PER_MS,
        expiration_ns: saturating_add(start_ns, CLOCK_TTL_NANOS),
    }
}

pub fn clock_start_words(start_ns: u64) -> (w: InterlockWords)
    ensures
        w == spec_clock_start_words(start_ns),
{
    let start_ms = millis_from_nanos(start_ns);
    InterlockWords {
        open_count: start_ms,
        closed_count: start_ms,
        expiration_ns: arm_deadline(start_ns, CLOCK_TTL_NANOS),
    }
}

/// The clock's words after a daemon cycle at `now_ns`: open_count is the
/// time in whole milliseconds, closed_count (the start) is kept, and the
/// expiration is armed one clock TTL past `now_ns` (never moved backward).
pub open spec fn spec_clock_after_cycle(w: InterlockWords, now_ns: u64) -> InterlockWords {
    InterlockWords {
        open_count: now_ns / NANOS_PER_MS,
        closed_count: w.closed_count,
        expiration_ns: match spec_arm_step(
            w.expiration_ns,
            saturating_add(now_ns, CLOCK_TTL_NANOS),
        ) {
            ArmStep::Store(t) => t,
            _ => w.expiration_ns,
        },
    }
}

pub fn clock_after_cycle(w: InterlockWords, now_ns: u64) -> (r: InterlockWords)
    ensures
        r == spec_clock_after_cycle(w, now_ns),
{
    let expiration_ns = match arm_step(w.expiration_ns, arm_deadline(now_ns, CLOCK_TTL_NANOS)) {
        ArmStep::Store(t) => t,
        _ => w.expiration_ns,
    };
    InterlockWords {
        open_count: millis_from_nanos(now_ns),
        closed_count: w.closed_count,
        expiration_ns,
    }
}

/// The clock's words after the daemon started at `start_ns` and ran one
/// cycle at each time in `nows`, in order.
pub open spec fn clock_after_cycles(start_ns: u64, nows: Seq<u64>) -> InterlockWords
    decreases nows.len(),
{
    if nows.len() == 0 {
        spec_clock_start_words(start_ns)
    } else {
        spec_clock_after_cycle(clock_after_cycles(start_ns, nows.drop_last()), nows.last())
    }
}

proof fn lemma_clock_after_cycles(start_ns: u64, nows: Seq<u64>)
    requires
        start_ns < u64::MAX - CLOCK_TTL_NANOS,
        forall|k: int| 0 <= k < nows.len() ==> #[trigger] nows[k] < u64::MAX - CLOCK_TTL_NANOS,
    ensures
        ({
            let w = clock_after_cycles(start_ns, nows);
            &&& w.closed_count == start_ns / NANOS_PER_MS
            &&& !is_terminal_expiration(w.expiration_ns)
            &&& nows.len() == 0 ==> w.open_count == start_ns / NANOS_PER_MS && w.expiration_ns
                > start_ns
            &&& nows.len() > 0 ==> w.open_count == nows.last() / NANOS_PER_MS && w.expiration_ns
                > nows.last()
        }),
    decreases nows.len(),
{
    if nows.len() > 0 {
        let prev = nows.drop_last();
        assert forall|k: int| 0 <= k < prev.len() implies #[trigger] prev[k] < u64::MAX
            - CLOCK_TTL_NANOS by {
            assert(prev[k] == nows[k]);
        }
        lemma_clock_after_cycles(start_ns, prev);
        assert(nows.last() == nows[nows.len() - 1]);
    }
}

/// The clock advances every cycle and is never reaped: after the daemon
/// starts at `start_ns` and runs a cycle at each time in `nows`, open_count
/// is the latest time in milliseconds, closed_count is still the start, and
/// the expiration is a real value past the latest time, so the clock never
/// reads as expired or terminated. With times that never go back, open_count
/// never goes back either.
pub proof fn clock_advances_and_is_never_reaped(start_ns: u64, nows: Seq<u64>)
    requires
        start_ns < u64::MAX - CLOCK_TTL_NANOS,
        forall|k: int| 0 <= k < nows.len() ==> #[trigger] nows[k] < u64::MAX - CLOCK_TTL_NANOS,
    ensures
        ({
            let w = clock_after_cycles(start_ns, nows);
            &&& w.closed_count == start_ns / NANOS_PER_MS
            &&& !is_terminal_expiration(w.expiration_ns)
            &&& nows.len() > 0 ==> w.open_count == nows.last() / NANOS_PER_MS && w.expiration_ns
                > nows.last()
        }),
        (forall|i: int, j: int| 0 <= i <= j < nows.len() ==> nows[i] <= nows[j]) ==> forall|k: int|
            1 <= k < nows.len() ==> #[trigger] clock_after_cycles(start_ns, nows.take(k)).open_count
                <= clock_after_cycles(start_ns, nows.take(k + 1)).open_count,
{
    lemma_clock_after_cycles(start_ns, nows);
    if forall|i: int, j: int| 0 <= i <= j < nows.len() ==> nows[i] <= nows[j] {
        assert forall|k: int| 1 <= k < nows.len() implies #[trigger] clock_after_cycles(
            start_ns,
            nows.take(k),
        ).open_count <= clock_after_cycles(start_ns, nows.take(k + 1)).open_count by {
            let a = nows.take(k);
            let b = nows.take(k + 1);
            assert forall|m: int| 0 <= m < a.len() implies #[trigger] a[m] < u64::MAX
                - CLOCK_TTL_NANOS by {
                assert(a[m] == nows[m]);
            }
            assert forall|m: int| 0 <= m < b.len() implies #[trigger] b[m] < u64::MAX
                - CLOCK_TTL_NANOS by {
                assert(b[m] == nows[m]);
            }
            lemma_clock_after_cycles(start_ns, a);
            lemma_clock_after_cycles(start_ns, b);
            let x = nows[k - 1];
            let y = nows[k];
            assert(a.last() == x);
            assert(b.last() == y);
            assert(x <= y);
            assert(x / NANOS_PER_MS <= y / NANOS_PER_MS) by (nonlinear_arith)
                requires
                    x <= y,
            ;
        }
    }
}

/// The tier a wire byte names: 0 = Interlock, 1 = WaitCounter,
/// 2 = WaitTimer, 3 = WaitCron, 4 = WaitBarrier.
pub open spec fn spec_tier_from_wire(b: u8) -> Option<Tier> {
    if b == 0 {
        Some(Tier::Interlock)
    } else if b == 1 {
        Some(Tier::WaitCounter)
    } else if b == 2 {
        Some(Tier::WaitTimer)
    } else if b == 3 {
        Some(Tier::WaitCron)
    } else if b == 4 {
        Some(Tier::WaitBarrier)
    } else {
        None
    }
}

pub fn tier_from_wire(b: u8) -> (t: Option<Tier>)
    ensures
        t == spec_tier_from_wire(b),
{
    match b {
        0 => Some(Tier::Interlock),
        1 => Some(Tier::WaitCounter),
        2 => Some(Tier::WaitTimer),
        3 => Some(Tier::WaitCron),
        4 => Some(Tier::WaitBarrier),
        _ => None,
    }
}

/// Tier bytes follow the wire: 0 Interlock, 1 WaitCounter, 2 WaitTimer,
/// 3 WaitCron, 4 WaitBarrier, every tier has exactly one byte, and every
/// other byte names no tier.
pub proof fn tier_bytes_follow_the_wire(b: u8, c: u8, t: Tier)
    ensures
        spec_tier_from_wire(0) == Some(Tier::Interlock),
        spec_tier_from_wire(1) == Some(Tier::WaitCounter),
        spec_tier_from_wire(2) == Some(Tier::WaitTimer),
        spec_tier_from_wire(3) == Some(Tier::WaitCron),
        spec_tier_from_wire(4) == Some(Tier::WaitBarrier),
        b > 4 ==> spec_tier_from_wire(b) is None,
        spec_tier_from_wire(b) == Some(t) && spec_tier_from_wire(c) == Some(t) ==> b == c,
        exists|d: u8| d <= 4 && spec_tier_from_wire(d) == Some(t),
{
    match t {
        Tier::Interlock => assert(spec_tier_from_wire(0) == Some(t)),
        Tier::WaitCounter => assert(spec_tier_from_wire(1) == Some(t)),
        Tier::WaitTimer => assert(spec_tier_from_wire(2) == Some(t)),
        Tier::WaitCron => assert(spec_tier_from_wire(3) == Some(t)),
        Tier::WaitBarrier => assert(spec_tier_from_wire(4) == Some(t)),
    }
}

/// The wire response for a daemon condition. The message carries the
/// condition's text; for a missing interlock the response prefixes it once
/// more.
pub open spec fn spec_condition_response(c: ConditionModel) -> ResponseModel {
    match c {
        ConditionModel::InterlockNotFound { .. } => ResponseModel::Error {
            code: ERR_INTERLOCK_NOT_FOUND,
            message: "InterlockNotFound: "@ + condition_text_model(c),
        },
        ConditionModel::InterlockReaped => ResponseModel::Error {
            code: ERR_INTERLOCK_REAPED,
            message: "InterlockReaped"@,
        },
        ConditionModel::AllocationFailed { .. } => ResponseModel::Error {
            code: ERR_ALLOCATION_FAILED,
            message: condition_text_model(c),
        },
        ConditionModel::InvalidRequest { .. } => ResponseModel::Error {
            code: ERR_INVALID_REQUEST,
            message: condition_text_model(c),
        },
    }
}

/// A condition's text, from its plain value.
pub open spec fn condition_text_model(c: ConditionModel) -> Seq<char> {
    match c {
        ConditionModel::InterlockReaped => "InterlockReaped"@,
        ConditionModel::InterlockNotFound { name } => "InterlockNotFound: "@ + name,
        ConditionModel::AllocationFailed { step, errno } => condition_text(
            Condition::AllocationFailed { step, errno },
        ),
        ConditionModel::InvalidRequest { message } => "InvalidRequest: "@ + message,
    }
}

/// Map a condition to the wire response that reports it.
pub fn map_condition_to_response(e: &Condition) -> (r: Response)
    ensures
        r@ == spec_condition_response(e@),
{
    match e {
        Condition::InterlockNotFound { .. } => {
            let text = e.message();
            Response::interlock_not_found(text.as_str())
        },
        Condition::InterlockReaped => Response::interlock_reaped(),
        Condition::AllocationFailed { .. } => {
            let text = e.message();
            Response::allocation_failed(text.as_str())
        },
        Condition::InvalidRequest { .. } => {
            let text = e.message();
            Response::invalid_request(text.as_str())
        },
    }
}

/// The answer to a request that broke the protocol.
pub fn protocol_fault_response(fault: &ProtocolFault) -> (r: Response)
    ensures
        r@ == (ResponseModel::Error {
            code: ERR_INVALID_REQUEST,
            message: protocol_fault_text(*fault),
        }),
{
    let text = fault.message();
    Response::invalid_request(text.as_str())
}

/// The answer to a create naming no known tier.
pub fn invalid_tier_response() -> (r: Response)
    ensures
        r@ == (ResponseModel::Error { code: ERR_INVALID_REQUEST, message: "invalid tier"@ }),
{
    Response::invalid_request("invalid tier")
}

/// The answer when the interlock's fd could not be duplicated for sending.
pub fn fd_dup_failed_response(e: &Condition) -> (r: Response)
    ensures
        r@ == (ResponseModel::Error {
            code: ERR_ALLOCATION_FAILED,
            message: "fd dup failed: "@ + condition_text(*e),
        }),
{
    let text = e.message();
    let message = String::from_str("fd dup failed: ").concat(text.as_str());
    Response::allocation_failed(message.as_str())
}

/// What the daemon does with a request, decided before any descriptor work.
pub enum RequestPlan {
    /// Send this response, with no descriptor.
    Reply(Response),
    /// Allocate the new interlock's memory, hand the request and the
    /// allocation's outcome to `Registry::create`, and answer with its result.
    Create {
        name: String,
        tier: Tier,
        watched_name: Option<String>,
        watched_word: Option<u8>,
        interval_ns: Option<u64>,
        conditions: Option<Vec<(String, u8, u64)>>,
    },
    /// Answer `Attached` with a duplicate of this interlock's descriptor.
    Attach { id: u64 },
}

/// Decide a request against the registry: an attach resolves the name to an
/// id, or is answered InterlockNotFound; a create decodes its tier, or is
/// answered "invalid tier", and passes its fields on unchanged.
pub fn plan_request(registry: &Registry, request: Request) -> (p: RequestPlan)
    requires
        registry_wf(registry@),
    ensures
        match request@ {
            RequestModel::Attach { name } => match lookup(registry@.entries, name) {
                Some(e) => p matches RequestPlan::Attach { id } && id == e.id,
                None => p matches RequestPlan::Reply(r) && r@ == spec_condition_response(
                    ConditionModel::InterlockNotFound { name },
                ),
            },
            RequestModel::Create {
                name,
                tier,
                watched_name,
                watched_word,
                interval_ns,
                conditions,
            } => match spec_tier_from_wire(tier) {
                None => p matches RequestPlan::Reply(r) && r@ == (ResponseModel::Error {
                    code: ERR_INVALID_REQUEST,
                    message: "invalid tier"@,
                }),
                Some(t) => p matches RequestPlan::Create {
                    name: n,
                    tier: t2,
                    watched_name: wn,
                    watched_word: ww,
                    interval_ns: iv,
                    conditions: cs,
                } && n@ == name && t2 == t && opt_string_view(wn) == watched_name && ww
                    == watched_word && iv == interval_ns && wire_conditions_view(cs) == conditions,
            },
        },
{
    match request {
        Request::AttachInterlock { name } => match registry.attach(name.as_str()) {
            Ok(id) => RequestPlan::Attach { id },
            Err(c) => RequestPlan::Reply(map_condition_to_response(&c)),
        },
        Request::CreateInterlock {
            name,
            tier,
            watched_name,
            watched_word,
            interval_ns,
            conditions,
        } => match tier_from_wire(tier) {
            Some(t) => RequestPlan::Create {
                name,
                tier: t,
                watched_name,
                watched_word,
                interval_ns,
                conditions,
            },
            None => RequestPlan::Reply(invalid_tier_response()),
        },
    }
}

/// Whether a transport error means the connection is dead: the peer closed,
/// or a read, write, send or receive failed with a broken pipe or a reset.
/// `broken_pipe` and `reset` are the platform's EPIPE and ECONNRESET.
pub fn is_connection_error(e: &TransportError, broken_pipe: i32, reset: i32) -> (r: bool)
    ensures
        r == match *e {
            TransportError::ConnectionClosed => true,
            TransportError::Io { operation, errno } => (operation == IoOperation::Read
                || operation == IoOperation::Write || operation == IoOperation::SendMsg
                || operation == IoOperation::RecvMsg) && (errno == broken_pipe || errno == reset),
            _ => false,
        },
{
    match e {
        TransportError::ConnectionClosed => true,
        TransportError::Io { operation, errno } => {
            let io_op = match operation {
                IoOperation::Read | IoOperation::Write | IoOperation::SendMsg
                | IoOperation::RecvMsg => true,
                _ => false,
            };
            io_op && (*errno == broken_pipe || *errno == reset)
        },
        _ => false,
    }
}

/// The loop's next millisecond boundary: `cycle` milliseconds after `anchor`.
pub fn cycle_boundary(anchor: u64, cycle: u64) -> (r: u64)
    requires
        anchor + cycle * NANOS_PER_MS <= u64::MAX,
    ensures
        r == anchor + cycle * NANOS_PER_MS,
{
    assert(cycle * NANOS_PER_MS <= u64::MAX) by (nonlinear_arith)
        requires
            anchor + cycle * NANOS_PER_MS <= u64::MAX,
    ;
    anchor + cycle * NANOS_PER_MS
}

/// How many whole milliseconds the loop may block in poll before the next
/// boundary: the wait rounded up, zero once the boundary has passed.
pub fn poll_timeout_ms(next_boundary: u64, now: u64) -> (r: i32)
    ensures
        next_boundary > now ==> r == (((next_boundary - now) + NANOS_PER_MS - 1) / NANOS_PER_MS as int) as i32,
        next_boundary <= now ==> r == 0,
{
    if next_boundary > now {
        let delta = next_boundary - now;
        // (delta + NANOS_PER_MS - 1) cannot overflow a u128.
        let rounded = ((delta as u128 + NANOS_PER_MS as u128 - 1) / NANOS_PER_MS as u128) as u64;
        rounded as i32
    } else {
        0
    }
}

/// The clock's current reading: monotonic nanoseconds in whole milliseconds.
pub fn millis_from_nanos(now_ns: u64) -> (r: u64)
    ensures
        r == now_ns / NANOS_PER_MS,
{
    now_ns / NANOS_PER_MS
}

} // verus!
