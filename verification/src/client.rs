//! The SDK's side of the conversation with the daemon: the requests it
//! sends, and how it reads the daemon's answers.

use vstd::prelude::*;
use vstd::string::StringExecFns;

use crate::clock::{ms_to_nanos, spec_ms_to_nanos};
use crate::error::{
    condition_text, hex_byte, hex_byte_text, transport_error_text, Condition, ConditionModel,
    ProtocolFault, TransportError,
};
use crate::daemon::{spec_condition_response, spec_tier_from_wire};
use crate::registry::{word_byte_names, Tier};
use crate::types::{spec_watched_word_to_u8, WatchedWord};
use crate::wire::{
    conditions_view, Request, RequestModel, Response, ResponseModel, ERR_ALLOCATION_FAILED,
    ERR_INTERLOCK_NOT_FOUND, ERR_INTERLOCK_REAPED, ERR_INVALID_REQUEST,
};

verus! {

/// SDK error type: daemon error codes by name, and SDK-side faults.
#[derive(Debug)]
pub enum SdkError {
    /// The interlock was reaped (TTL lapsed or name claimed). Daemon code 0x01.
    InterlockReaped,
    /// Attach to a name not in the registry. Daemon code 0x02.
    InterlockNotFound { name: String },
    /// The daemon could not allocate the interlock. Daemon code 0x03.
    AllocationFailed { message: String },
    /// Transport-level error (connection, framing, protocol).
    Transport(TransportError),
    /// Mapping the received fd failed (SDK-side).
    MmapFailed { message: String },
    /// The request was invalid (bad tier, missing fields, reserved name). Daemon code 0x04.
    InvalidRequest { message: String },
    /// Unexpected response type from the daemon.
    UnexpectedResponse { message: String },
}

/// The plain value of an [`SdkError`].
pub enum SdkErrorModel {
    InterlockReaped,
    InterlockNotFound { name: Seq<char> },
    AllocationFailed { message: Seq<char> },
    Transport(TransportError),
    MmapFailed { message: Seq<char> },
    InvalidRequest { message: Seq<char> },
    UnexpectedResponse { message: Seq<char> },
}

impl View for SdkError {
    type V = SdkErrorModel;

    open spec fn view(&self) -> SdkErrorModel {
        match self {
            SdkError::InterlockReaped => SdkErrorModel::InterlockReaped,
            SdkError::InterlockNotFound { name } => SdkErrorModel::InterlockNotFound { name: name@ },
            SdkError::AllocationFailed { message } => SdkErrorModel::AllocationFailed {
                message: message@,
            },
            SdkError::Transport(e) => SdkErrorModel::Transport(*e),
            SdkError::MmapFailed { message } => SdkErrorModel::MmapFailed { message: message@ },
            SdkError::InvalidRequest { message } => SdkErrorModel::InvalidRequest {
                message: message@,
            },
            SdkError::UnexpectedResponse { message } => SdkErrorModel::UnexpectedResponse {
                message: message@,
            },
        }
    }
}

impl From<TransportError> for SdkError {
    fn from(e: TransportError) -> (r: Self) {
        SdkError::Transport(e)
    }
}

impl vstd::std_specs::convert::FromSpecImpl<TransportError> for SdkError {
    open spec fn obeys_from_spec() -> bool {
        true
    }

    open spec fn from_spec(e: TransportError) -> Self {
        SdkError::Transport(e)
    }
}

pub open spec fn sdk_error_text(e: SdkErrorModel) -> Seq<char> {
    match e {
        SdkErrorModel::InterlockReaped => "interlock reaped"@,
        SdkErrorModel::InterlockNotFound { name } => "interlock not found: "@ + name,
        SdkErrorModel::AllocationFailed { message } => "allocation failed: "@ + message,
        SdkErrorModel::Transport(t) => "transport: "@ + transport_error_text(t),
        SdkErrorModel::MmapFailed { message } => "mmap failed: "@ + message,
        SdkErrorModel::InvalidRequest { message } => "invalid request: "@ + message,
        SdkErrorModel::UnexpectedResponse { message } => "unexpected response: "@ + message,
    }
}

impl SdkError {
    /// The error as text.
    pub fn message(&self) -> (s: String)
        ensures
            s@ == sdk_error_text(self@),
    {
        match self {
            SdkError::InterlockReaped => String::from_str("interlock reaped"),
            SdkError::InterlockNotFound { name } => String::from_str("interlock not found: ").concat(
                name.as_str(),
            ),
            SdkError::AllocationFailed { message } => String::from_str(
                "allocation failed: ",
            ).concat(message.as_str()),
            SdkError::Transport(e) => {
                let t = e.message();
                String::from_str("transport: ").concat(t.as_str())
            },
            SdkError::MmapFailed { message } => String::from_str("mmap failed: ").concat(
                message.as_str(),
            ),
            SdkError::InvalidRequest { message } => String::from_str("invalid request: ").concat(
                message.as_str(),
            ),
            SdkError::UnexpectedResponse { message } => String::from_str(
                "unexpected response: ",
            ).concat(message.as_str()),
        }
    }
}

/// The SDK error a daemon error code names.
pub open spec fn spec_daemon_error(code: u8, message: Seq<char>) -> SdkErrorModel {
    if code == ERR_INTERLOCK_REAPED {
        SdkErrorModel::InterlockReaped
    } else if code == ERR_INTERLOCK_NOT_FOUND {
        SdkErrorModel::InterlockNotFound { name: message }
    } else if code == ERR_ALLOCATION_FAILED {
        SdkErrorModel::AllocationFailed { message }
    } else if code == ERR_INVALID_REQUEST {
        SdkErrorModel::InvalidRequest { message }
    } else {
        SdkErrorModel::UnexpectedResponse {
            message: "unknown daemon error 0x"@ + hex_byte(code) + ": "@ + message,
        }
    }
}

/// Parse a daemon error code into a named SDK error.
pub fn parse_daemon_error(code: u8, message: String) -> (e: SdkError)
    ensures
        e@ == spec_daemon_error(code, message@),
{
    if code == ERR_INTERLOCK_REAPED {
        SdkError::InterlockReaped
    } else if code == ERR_INTERLOCK_NOT_FOUND {
        SdkError::InterlockNotFound { name: message }
    } else if code == ERR_ALLOCATION_FAILED {
        SdkError::AllocationFailed { message }
    } else if code == ERR_INVALID_REQUEST {
        SdkError::InvalidRequest { message }
    } else {
        let hex = hex_byte_text(code);
        let text = String::from_str("unknown daemon error 0x").concat(hex.as_str()).concat(
            ": ",
        ).concat(message.as_str());
        SdkError::UnexpectedResponse { message: text }
    }
}

/// Exactly one fd travels with a Created or Attached response.
pub fn check_single_fd(count: usize) -> (r: Result<(), SdkError>)
    ensures
        count == 1 ==> r is Ok,
        count != 1 ==> (r matches Err(e) && e@ == SdkErrorModel::Transport(
            TransportError::Protocol {
                fault: ProtocolFault::Truncated { needed: 1, have: count },
            },
        )),
{
    if count != 1 {
        return Err(
            SdkError::Transport(
                TransportError::Protocol {
                    fault: ProtocolFault::Truncated { needed: 1, have: count },
                },
            ),
        );
    }
    Ok(())
}

/// The error that reports a failed mapping of the received fd.
pub fn mmap_failed(e: &Condition) -> (r: SdkError)
    ensures
        r@ == (SdkErrorModel::MmapFailed { message: condition_text(*e) }),
{
    SdkError::MmapFailed { message: e.message() }
}

/// What a create request's answer means: Created succeeds, an Error names
/// the daemon's condition, anything else is unexpected.
pub open spec fn spec_create_outcome(r: ResponseModel) -> Result<(), SdkErrorModel> {
    match r {
        ResponseModel::Created { .. } => Ok(()),
        ResponseModel::Error { code, message } => Err(spec_daemon_error(code, message)),
        _ => Err(
            SdkErrorModel::UnexpectedResponse { message: "unexpected response type for create"@ },
        ),
    }
}

/// What an attach request's answer means.
pub open spec fn spec_attach_outcome(r: ResponseModel) -> Result<(), SdkErrorModel> {
    match r {
        ResponseModel::Attached { .. } => Ok(()),
        ResponseModel::Error { code, message } => Err(spec_daemon_error(code, message)),
        _ => Err(
            SdkErrorModel::UnexpectedResponse { message: "unexpected response type for attach"@ },
        ),
    }
}

pub open spec fn unit_result_view(r: Result<(), SdkError>) -> Result<(), SdkErrorModel> {
    match r {
        Ok(()) => Ok(()),
        Err(e) => Err(e@),
    }
}

/// Read the daemon's answer to a create request.
pub fn create_outcome(resp: Response) -> (r: Result<(), SdkError>)
    ensures
        unit_result_view(r) == spec_create_outcome(resp@),
{
    match resp {
        Response::Created { .. } => Ok(()),
        Response::Error { code, message } => Err(parse_daemon_error(code, message)),
        _ => Err(
            SdkError::UnexpectedResponse {
                message: String::from_str("unexpected response type for create"),
            },
        ),
    }
}

/// Read the daemon's answer to an attach request.
pub fn attach_outcome(resp: Response) -> (r: Result<(), SdkError>)
    ensures
        unit_result_view(r) == spec_attach_outcome(resp@),
{
    match resp {
        Response::Attached { .. } => Ok(()),
        Response::Error { code, message } => Err(parse_daemon_error(code, message)),
        _ => Err(
            SdkError::UnexpectedResponse {
                message: String::from_str("unexpected response type for attach"),
            },
        ),
    }
}

/// The system clock is attached once on connect; attaching it by name is
/// refused.
pub fn check_attach_name(name: &str) -> (r: Result<(), SdkError>)
    ensures
        name@ == "clock"@ ==> (r matches Err(e) && e@ == (SdkErrorModel::InvalidRequest {
            message: "use client.clock() to access the system clock"@,
        })),
        name@ != "clock"@ ==> r is Ok,
{
    let given = String::from_str(name);
    let clock = String::from_str("clock");
    if given == clock {
        return Err(
            SdkError::InvalidRequest {
                message: String::from_str("use client.clock() to access the system clock"),
            },
        );
    }
    Ok(())
}

pub open spec fn opt_str_view(s: Option<&str>) -> Option<Seq<char>> {
    match s {
        Some(s) => Some(s@),
        None => None,
    }
}

/// A create request of a tier that carries at most a watched interlock.
pub fn create_request(name: &str, tier: u8, watched_name: Option<&str>, watched_word: Option<u8>) -> (r:
    Request)
    ensures
        r@ == (RequestModel::Create {
            name: name@,
            tier,
            watched_name: opt_str_view(watched_name),
            watched_word,
            interval_ns: None,
            conditions: None,
        }),
{
    let wn = match watched_name {
        Some(s) => Some(String::from_str(s)),
        None => None,
    };
    Request::CreateInterlock {
        name: String::from_str(name),
        tier,
        watched_name: wn,
        watched_word,
        interval_ns: None,
        conditions: None,
    }
}

/// The create request of a WaitCron at `interval_ms` spacing.
pub fn wait_cron_request(name: &str, interval_ms: u64) -> (r: Request)
    ensures
        r@ == (RequestModel::Create {
            name: name@,
            tier: 3,
            watched_name: None,
            watched_word: None,
            interval_ns: Some(spec_ms_to_nanos(interval_ms)),
            conditions: None,
        }),
        r@ matches RequestModel::Create { tier, .. } && spec_tier_from_wire(tier) == Some(
            Tier::WaitCron,
        ),
{
    Request::CreateInterlock {
        name: String::from_str(name),
        tier: 3,
        watched_name: None,
        watched_word: None,
        interval_ns: Some(ms_to_nanos(interval_ms)),
        conditions: None,
    }
}

/// The create request of a WaitBarrier over `conditions`.
pub fn wait_barrier_request(name: &str, conditions: Vec<(String, WatchedWord, u64)>) -> (r: Request)
    ensures
        r@ == (RequestModel::Create {
            name: name@,
            tier: 4,
            watched_name: None,
            watched_word: None,
            interval_ns: None,
            conditions: Some(
                conditions@.map_values(
                    |c: (String, WatchedWord, u64)| (c.0@, spec_watched_word_to_u8(c.1), c.2),
                ),
            ),
        }),
        r@ matches RequestModel::Create { tier, .. } && spec_tier_from_wire(tier) == Some(
            Tier::WaitBarrier,
        ),
{
    let ghost src = conditions@;
    let mut wire: Vec<(String, u8, u64)> = Vec::with_capacity(conditions.len());
    let mut i: usize = 0;
    while i < conditions.len()
        invariant
            i <= conditions@.len(),
            src == conditions@,
            conditions_view(wire@) =~= src.take(i as int).map_values(
                |c: (String, WatchedWord, u64)| (c.0@, spec_watched_word_to_u8(c.1), c.2),
            ),
        decreases conditions@.len() - i,
    {
        let c = &conditions[i];
        let ghost before = conditions_view(wire@);
        wire.push((c.0.clone(), c.1.to_u8(), c.2));
        proof {
            let f = |c: (String, WatchedWord, u64)| (c.0@, spec_watched_word_to_u8(c.1), c.2);
            assert(conditions_view(wire@) =~= before.push(f(src[i as int])));
            assert(src.take(i + 1) =~= src.take(i as int).push(src[i as int]));
            assert(src.take(i + 1).map_values(f) =~= src.take(i as int).map_values(f).push(
                f(src[i as int]),
            ));
        }
        i = i + 1;
    }
    proof {
        assert(src.take(conditions@.len() as int) =~= src);
    }
    Request::CreateInterlock {
        name: String::from_str(name),
        tier: 4,
        watched_name: None,
        watched_word: None,
        interval_ns: None,
        conditions: Some(wire),
    }
}

/// The attach request for `name`.
pub fn attach_request(name: &str) -> (r: Request)
    ensures
        r@ == (RequestModel::Attach { name: name@ }),
{
    Request::AttachInterlock { name: String::from_str(name) }
}

/// What a one-byte non-blocking peek on the daemon socket says of the
/// connection: data waiting (`received > 0`) or nothing yet (`again` or
/// `would_block`, the platform's EAGAIN and EWOULDBLOCK) means alive; end of
/// stream or any other error means the daemon is gone.
pub fn peek_says_connected(received: isize, errno: i32, again: i32, would_block: i32) -> (r: bool)
    ensures
        r == (received > 0 || (received < 0 && (errno == again || errno == would_block))),
{
    if received == 0 {
        false
    } else if received < 0 {
        errno == again || errno == would_block
    } else {
        true
    }
}

/// The watched-word bytes the SDK sends decode in the daemon to the same
/// word: open_count as 0, closed_count as 1.
pub proof fn sdk_word_bytes_name_the_same_word()
    ensures
        word_byte_names(
            spec_watched_word_to_u8(WatchedWord::OpenCount),
            crate::registry::WatchedWord::OpenCount,
        ),
        word_byte_names(
            spec_watched_word_to_u8(WatchedWord::ClosedCount),
            crate::registry::WatchedWord::ClosedCount,
        ),
{
}

/// The daemon's error codes follow the wire (0x01 InterlockReaped, 0x02
/// InterlockNotFound, 0x03 AllocationFailed, 0x04 InvalidRequest), and the
/// SDK reads the answer to each daemon condition back as an error of the same
/// kind.
pub proof fn daemon_errors_read_back_as_their_kind(c: ConditionModel)
    ensures
        ({
            let r = spec_condition_response(c);
            &&& r is Error
            &&& match c {
                ConditionModel::InterlockReaped => r->Error_code == 0x01
                    && spec_daemon_error(r->Error_code, r->Error_message)
                    is InterlockReaped,
                ConditionModel::InterlockNotFound { .. } => r->Error_code == 0x02
                    && spec_daemon_error(r->Error_code, r->Error_message) is InterlockNotFound,
                ConditionModel::AllocationFailed { .. } => r->Error_code == 0x03
                    && spec_daemon_error(r->Error_code, r->Error_message) is AllocationFailed,
                ConditionModel::InvalidRequest { .. } => r->Error_code == 0x04
                    && spec_daemon_error(r->Error_code, r->Error_message) is InvalidRequest,
            }
        }),
{
}

} // verus!
