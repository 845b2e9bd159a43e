//! Error vocabulary shared by the daemon, the wire protocol and the SDK.

use vstd::prelude::*;
use vstd::string::StringExecFns;

verus! {

/// Daemon-domain conditions.
#[derive(Debug, Clone, PartialEq, Eq)]
pub enum Condition {
    InterlockReaped,
    InterlockNotFound { name: String },
    AllocationFailed { step: AllocationStep, errno: i32 },
    InvalidRequest { message: String },
}

/// The allocation step that failed while creating an interlock.
#[derive(Debug, Clone, Copy, PartialEq, Eq, Structural)]
pub enum AllocationStep {
    MemfdCreate,
    Ftruncate,
    Mmap,
}

/// The transport operation an I/O error came from.
#[derive(Debug, Clone, Copy, PartialEq, Eq, Structural)]
pub enum IoOperation {
    Bind,
    Listen,
    Accept,
    Connect,
    SendMsg,
    RecvMsg,
    Read,
    Write,
    Stat,
    Unlink,
    SetNonBlocking,
    Poll,
}

/// A violation of the wire protocol.
#[derive(Debug, Clone, Copy, PartialEq, Eq, Structural)]
pub enum ProtocolFault {
    Truncated { needed: usize, have: usize },
    FrameTooLarge { len: usize, max: usize },
    UnsupportedVersion { version: u8 },
    UnknownTag { tag: u8 },
    InvalidUtf8,
}

/// Transport errors.
#[derive(Debug, Clone, PartialEq, Eq)]
pub enum TransportError {
    Protocol { fault: ProtocolFault },
    Io { operation: IoOperation, errno: i32 },
    ConnectionClosed,
    WouldBlock,
    SocketPathOccupied { path: String, live_daemon: bool },
}

/// Daemon startup errors.
#[derive(Debug)]
pub enum StartupError {
    Transport(TransportError),
    Allocation(Condition),
    EventLoopFailed { errno: i32 },
}


/// The mathematical value of a [`Condition`]: strings as their characters.
pub enum ConditionModel {
    InterlockReaped,
    InterlockNotFound { name: Seq<char> },
    AllocationFailed { step: AllocationStep, errno: i32 },
    InvalidRequest { message: Seq<char> },
}

impl View for Condition {
    type V = ConditionModel;

    open spec fn view(&self) -> ConditionModel {
        match self {
            Condition::InterlockReaped => ConditionModel::InterlockReaped,
            Condition::InterlockNotFound { name } => ConditionModel::InterlockNotFound {
                name: name@,
            },
            Condition::AllocationFailed { step, errno } => ConditionModel::AllocationFailed {
                step: *step,
                errno: *errno,
            },
            Condition::InvalidRequest { message } => ConditionModel::InvalidRequest {
                message: message@,
            },
        }
    }
}

impl From<TransportError> for StartupError {
    fn from(e: TransportError) -> (r: Self) {
        StartupError::Transport(e)
    }
}

impl vstd::std_specs::convert::FromSpecImpl<TransportError> for StartupError {
    open spec fn obeys_from_spec() -> bool {
        true
    }

    open spec fn from_spec(e: TransportError) -> Self {
        StartupError::Transport(e)
    }
}

impl From<Condition> for StartupError {
    fn from(e: Condition) -> (r: Self) {
        StartupError::Allocation(e)
    }
}

impl vstd::std_specs::convert::FromSpecImpl<Condition> for StartupError {
    open spec fn obeys_from_spec() -> bool {
        true
    }

    open spec fn from_spec(e: Condition) -> Self {
        StartupError::Allocation(e)
    }
}

// -- Text --

/// The character of a decimal digit.
pub open spec fn digit_char(d: nat) -> char {
    (48 + d) as char
}

/// The decimal digits of a natural number, most significant first.
pub open spec fn decimal(n: nat) -> Seq<char>
    decreases n,
{
    if n < 10 {
        seq![digit_char(n)]
    } else {
        decimal(n / 10).push(digit_char(n % 10))
    }
}

/// A signed integer in decimal: a minus sign before negative values.
pub open spec fn signed_decimal(n: int) -> Seq<char> {
    if n < 0 {
        seq!['-'] + decimal((-n) as nat)
    } else {
        decimal(n as nat)
    }
}

/// The character of a lowercase hexadecimal digit.
pub open spec fn hex_char(d: nat) -> char {
    if d < 10 {
        (48 + d) as char
    } else {
        (87 + d) as char
    }
}

/// A byte as exactly two lowercase hexadecimal digits.
pub open spec fn hex_byte(b: u8) -> Seq<char> {
    seq![hex_char(b as nat / 16), hex_char(b as nat % 16)]
}

/// The one-character string of a hexadecimal digit (a decimal digit below
/// ten).
fn digit_str(d: u64) -> (s: &'static str)
    requires
        d < 16,
    ensures
        s@ == seq![hex_char(d as nat)],
{
    proof {
        reveal_strlit("0");
        reveal_strlit("1");
        reveal_strlit("2");
        reveal_strlit("3");
        reveal_strlit("4");
        reveal_strlit("5");
        reveal_strlit("6");
        reveal_strlit("7");
        reveal_strlit("8");
        reveal_strlit("9");
        reveal_strlit("a");
        reveal_strlit("b");
        reveal_strlit("c");
        reveal_strlit("d");
        reveal_strlit("e");
        reveal_strlit("f");
    }
    let s = match d {
        0 => "0",
        1 => "1",
        2 => "2",
        3 => "3",
        4 => "4",
        5 => "5",
        6 => "6",
        7 => "7",
        8 => "8",
        9 => "9",
        10 => "a",
        11 => "b",
        12 => "c",
        13 => "d",
        14 => "e",
        _ => "f",
    };
    assert(s@ =~= seq![hex_char(d as nat)]);
    s
}

/// The value in decimal, most significant digit first.
pub(crate) fn decimal_text(n: u64) -> (s: String)
    ensures
        s@ == decimal(n as nat),
    decreases n,
{
    if n < 10 {
        String::from_str(digit_str(n))
    } else {
        let head = decimal_text(n / 10);
        let s = head.concat(digit_str(n % 10));
        assert(s@ =~= decimal((n / 10) as nat).push(digit_char((n % 10) as nat)));
        s
    }
}

/// The value in decimal, a minus sign first when negative.
fn signed_decimal_text(n: i32) -> (s: String)
    ensures
        s@ == signed_decimal(n as int),
{
    if n < 0 {
        let magnitude = (0i64 - n as i64) as u64;
        let s = String::from_str("-").concat(decimal_text(magnitude).as_str());
        proof {
            reveal_strlit("-");
        }
        assert(s@ =~= seq!['-'] + decimal((-n) as nat));
        s
    } else {
        decimal_text(n as u64)
    }
}

/// The byte as exactly two lowercase hexadecimal digits.
pub(crate) fn hex_byte_text(b: u8) -> (s: String)
    ensures
        s@ == hex_byte(b),
{
    let s = String::from_str(digit_str((b / 16) as u64)).concat(digit_str((b % 16) as u64));
    assert(s@ =~= hex_byte(b));
    s
}

pub open spec fn allocation_step_text(step: AllocationStep) -> Seq<char> {
    match step {
        AllocationStep::MemfdCreate => "MemfdCreate"@,
        AllocationStep::Ftruncate => "Ftruncate"@,
        AllocationStep::Mmap => "Mmap"@,
    }
}

pub open spec fn io_operation_text(op: IoOperation) -> Seq<char> {
    match op {
        IoOperation::Bind => "Bind"@,
        IoOperation::Listen => "Listen"@,
        IoOperation::Accept => "Accept"@,
        IoOperation::Connect => "Connect"@,
        IoOperation::SendMsg => "SendMsg"@,
        IoOperation::RecvMsg => "RecvMsg"@,
        IoOperation::Read => "Read"@,
        IoOperation::Write => "Write"@,
        IoOperation::Stat => "Stat"@,
        IoOperation::Unlink => "Unlink"@,
        IoOperation::SetNonBlocking => "SetNonBlocking"@,
        IoOperation::Poll => "Poll"@,
    }
}

pub open spec fn condition_text(c: Condition) -> Seq<char> {
    match c {
        Condition::InterlockReaped => "InterlockReaped"@,
        Condition::InterlockNotFound { name } => "InterlockNotFound: "@ + name@,
        Condition::AllocationFailed { step, errno } => "AllocationFailed at "@
            + allocation_step_text(step) + ", errno="@ + signed_decimal(errno as int),
        Condition::InvalidRequest { message } => "InvalidRequest: "@ + message@,
    }
}

pub open spec fn protocol_fault_text(f: ProtocolFault) -> Seq<char> {
    match f {
        ProtocolFault::Truncated { needed, have } => "truncated: needed "@ + decimal(needed as nat)
            + ", have "@ + decimal(have as nat),
        ProtocolFault::FrameTooLarge { len, max } => "frame too large: "@ + decimal(len as nat)
            + " > "@ + decimal(max as nat),
        ProtocolFault::UnsupportedVersion { version } => "unsupported version: "@ + decimal(
            version as nat,
        ),
        ProtocolFault::UnknownTag { tag } => "unknown tag: 0x"@ + hex_byte(tag),
        ProtocolFault::InvalidUtf8 => "invalid UTF-8"@,
    }
}

pub open spec fn transport_error_text(e: TransportError) -> Seq<char> {
    match e {
        TransportError::Protocol { fault } => "protocol fault: "@ + protocol_fault_text(fault),
        TransportError::Io { operation, errno } => "I/O error in "@ + io_operation_text(operation)
            + ": errno "@ + signed_decimal(errno as int),
        TransportError::ConnectionClosed => "connection closed by peer"@,
        TransportError::WouldBlock => "would block (no data available)"@,
        TransportError::SocketPathOccupied { path, live_daemon } => if live_daemon {
            "socket path occupied by a live daemon: "@ + path@
        } else {
            "socket path occupied by a non-socket object: "@ + path@
        },
    }
}

pub open spec fn startup_error_text(e: StartupError) -> Seq<char> {
    match e {
        StartupError::Transport(t) => "transport: "@ + transport_error_text(t),
        StartupError::Allocation(c) => "allocation: "@ + condition_text(c),
        StartupError::EventLoopFailed { errno } => "event loop: poll failed permanently, errno="@
            + signed_decimal(errno as int),
    }
}

impl AllocationStep {
    /// The step's name, as `{:?}` prints it.
    pub fn name(&self) -> (s: String)
        ensures
            s@ == allocation_step_text(*self),
    {
        match self {
            AllocationStep::MemfdCreate => String::from_str("MemfdCreate"),
            AllocationStep::Ftruncate => String::from_str("Ftruncate"),
            AllocationStep::Mmap => String::from_str("Mmap"),
        }
    }
}

impl IoOperation {
    /// The operation's name, as `{:?}` prints it.
    pub fn name(&self) -> (s: String)
        ensures
            s@ == io_operation_text(*self),
    {
        match self {
            IoOperation::Bind => String::from_str("Bind"),
            IoOperation::Listen => String::from_str("Listen"),
            IoOperation::Accept => String::from_str("Accept"),
            IoOperation::Connect => String::from_str("Connect"),
            IoOperation::SendMsg => String::from_str("SendMsg"),
            IoOperation::RecvMsg => String::from_str("RecvMsg"),
            IoOperation::Read => String::from_str("Read"),
            IoOperation::Write => String::from_str("Write"),
            IoOperation::Stat => String::from_str("Stat"),
            IoOperation::Unlink => String::from_str("Unlink"),
            IoOperation::SetNonBlocking => String::from_str("SetNonBlocking"),
            IoOperation::Poll => String::from_str("Poll"),
        }
    }
}

impl Condition {
    /// The condition as text.
    pub fn message(&self) -> (s: String)
        ensures
            s@ == condition_text(*self),
    {
        match self {
            Condition::InterlockReaped => String::from_str("InterlockReaped"),
            Condition::InterlockNotFound { name } => String::from_str("InterlockNotFound: ").concat(
                name.as_str(),
            ),
            Condition::AllocationFailed { step, errno } => {
                let step_name = step.name();
                let errno_text = signed_decimal_text(*errno);
                String::from_str("AllocationFailed at ").concat(step_name.as_str()).concat(
                    ", errno=",
                ).concat(errno_text.as_str())
            },
            Condition::InvalidRequest { message } => String::from_str("InvalidRequest: ").concat(
                message.as_str(),
            ),
        }
    }
}

impl ProtocolFault {
    /// The fault as text.
    pub fn message(&self) -> (s: String)
        ensures
            s@ == protocol_fault_text(*self),
    {
        match self {
            ProtocolFault::Truncated { needed, have } => {
                let a = decimal_text(*needed as u64);
                let b = decimal_text(*have as u64);
                String::from_str("truncated: needed ").concat(a.as_str()).concat(", have ").concat(
                    b.as_str(),
                )
            },
            ProtocolFault::FrameTooLarge { len, max } => {
                let a = decimal_text(*len as u64);
                let b = decimal_text(*max as u64);
                String::from_str("frame too large: ").concat(a.as_str()).concat(" > ").concat(
                    b.as_str(),
                )
            },
            ProtocolFault::UnsupportedVersion { version } => {
                let a = decimal_text(*version as u64);
                String::from_str("unsupported version: ").concat(a.as_str())
            },
            ProtocolFault::UnknownTag { tag } => {
                let h = hex_byte_text(*tag);
                String::from_str("unknown tag: 0x").concat(h.as_str())
            },
            ProtocolFault::InvalidUtf8 => String::from_str("invalid UTF-8"),
        }
    }
}

impl TransportError {
    /// The error as text.
    pub fn message(&self) -> (s: String)
        ensures
            s@ == transport_error_text(*self),
    {
        match self {
            TransportError::Protocol { fault } => {
                let f = fault.message();
                String::from_str("protocol fault: ").concat(f.as_str())
            },
            TransportError::Io { operation, errno } => {
                let op = operation.name();
                let e = signed_decimal_text(*errno);
                String::from_str("I/O error in ").concat(op.as_str()).concat(": errno ").concat(
                    e.as_str(),
                )
            },
            TransportError::ConnectionClosed => String::from_str("connection closed by peer"),
            TransportError::WouldBlock => String::from_str("would block (no data available)"),
            TransportError::SocketPathOccupied { path, live_daemon } => {
                if *live_daemon {
                    String::from_str("socket path occupied by a live daemon: ").concat(
                        path.as_str(),
                    )
                } else {
                    String::from_str("socket path occupied by a non-socket object: ").concat(
                        path.as_str(),
                    )
                }
            },
        }
    }
}

impl StartupError {
    /// The error as text.
    pub fn message(&self) -> (s: String)
        ensures
            s@ == startup_error_text(*self),
    {
        match self {
            StartupError::Transport(e) => {
                let t = e.message();
                String::from_str("transport: ").concat(t.as_str())
            },
            StartupError::Allocation(e) => {
                let t = e.message();
                String::from_str("allocation: ").concat(t.as_str())
            },
            StartupError::EventLoopFailed { errno } => {
                let e = signed_decimal_text(*errno);
                String::from_str("event loop: poll failed permanently, errno=").concat(e.as_str())
            },
        }
    }
}
} // verus!
