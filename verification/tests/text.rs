use abacus::client::{
    attach_outcome, check_attach_name, check_single_fd, create_outcome, mmap_failed,
    parse_daemon_error, SdkError,
};
use abacus::daemon::{
    fd_dup_failed_response, invalid_tier_response, is_connection_error, map_condition_to_response,
    protocol_fault_response,
};
use abacus::error::{
    AllocationStep, Condition, IoOperation, ProtocolFault, StartupError, TransportError,
};
use abacus::wire::Response;

#[test]
fn condition_text() {
    assert_eq!(Condition::InterlockReaped.message(), "InterlockReaped");
    assert_eq!(
        Condition::InterlockNotFound { name: "cam".into() }.message(),
        "InterlockNotFound: cam"
    );
    assert_eq!(
        Condition::AllocationFailed { step: AllocationStep::Mmap, errno: -12 }.message(),
        "AllocationFailed at Mmap, errno=-12"
    );
    assert_eq!(
        Condition::InvalidRequest { message: "bad".into() }.message(),
        "InvalidRequest: bad"
    );
}

#[test]
fn protocol_fault_text() {
    assert_eq!(
        ProtocolFault::Truncated { needed: 10, have: 3 }.message(),
        "truncated: needed 10, have 3"
    );
    assert_eq!(
        ProtocolFault::FrameTooLarge { len: 5000, max: 4096 }.message(),
        "frame too large: 5000 > 4096"
    );
    assert_eq!(
        ProtocolFault::UnsupportedVersion { version: 99 }.message(),
        "unsupported version: 99"
    );
    assert_eq!(ProtocolFault::UnknownTag { tag: 0x0a }.message(), "unknown tag: 0x0a");
    assert_eq!(ProtocolFault::InvalidUtf8.message(), "invalid UTF-8");
}

#[test]
fn transport_and_startup_text() {
    assert_eq!(
        TransportError::Io { operation: IoOperation::SendMsg, errno: 32 }.message(),
        "I/O error in SendMsg: errno 32"
    );
    assert_eq!(
        TransportError::Protocol { fault: ProtocolFault::InvalidUtf8 }.message(),
        "protocol fault: invalid UTF-8"
    );
    assert_eq!(TransportError::ConnectionClosed.message(), "connection closed by peer");
    assert_eq!(TransportError::WouldBlock.message(), "would block (no data available)");
    assert_eq!(
        TransportError::SocketPathOccupied { path: "/run/a".into(), live_daemon: true }.message(),
        "socket path occupied by a live daemon: /run/a"
    );
    assert_eq!(
        TransportError::SocketPathOccupied { path: "/run/a".into(), live_daemon: false }.message(),
        "socket path occupied by a non-socket object: /run/a"
    );
    let s: StartupError = TransportError::ConnectionClosed.into();
    assert_eq!(s.message(), "transport: connection closed by peer");
    let s: StartupError = Condition::InterlockReaped.into();
    assert_eq!(s.message(), "allocation: InterlockReaped");
    assert_eq!(
        StartupError::EventLoopFailed { errno: 4 }.message(),
        "event loop: poll failed permanently, errno=4"
    );
}

#[test]
fn daemon_error_codes_map_to_sdk_errors() {
    assert!(matches!(parse_daemon_error(1, "x".into()), SdkError::InterlockReaped));
    assert!(matches!(parse_daemon_error(2, "n".into()), SdkError::InterlockNotFound { ref name } if name == "n"));
    assert!(matches!(parse_daemon_error(3, "m".into()), SdkError::AllocationFailed { ref message } if message == "m"));
    assert!(matches!(parse_daemon_error(4, "m".into()), SdkError::InvalidRequest { ref message } if message == "m"));
    assert!(matches!(parse_daemon_error(0xab, "m".into()), SdkError::UnexpectedResponse { ref message } if message == "unknown daemon error 0xab: m"));
}

#[test]
fn sdk_error_text() {
    assert_eq!(SdkError::InterlockReaped.message(), "interlock reaped");
    assert_eq!(SdkError::InterlockNotFound { name: "a".into() }.message(), "interlock not found: a");
    let e: SdkError = TransportError::WouldBlock.into();
    assert_eq!(e.message(), "transport: would block (no data available)");
    assert_eq!(
        mmap_failed(&Condition::InterlockReaped).message(),
        "mmap failed: InterlockReaped"
    );
}

#[test]
fn response_outcomes() {
    assert!(create_outcome(Response::Created { id: 3 }).is_ok());
    assert!(matches!(create_outcome(Response::Attached { id: 3 }), Err(SdkError::UnexpectedResponse { ref message }) if message == "unexpected response type for create"));
    assert!(attach_outcome(Response::Attached { id: 3 }).is_ok());
    assert!(matches!(attach_outcome(Response::Created { id: 3 }), Err(SdkError::UnexpectedResponse { ref message }) if message == "unexpected response type for attach"));
    assert!(matches!(attach_outcome(Response::interlock_not_found("q")), Err(SdkError::InterlockNotFound { ref name }) if name == "InterlockNotFound: q"));
}

#[test]
fn single_fd_and_clock_attach_checks() {
    assert!(check_single_fd(1).is_ok());
    assert!(matches!(
        check_single_fd(0),
        Err(SdkError::Transport(TransportError::Protocol {
            fault: ProtocolFault::Truncated { needed: 1, have: 0 }
        }))
    ));
    assert!(matches!(check_attach_name("clock"), Err(SdkError::InvalidRequest { ref message }) if message == "use client.clock() to access the system clock"));
    assert!(check_attach_name("clocks").is_ok());
}

#[test]
fn condition_responses() {
    assert_eq!(
        map_condition_to_response(&Condition::InterlockNotFound { name: "cam".into() }),
        Response::Error { code: 2, message: "InterlockNotFound: InterlockNotFound: cam".into() }
    );
    assert_eq!(map_condition_to_response(&Condition::InterlockReaped), Response::interlock_reaped());
    assert_eq!(
        map_condition_to_response(&Condition::AllocationFailed {
            step: AllocationStep::Ftruncate,
            errno: 28
        }),
        Response::Error { code: 3, message: "AllocationFailed at Ftruncate, errno=28".into() }
    );
    assert_eq!(
        map_condition_to_response(&Condition::InvalidRequest { message: "x".into() }),
        Response::Error { code: 4, message: "InvalidRequest: x".into() }
    );
    assert_eq!(
        protocol_fault_response(&ProtocolFault::UnknownTag { tag: 0xff }),
        Response::Error { code: 4, message: "unknown tag: 0xff".into() }
    );
    assert_eq!(invalid_tier_response(), Response::Error { code: 4, message: "invalid tier".into() });
    assert_eq!(
        fd_dup_failed_response(&Condition::AllocationFailed {
            step: AllocationStep::MemfdCreate,
            errno: 24
        }),
        Response::Error {
            code: 3,
            message: "fd dup failed: AllocationFailed at MemfdCreate, errno=24".into()
        }
    );
}

#[test]
fn connection_error_classification() {
    assert!(is_connection_error(&TransportError::ConnectionClosed, 32, 104));
    assert!(is_connection_error(&TransportError::Io { operation: IoOperation::Write, errno: 32 }, 32, 104));
    assert!(is_connection_error(&TransportError::Io { operation: IoOperation::RecvMsg, errno: 104 }, 32, 104));
    assert!(!is_connection_error(&TransportError::Io { operation: IoOperation::Accept, errno: 32 }, 32, 104));
    assert!(!is_connection_error(&TransportError::Io { operation: IoOperation::Read, errno: 11 }, 32, 104));
    assert!(!is_connection_error(&TransportError::WouldBlock, 32, 104));
}

#[test]
fn numbers_print_in_full_at_their_extremes() {
    assert_eq!(
        Condition::AllocationFailed { step: AllocationStep::MemfdCreate, errno: i32::MIN }.message(),
        "AllocationFailed at MemfdCreate, errno=-2147483648"
    );
    assert_eq!(
        Condition::AllocationFailed { step: AllocationStep::Ftruncate, errno: 0 }.message(),
        "AllocationFailed at Ftruncate, errno=0"
    );
    assert_eq!(
        ProtocolFault::FrameTooLarge { len: usize::MAX, max: 4096 }.message(),
        format!("frame too large: {} > 4096", usize::MAX)
    );
    assert_eq!(ProtocolFault::UnknownTag { tag: 0 }.message(), "unknown tag: 0x00");
    assert!(matches!(
        parse_daemon_error(0x10, String::new()),
        SdkError::UnexpectedResponse { ref message } if message == "unknown daemon error 0x10: "
    ));
}
