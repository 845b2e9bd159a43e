use abacus::error::ProtocolFault;
use abacus::wire::{
    check_fd_count, decode_request, decode_response, decode_string, encode_request,
    encode_response, expected_fd_count, frame_payload_len, Request, Response, MAX_MESSAGE_SIZE,
    TAG_CREATE_INTERLOCK,
};

#[test]
fn create_interlock_round_trip() {
    let req = Request::CreateInterlock {
        name: "cam0".into(),
        tier: 0,
        watched_name: None,
        watched_word: None,
        interval_ns: None,
        conditions: None,
    };
    let frame = encode_request(&req).unwrap();
    let decoded = decode_request(&frame[4..]).unwrap();
    assert_eq!(decoded, req);
}

#[test]
fn create_wait_counter_round_trip() {
    let req = Request::CreateInterlock {
        name: "frame_done".into(),
        tier: 1,
        watched_name: Some("cam0".into()),
        watched_word: Some(1),
        interval_ns: None,
        conditions: None,
    };
    let frame = encode_request(&req).unwrap();
    let decoded = decode_request(&frame[4..]).unwrap();
    assert_eq!(decoded, req);
}

#[test]
fn create_wait_counter_open_count_round_trip() {
    let req = Request::CreateInterlock {
        name: "startup_wait".into(),
        tier: 1,
        watched_name: Some("pipeline".into()),
        watched_word: Some(0),
        interval_ns: None,
        conditions: None,
    };
    let frame = encode_request(&req).unwrap();
    let decoded = decode_request(&frame[4..]).unwrap();
    assert_eq!(decoded, req);
}

#[test]
fn create_wait_timer_round_trip() {
    let req = Request::CreateInterlock {
        name: "timeout_5ms".into(),
        tier: 2,
        watched_name: None,
        watched_word: None,
        interval_ns: None,
        conditions: None,
    };
    let frame = encode_request(&req).unwrap();
    let decoded = decode_request(&frame[4..]).unwrap();
    assert_eq!(decoded, req);
}

#[test]
fn create_wait_cron_round_trip() {
    let req = Request::CreateInterlock {
        name: "cron_33ms".into(),
        tier: 3,
        watched_name: None,
        watched_word: None,
        interval_ns: Some(33_000_000),
        conditions: None,
    };
    let frame = encode_request(&req).unwrap();
    let decoded = decode_request(&frame[4..]).unwrap();
    assert_eq!(decoded, req);
}

#[test]
fn create_wait_barrier_round_trip() {
    let req = Request::CreateInterlock {
        name: "barrier_all".into(),
        tier: 4,
        watched_name: None,
        watched_word: None,
        interval_ns: None,
        conditions: Some(vec![("cam0".into(), 1, 100), ("cam1".into(), 0, 50)]),
    };
    let frame = encode_request(&req).unwrap();
    let decoded = decode_request(&frame[4..]).unwrap();
    assert_eq!(decoded, req);
}

#[test]
fn attach_round_trip() {
    let req = Request::AttachInterlock { name: "sensor".into() };
    let frame = encode_request(&req).unwrap();
    let decoded = decode_request(&frame[4..]).unwrap();
    assert_eq!(decoded, req);
}

#[test]
fn response_created_round_trip() {
    let resp = Response::Created { id: 42 };
    let frame = encode_response(&resp).unwrap();
    let decoded = decode_response(&frame[4..]).unwrap();
    assert_eq!(decoded, resp);
}

#[test]
fn response_error_round_trip() {
    let resp = Response::interlock_not_found("missing");
    let frame = encode_response(&resp).unwrap();
    let decoded = decode_response(&frame[4..]).unwrap();
    assert_eq!(decoded, resp);
}

#[test]
fn unknown_version_rejected() {
    let data = [99, TAG_CREATE_INTERLOCK, 0];
    assert!(matches!(
        decode_request(&data),
        Err(ProtocolFault::UnsupportedVersion { version: 99 })
    ));
}

#[test]
fn expected_fd_count_created() {
    assert_eq!(expected_fd_count(&Response::Created { id: 1 }), 1);
}

#[test]
fn expected_fd_count_attached() {
    assert_eq!(expected_fd_count(&Response::Attached { id: 1 }), 1);
}

#[test]
fn expected_fd_count_error() {
    assert_eq!(expected_fd_count(&Response::allocation_failed("x")), 0);
}

// -- Exact bytes --

#[test]
fn attach_frame_bytes() {
    let req = Request::AttachInterlock { name: "ab".into() };
    let frame = encode_request(&req).unwrap();
    assert_eq!(frame, vec![6, 0, 0, 0, 1, 0x02, 2, 0, b'a', b'b']);
}

#[test]
fn created_frame_bytes() {
    let frame = encode_response(&Response::Created { id: 0x0102 }).unwrap();
    assert_eq!(frame, vec![10, 0, 0, 0, 1, 0x81, 0x02, 0x01, 0, 0, 0, 0, 0, 0]);
}

#[test]
fn error_frame_bytes() {
    let frame = encode_response(&Response::Error { code: 4, message: "é".into() }).unwrap();
    assert_eq!(frame, vec![7, 0, 0, 0, 1, 0x88, 4, 2, 0, 0xc3, 0xa9]);
}

#[test]
fn cron_frame_carries_interval_le() {
    let req = Request::CreateInterlock {
        name: "c".into(),
        tier: 3,
        watched_name: None,
        watched_word: None,
        interval_ns: Some(0x0a0b),
        conditions: None,
    };
    let frame = encode_request(&req).unwrap();
    assert_eq!(
        frame,
        vec![14, 0, 0, 0, 1, 1, 1, 0, b'c', 3, 0x0b, 0x0a, 0, 0, 0, 0, 0, 0]
    );
}

#[test]
fn unicode_names_round_trip() {
    let req = Request::AttachInterlock { name: "カメラ-ü".into() };
    let frame = encode_request(&req).unwrap();
    assert_eq!(decode_request(&frame[4..]).unwrap(), req);
}

#[test]
fn error_with_empty_message_round_trip() {
    let resp = Response::Error { code: 9, message: String::new() };
    let frame = encode_response(&resp).unwrap();
    assert_eq!(decode_response(&frame[4..]).unwrap(), resp);
}

// -- Encoder faults --

#[test]
fn wait_counter_without_word_is_refused() {
    let req = Request::CreateInterlock {
        name: "w".into(),
        tier: 1,
        watched_name: Some("src".into()),
        watched_word: None,
        interval_ns: None,
        conditions: None,
    };
    assert_eq!(encode_request(&req), Err(ProtocolFault::Truncated { needed: 1, have: 0 }));
}

#[test]
fn long_name_is_refused() {
    let req = Request::AttachInterlock { name: "x".repeat(70_000) };
    assert_eq!(
        encode_request(&req),
        Err(ProtocolFault::FrameTooLarge { len: 70_000, max: 65_535 })
    );
}

#[test]
fn long_barrier_condition_name_is_refused() {
    let req = Request::CreateInterlock {
        name: "b".into(),
        tier: 4,
        watched_name: None,
        watched_word: None,
        interval_ns: None,
        conditions: Some(vec![
            ("ok".into(), 0, 1),
            ("y".repeat(66_000), 1, 2),
            ("z".repeat(67_000), 1, 2),
        ]),
    };
    assert_eq!(
        encode_request(&req),
        Err(ProtocolFault::FrameTooLarge { len: 66_000, max: 65_535 })
    );
}

#[test]
fn oversized_payload_is_refused() {
    let req = Request::AttachInterlock { name: "x".repeat(5000) };
    assert_eq!(
        encode_request(&req),
        Err(ProtocolFault::FrameTooLarge { len: 5004, max: MAX_MESSAGE_SIZE })
    );
}

#[test]
fn tier_one_ignores_fields_of_other_tiers() {
    let req = Request::CreateInterlock {
        name: "n".into(),
        tier: 0,
        watched_name: Some("ignored".into()),
        watched_word: Some(1),
        interval_ns: Some(5),
        conditions: None,
    };
    let frame = encode_request(&req).unwrap();
    assert_eq!(frame, vec![6, 0, 0, 0, 1, 1, 1, 0, b'n', 0]);
}

// -- Decoder faults --

#[test]
fn short_payload_is_truncated() {
    assert_eq!(decode_request(&[1]), Err(ProtocolFault::Truncated { needed: 2, have: 1 }));
    assert_eq!(decode_response(&[]), Err(ProtocolFault::Truncated { needed: 2, have: 0 }));
}

#[test]
fn unknown_tags_are_refused() {
    assert_eq!(decode_request(&[1, 0x7f]), Err(ProtocolFault::UnknownTag { tag: 0x7f }));
    assert_eq!(decode_response(&[1, 0x01]), Err(ProtocolFault::UnknownTag { tag: 0x01 }));
}

#[test]
fn create_without_tier_is_truncated() {
    // version, tag, name "a", no tier byte.
    let data = [1, 1, 1, 0, b'a'];
    assert_eq!(decode_request(&data), Err(ProtocolFault::Truncated { needed: 6, have: 5 }));
}

#[test]
fn cron_without_interval_is_truncated() {
    let data = [1, 1, 1, 0, b'a', 3, 1, 2];
    assert_eq!(decode_request(&data), Err(ProtocolFault::Truncated { needed: 14, have: 6 }));
}

#[test]
fn barrier_condition_missing_threshold_is_truncated() {
    // count 1, condition name "c", word 1, only 3 threshold bytes.
    let data = [1, 1, 1, 0, b'a', 4, 1, 0, 1, 0, b'c', 1, 9, 9, 9];
    assert_eq!(decode_request(&data), Err(ProtocolFault::Truncated { needed: 18, have: 13 }));
}

#[test]
fn invalid_utf8_is_refused() {
    assert_eq!(decode_string(&[2, 0, 0xff, 0xfe]), Err(ProtocolFault::InvalidUtf8));
    assert_eq!(decode_request(&[1, 2, 1, 0, 0x80]), Err(ProtocolFault::InvalidUtf8));
}

#[test]
fn string_longer_than_data_is_truncated() {
    assert_eq!(decode_string(&[5, 0, b'a']), Err(ProtocolFault::Truncated { needed: 7, have: 3 }));
}

#[test]
fn created_without_id_is_truncated() {
    assert_eq!(
        decode_response(&[1, 0x81, 1, 2]),
        Err(ProtocolFault::Truncated { needed: 10, have: 4 })
    );
    assert_eq!(
        decode_response(&[1, 0x88]),
        Err(ProtocolFault::Truncated { needed: 3, have: 2 })
    );
}

#[test]
fn error_with_only_code_has_empty_message() {
    assert_eq!(
        decode_response(&[1, 0x88, 3]),
        Ok(Response::Error { code: 3, message: String::new() })
    );
}

#[test]
fn response_constructors_carry_codes_and_messages() {
    assert_eq!(
        Response::interlock_reaped(),
        Response::Error { code: 1, message: "InterlockReaped".into() }
    );
    assert_eq!(
        Response::interlock_not_found("cam"),
        Response::Error { code: 2, message: "InterlockNotFound: cam".into() }
    );
    assert_eq!(
        Response::allocation_failed("oom"),
        Response::Error { code: 3, message: "oom".into() }
    );
    assert_eq!(
        Response::invalid_request("bad"),
        Response::Error { code: 4, message: "bad".into() }
    );
}

#[test]
fn frame_prefix_limits() {
    assert_eq!(frame_payload_len(&[0, 16, 0, 0]), Ok(4096));
    assert_eq!(
        frame_payload_len(&[1, 16, 0, 0]),
        Err(ProtocolFault::FrameTooLarge { len: 4097, max: 4096 })
    );
}

#[test]
fn fd_count_must_match_response() {
    assert_eq!(check_fd_count(&Response::Created { id: 1 }, 1), Ok(()));
    assert_eq!(
        check_fd_count(&Response::Attached { id: 1 }, 0),
        Err(ProtocolFault::Truncated { needed: 1, have: 0 })
    );
    assert_eq!(
        check_fd_count(&Response::interlock_reaped(), 2),
        Err(ProtocolFault::Truncated { needed: 0, have: 2 })
    );
}
