use clashr::daemon::{dispatch, handshake, shutdown_reply, start_reply, status_reply, stop_reply, CoreCommand, Session, Step};
use clashr::ipc::{decode_frame_header, read_frame, write_frame, CoreState, FrameError, Request, Response, MAX_FRAME, PROTOCOL_VERSION};
use clashr::service_client::{check_hello_reply, parse_status, ClientError};

#[test]
fn frame_is_length_prefixed_big_endian() {
    let mut out = Vec::new();
    assert!(write_frame(&mut out, b"abc").is_ok());
    assert_eq!(out, vec![0u8, 0, 0, 3, 97, 98, 99]);
}

#[test]
fn frame_roundtrip_gives_body_back() {
    let mut out = vec![9u8];
    let body = b"{\"Status\":null}".to_vec();
    write_frame(&mut out, &body).unwrap();
    out.extend_from_slice(&[1, 2, 3]);
    let (got, used) = read_frame(&out[1..]).unwrap();
    assert_eq!(got, body);
    assert_eq!(used, 4 + body.len());
}

#[test]
fn empty_frame_roundtrip() {
    let mut out = Vec::new();
    write_frame(&mut out, b"").unwrap();
    assert_eq!(out, vec![0u8, 0, 0, 0]);
    assert_eq!(read_frame(&out).unwrap(), (Vec::new(), 4));
}

#[test]
fn header_decodes_big_endian_length() {
    assert_eq!(decode_frame_header(&[0, 0, 1, 2]), Ok(258));
    assert_eq!(decode_frame_header(&[1, 0, 0, 0]), Ok(16777216));
    assert_eq!(MAX_FRAME, 16 * 1024 * 1024);
}

#[test]
fn header_over_limit_is_refused() {
    assert_eq!(decode_frame_header(&[1, 0, 0, 1]), Err(FrameError::TooLarge { len: 16777217 }));
    assert_eq!(read_frame(&[255, 255, 255, 255, 0]), Err(FrameError::TooLarge { len: 4294967295 }));
}

#[test]
fn short_input_is_unexpected_end() {
    assert_eq!(decode_frame_header(&[0, 0]), Err(FrameError::UnexpectedEnd));
    assert_eq!(read_frame(&[0, 0, 0, 5, 1, 2]), Err(FrameError::UnexpectedEnd));
}

#[test]
fn oversized_payload_is_not_written() {
    let big = vec![0u8; (MAX_FRAME as usize) + 1];
    let mut out = vec![7u8];
    assert_eq!(write_frame(&mut out, &big), Err(FrameError::TooLarge { len: MAX_FRAME as u64 + 1 }));
    assert_eq!(out, vec![7u8]);
}

#[test]
fn handshake_accepts_our_version() {
    match handshake(&Request::Hello { version: PROTOCOL_VERSION }) {
        Ok(Response::Hello { version }) => assert_eq!(version, PROTOCOL_VERSION),
        other => panic!("unexpected {:?}", other),
    }
}

#[test]
fn handshake_rejects_other_version() {
    match handshake(&Request::Hello { version: 7 }) {
        Err(Response::Error { message }) => {
            assert_eq!(message, "protocol version mismatch: peer=7, daemon=1")
        }
        other => panic!("unexpected {:?}", other),
    }
}

#[test]
fn handshake_requires_hello_first() {
    match handshake(&Request::Status) {
        Err(Response::Error { message }) => assert_eq!(message, "first request must be Hello"),
        other => panic!("unexpected {:?}", other),
    }
}

#[test]
fn dispatch_maps_requests_to_commands() {
    match dispatch(Request::StartCore { binary: "/bin/m".to_string(), config: "/c.yaml".to_string() }) {
        Ok(CoreCommand::Start { binary, config }) => {
            assert_eq!(binary, "/bin/m");
            assert_eq!(config, "/c.yaml");
        }
        other => panic!("unexpected {:?}", other),
    }
    assert!(matches!(dispatch(Request::StopCore), Ok(CoreCommand::Stop)));
    assert!(matches!(dispatch(Request::Status), Ok(CoreCommand::Status)));
    assert!(matches!(dispatch(Request::Shutdown), Ok(CoreCommand::Shutdown)));
    match dispatch(Request::Hello { version: 1 }) {
        Err(Response::Error { message }) => {
            assert_eq!(message, "Hello already exchanged on this connection")
        }
        other => panic!("unexpected {:?}", other),
    }
}

#[test]
fn session_serves_commands_only_after_hello() {
    let mut s = Session::new();
    assert!(matches!(s.on_request(Request::StopCore), Step::ReplyAndClose(Response::Error { .. })));
    let mut s = Session::new();
    assert!(matches!(s.on_request(Request::Hello { version: 1 }), Step::Reply(Response::Hello { version: 1 })));
    assert!(matches!(s.on_request(Request::StopCore), Step::Perform(CoreCommand::Stop)));
    assert!(matches!(s.on_request(Request::Hello { version: 1 }), Step::Reply(Response::Error { .. })));
    assert!(matches!(s.on_request(Request::Status), Step::Perform(CoreCommand::Status)));
}

#[test]
fn session_closes_on_wrong_version() {
    let mut s = Session::new();
    assert!(matches!(s.on_request(Request::Hello { version: 2 }), Step::ReplyAndClose(Response::Error { .. })));
    assert!(matches!(s.on_request(Request::Status), Step::ReplyAndClose(Response::Error { .. })));
}

#[test]
fn lifecycle_replies() {
    assert!(matches!(start_reply(Ok(42), false), Response::Status(CoreState::Running { pid: 42 })));
    match start_reply(Err("core is already running".to_string()), false) {
        Response::Error { message } => assert_eq!(message, "start failed: core is already running"),
        other => panic!("unexpected {:?}", other),
    }
    match start_reply(Err("boom".to_string()), true) {
        Response::Error { message } => assert_eq!(message, "restart failed: boom"),
        other => panic!("unexpected {:?}", other),
    }
    assert!(matches!(stop_reply(Ok(())), Response::Status(CoreState::Stopped)));
    match stop_reply(Err("x".to_string())) {
        Response::Error { message } => assert_eq!(message, "stop failed: x"),
        other => panic!("unexpected {:?}", other),
    }
    assert!(matches!(shutdown_reply(), Response::Ack));
}

#[test]
fn status_reply_reports_child_failure_or_stopped() {
    assert!(matches!(status_reply(true, Some(9), None), Response::Status(CoreState::Running { pid: 9 })));
    assert!(matches!(status_reply(true, None, None), Response::Status(CoreState::Running { pid: 0 })));
    match status_reply(false, None, Some("crashed".to_string())) {
        Response::Status(CoreState::Failed { reason }) => assert_eq!(reason, "crashed"),
        other => panic!("unexpected {:?}", other),
    }
    assert!(matches!(status_reply(false, None, None), Response::Status(CoreState::Stopped)));
}

#[test]
fn client_checks_hello_reply() {
    assert!(check_hello_reply(Response::Hello { version: PROTOCOL_VERSION }).is_ok());
    assert!(matches!(check_hello_reply(Response::Hello { version: 3 }), Err(ClientError::VersionMismatch { daemon: 3 })));
    match check_hello_reply(Response::Error { message: "no".to_string() }) {
        Err(ClientError::HandshakeRejected { message }) => assert_eq!(message, "no"),
        other => panic!("unexpected {:?}", other),
    }
    assert!(matches!(check_hello_reply(Response::Ack), Err(ClientError::Unexpected(Response::Ack))));
}

#[test]
fn client_reads_status_replies() {
    assert!(matches!(parse_status(Response::Status(CoreState::Running { pid: 5 })), Ok(CoreState::Running { pid: 5 })));
    assert!(matches!(parse_status(Response::Ack), Ok(CoreState::Stopped)));
    match parse_status(Response::Error { message: "start failed: x".to_string() }) {
        Err(ClientError::Daemon { message }) => assert_eq!(message, "start failed: x"),
        other => panic!("unexpected {:?}", other),
    }
    assert!(matches!(parse_status(Response::Hello { version: 1 }), Err(ClientError::Unexpected(_))));
}
