use pg_gateway::gateway::connection::{
    after_pooled_relay, after_relay, auth_request_needs_password, auth_step, discard_all_query, frontend_query,
    negotiation_step, reply_step, startup_identity, AfterRelay, AuthStep, NegotiationStep,
    ReplyStep, StartupError,
};
use pg_gateway::build_startup_packet;
use pg_gateway::protocol::error::{eof_or_io, map_eof};
use pg_gateway::protocol::frame::{push_tagged, tagged_message_len};
use pg_gateway::protocol::relay::{
    backend_relay_step, client_relay_step, ClientRelayStep, ends_client_stream, relay_session_outcome, BackendRelayStep,
    RelayDirection,
};
use pg_gateway::protocol::startup::{
    classify_startup, gssenc_response_byte, ssl_response_byte, startup_code, startup_packet_len,
    CANCEL_REQUEST_CODE,
};
use pg_gateway::protocol::stream::{ClientSide, ServerSide};
use pg_gateway::protocol::{
    BackendMessage, FrontendMessage, ProtocolError, RelayOutcome, StartupRequest,
    GSSENC_REQUEST_CODE, SSL_REQUEST_CODE,
};

fn special(code: i32) -> Vec<u8> {
    let mut raw = 8i32.to_be_bytes().to_vec();
    raw.extend_from_slice(&code.to_be_bytes());
    raw
}

#[test]
fn tagged_message_round_trip() {
    let mut out = Vec::new();
    push_tagged(&mut out, b'Q', b"SELECT 1\0");
    assert_eq!(out[0], b'Q');
    assert_eq!(&out[1..5], &[0, 0, 0, 13]);
    assert_eq!(&out[5..], b"SELECT 1\0");
    assert_eq!(tagged_message_len(&out[..5]).unwrap(), out.len());
}

#[test]
fn tagged_length_below_four_is_refused() {
    match tagged_message_len(&[b'Z', 0, 0, 0, 3]) {
        Err(ProtocolError::InvalidLength(3)) => {}
        _ => panic!("expected an invalid length"),
    }
    match tagged_message_len(&[b'Z', 0xff, 0xff, 0xff, 0xff]) {
        Err(ProtocolError::InvalidLength(-1)) => {}
        _ => panic!("expected an invalid length"),
    }
    assert_eq!(tagged_message_len(&[b'Z', 0, 0, 0, 4]).unwrap(), 5);
}

#[test]
fn frontend_query_frames_a_nul_terminated_query() {
    let q = frontend_query(b"DISCARD ALL");
    let mut expected = vec![b'Q', 0, 0, 0, 16];
    expected.extend_from_slice(b"DISCARD ALL\0");
    assert_eq!(q, expected);
    assert_eq!(discard_all_query(), expected);
}

#[test]
fn startup_codes_and_lengths() {
    assert!(matches!(startup_code(&[0, 0, 0, 8, 0, 0, 0]), Err(ProtocolError::StartupTooShort)));
    assert_eq!(startup_code(&special(SSL_REQUEST_CODE)).unwrap(), 80877103);
    assert!(matches!(startup_packet_len(&[0, 0, 0, 7]), Err(ProtocolError::InvalidLength(7))));
    assert_eq!(startup_packet_len(&[0, 0, 1, 0]).unwrap(), 256);
}

#[test]
fn startup_requests_are_sorted_by_code() {
    assert_eq!(classify_startup(special(SSL_REQUEST_CODE)).unwrap(), StartupRequest::SslRequest);
    assert_eq!(
        classify_startup(special(GSSENC_REQUEST_CODE)).unwrap(),
        StartupRequest::GssEncRequest
    );
    let mut cancel = 16i32.to_be_bytes().to_vec();
    cancel.extend_from_slice(&CANCEL_REQUEST_CODE.to_be_bytes());
    cancel.extend_from_slice(&[0, 0, 0, 1, 0, 0, 0, 2]);
    assert_eq!(
        classify_startup(cancel.clone()).unwrap(),
        StartupRequest::CancelRequest(cancel)
    );
    assert!(matches!(classify_startup(vec![0, 0, 0, 8]), Err(ProtocolError::StartupTooShort)));
}

#[test]
fn encryption_answers() {
    assert_eq!(ssl_response_byte(false), b'N');
    assert_eq!(ssl_response_byte(true), b'S');
    assert_eq!(gssenc_response_byte(false), b'N');
    assert_eq!(gssenc_response_byte(true), b'S');
}

#[test]
fn early_end_of_stream_is_classified() {
    let eof = std::io::Error::new(std::io::ErrorKind::UnexpectedEof, "eof");
    assert!(matches!(map_eof(eof), ProtocolError::UnexpectedEof));
    let reset = std::io::Error::new(std::io::ErrorKind::ConnectionReset, "reset");
    match map_eof(reset) {
        ProtocolError::Io(e) => assert_eq!(e.kind(), std::io::ErrorKind::ConnectionReset),
        _ => panic!("expected an I/O error"),
    }
}

#[test]
fn negotiation_declines_encryption_and_refuses_cancel() {
    assert_eq!(negotiation_step(StartupRequest::SslRequest), NegotiationStep::RejectSsl);
    assert_eq!(negotiation_step(StartupRequest::GssEncRequest), NegotiationStep::RejectGssEnc);
    assert_eq!(
        negotiation_step(StartupRequest::CancelRequest(vec![1, 2])),
        NegotiationStep::Refuse(StartupError::CancelNotSupported)
    );
    let raw = build_startup_packet("u", "d");
    assert_eq!(negotiation_step(StartupRequest::Startup(raw.clone())), NegotiationStep::Ready(raw));
}

#[test]
fn identity_of_a_startup() {
    let raw = build_startup_packet("alice", "appdb");
    let id = startup_identity(raw.clone()).unwrap();
    assert_eq!(id.user, "alice");
    assert_eq!(id.database, "appdb");
    assert_eq!(id.raw, raw);

    let mut only_user = vec![0, 0, 0, 0, 0, 3, 0, 0];
    only_user.extend_from_slice(b"user\0bob\0\0");
    let id = startup_identity(only_user).unwrap();
    assert_eq!(id.database, "bob");

    let mut no_user = vec![0, 0, 0, 0, 0, 3, 0, 0];
    no_user.extend_from_slice(b"database\0x\0\0");
    assert_eq!(startup_identity(no_user), Err(StartupError::MissingUser));
}

#[test]
fn password_requests() {
    let ok = [b'R', 0, 0, 0, 8, 0, 0, 0, 0];
    let md5 = [b'R', 0, 0, 0, 12, 0, 0, 0, 5, 1, 2, 3, 4];
    assert!(!auth_request_needs_password(&ok));
    assert!(auth_request_needs_password(&md5));
    assert!(!auth_request_needs_password(&[b'R', 0, 0, 0, 8]));
    let sasl = [b'R', 0, 0, 0, 8, 0, 0, 0, 10];
    let sasl_continue = [b'R', 0, 0, 0, 9, 0, 0, 0, 11, b'r'];
    let sasl_final = [b'R', 0, 0, 0, 9, 0, 0, 0, 12, b'v'];
    assert!(auth_request_needs_password(&sasl));
    assert!(auth_request_needs_password(&sasl_continue));
    assert!(!auth_request_needs_password(&sasl_final));
    assert!(!auth_request_needs_password(&[b'S', 0, 0, 0, 8, 0, 0, 0, 5]));
}

#[test]
fn authentication_relay_steps() {
    let msg = |raw: &[u8]| BackendMessage { raw: raw.to_vec() };
    assert_eq!(auth_step(&msg(&[b'Z', 0, 0, 0, 5, b'I'])), AuthStep::Complete);
    assert_eq!(auth_step(&msg(&[b'E', 0, 0, 0, 4])), AuthStep::Rejected);
    assert_eq!(
        auth_step(&msg(&[b'R', 0, 0, 0, 8, 0, 0, 0, 3])),
        AuthStep::ForwardClientMessage
    );
    assert_eq!(auth_step(&msg(&[b'R', 0, 0, 0, 8, 0, 0, 0, 0])), AuthStep::Continue);
    assert_eq!(auth_step(&msg(&[b'R', 0, 0, 0, 9, 0, 0, 0, 12, b'v'])), AuthStep::Continue);
    assert_eq!(auth_step(&msg(&[b'S', 0, 0, 0, 4])), AuthStep::Continue);
    assert_eq!(msg(&[b'K']).tag(), b'K');
}

#[test]
fn reply_steps() {
    assert_eq!(reply_step(b'Z'), ReplyStep::Ready);
    assert_eq!(reply_step(b'E'), ReplyStep::Failed);
    assert_eq!(reply_step(b'C'), ReplyStep::Continue);
}

#[test]
fn relay_directions() {
    let terminate = FrontendMessage { raw: vec![b'X', 0, 0, 0, 4] };
    let query = FrontendMessage { raw: vec![b'Q', 0, 0, 0, 5, 0] };
    assert!(ends_client_stream(&terminate));
    assert!(!ends_client_stream(&query));
    assert_eq!(query.tag(), b'Q');

    let m = BackendMessage { raw: vec![b'Z', 0, 0, 0, 5, b'I'] };
    match backend_relay_step(Ok(m.clone())) {
        BackendRelayStep::Forward(f) => assert_eq!(f, m),
        _ => panic!("expected a forward"),
    }
    assert!(matches!(
        backend_relay_step(Err(ProtocolError::UnexpectedEof)),
        BackendRelayStep::Finished
    ));
    assert!(matches!(
        backend_relay_step(Err(ProtocolError::InvalidLength(2))),
        BackendRelayStep::Failed(ProtocolError::InvalidLength(2))
    ));

    assert_eq!(
        relay_session_outcome(RelayDirection::ClientToServer, Ok(())).unwrap(),
        RelayOutcome::ClientClosed
    );
    assert_eq!(
        relay_session_outcome(RelayDirection::ServerToClient, Ok(())).unwrap(),
        RelayOutcome::ServerClosed
    );
    assert!(matches!(
        relay_session_outcome(RelayDirection::ServerToClient, Err(ProtocolError::StartupTooShort)),
        Err(ProtocolError::StartupTooShort)
    ));
}

#[test]
fn clean_up_after_relay() {
    assert!(matches!(after_relay(Ok(RelayOutcome::ClientClosed)), AfterRelay::ShutdownUpstream));
    assert!(matches!(after_relay(Ok(RelayOutcome::ServerClosed)), AfterRelay::ShutdownClient));
    assert!(matches!(after_relay(Err(ProtocolError::UnexpectedEof)), AfterRelay::Nothing));
    assert!(matches!(
        after_relay(Err(ProtocolError::InvalidLength(1))),
        AfterRelay::Fail(ProtocolError::InvalidLength(1))
    ));
}

#[test]
fn streams_split_into_their_halves() {
    let side = ClientSide::new(1u8, 2u16);
    let (_reader, _writer) = side.split();
    let mut side = ServerSide::new(vec![1u8], String::from("w"));
    side.reader_mut().push(2);
    side.writer_mut().push('x');
    let (_r, _w) = side.split();
}

#[test]
fn transport_errors_by_kind() {
    let e = std::io::Error::new(std::io::ErrorKind::Other, "x");
    assert!(matches!(eof_or_io(true, e), ProtocolError::UnexpectedEof));
    let e = std::io::Error::new(std::io::ErrorKind::Other, "y");
    match eof_or_io(false, e) {
        ProtocolError::Io(inner) => assert_eq!(inner.to_string(), "y"),
        _ => panic!("expected an I/O error"),
    }
}

#[test]
fn pooled_sessions_hold_back_terminate() {
    let terminate = FrontendMessage { raw: vec![b'X', 0, 0, 0, 4] };
    let query = FrontendMessage { raw: vec![b'Q', 0, 0, 0, 5, 0] };
    assert_eq!(client_relay_step(&terminate, false), ClientRelayStep::ForwardAndEnd);
    assert_eq!(client_relay_step(&terminate, true), ClientRelayStep::EndHere);
    assert_eq!(client_relay_step(&query, true), ClientRelayStep::Forward);
    assert_eq!(client_relay_step(&query, false), ClientRelayStep::Forward);
    assert!(matches!(after_pooled_relay(Ok(RelayOutcome::ClientClosed)), AfterRelay::Nothing));
    assert!(matches!(after_pooled_relay(Ok(RelayOutcome::ServerClosed)), AfterRelay::ShutdownClient));
    assert!(matches!(after_pooled_relay(Err(ProtocolError::UnexpectedEof)), AfterRelay::Nothing));
    assert!(matches!(
        after_pooled_relay(Err(ProtocolError::StartupTooShort)),
        AfterRelay::Fail(ProtocolError::StartupTooShort)
    ));
}
