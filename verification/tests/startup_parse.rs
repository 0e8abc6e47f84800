use pg_gateway::protocol::startup::{classify_startup, startup_code, startup_packet_len};
use pg_gateway::protocol::StartupRequest;
use pg_gateway::{build_startup_packet, parse_startup_params};

#[test]
fn parse_startup_extracts_user_and_database() {
    let raw = build_startup_packet("alice", "appdb");
    let params = parse_startup_params(&raw);
    assert_eq!(params.get("user").map(String::as_str), Some("alice"));
    assert_eq!(params.get("database").map(String::as_str), Some("appdb"));
}

#[test]
fn build_startup_has_protocol_version() {
    let raw = build_startup_packet("u", "d");
    assert!(raw.len() >= 8);
    let version = i32::from_be_bytes([raw[4], raw[5], raw[6], raw[7]]);
    assert_eq!(version, 3 << 16);
}

#[test]
fn built_packet_bytes() {
    let raw = build_startup_packet("u", "d");
    let mut expected = vec![0, 0, 0, 27, 0, 3, 0, 0];
    expected.extend_from_slice(b"user\0u\0database\0d\0\0");
    assert_eq!(raw, expected);
}

#[test]
fn built_packet_is_framed_as_a_startup() {
    let raw = build_startup_packet("alice", "appdb");
    assert_eq!(startup_packet_len(&raw[..4]).unwrap(), raw.len());
    assert_eq!(startup_code(&raw).unwrap(), 196608);
    match classify_startup(raw.clone()).unwrap() {
        StartupRequest::Startup(bytes) => assert_eq!(bytes, raw),
        _ => panic!("expected an ordinary startup"),
    }
}

#[test]
fn built_packet_reads_back_exactly_two_parameters() {
    let raw = build_startup_packet("Zoë", "données");
    let params = parse_startup_params(&raw);
    assert_eq!(params.len(), 2);
    assert_eq!(params.get("user").map(String::as_str), Some("Zoë"));
    assert_eq!(params.get("database").map(String::as_str), Some("données"));
}

#[test]
fn short_packet_has_no_parameters() {
    let params = parse_startup_params(&[0, 0, 0, 7, 0, 3, 0]);
    assert!(params.is_empty());
}

#[test]
fn reading_stops_at_a_missing_terminator() {
    let mut raw = vec![0, 0, 0, 0, 0, 3, 0, 0];
    raw.extend_from_slice(b"user\0alice\0database\0app");
    let params = parse_startup_params(&raw);
    assert_eq!(params.len(), 1);
    assert_eq!(params.get("user").map(String::as_str), Some("alice"));
    assert!(!params.contains_key("database"));
}

#[test]
fn invalid_utf8_is_replaced() {
    let mut raw = vec![0, 0, 0, 0, 0, 3, 0, 0];
    raw.extend_from_slice(b"user\0a\xffb\0\0");
    let params = parse_startup_params(&raw);
    assert_eq!(params.get("user").map(String::as_str), Some("a\u{fffd}b"));
}

#[test]
fn later_parameter_wins() {
    let mut raw = vec![0, 0, 0, 0, 0, 3, 0, 0];
    raw.extend_from_slice(b"user\0a\0user\0b\0\0");
    let params = parse_startup_params(&raw);
    assert_eq!(params.len(), 1);
    assert_eq!(params.get("user").map(String::as_str), Some("b"));
}
