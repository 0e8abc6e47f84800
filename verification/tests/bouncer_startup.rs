use pg_gateway::bouncer::startup::{
    parse_startup_body, read_cstr, special_request, startup_frame, StartupError, StartupFrame,
    StartupMessage,
};
use pg_gateway::strmap::StrMap;

fn message(pairs: &[(&str, &str)]) -> StartupMessage {
    let mut params = StrMap::new();
    for (k, v) in pairs {
        params.insert(k.to_string(), v.to_string());
    }
    StartupMessage { params }
}

#[test]
fn user_and_database_defaults() {
    let m = message(&[]);
    assert_eq!(m.user(), "postgres");
    assert_eq!(m.database(), "postgres");
    let m = message(&[("user", "alice")]);
    assert_eq!(m.user(), "alice");
    assert_eq!(m.database(), "alice");
    let m = message(&[("user", "alice"), ("database", "app")]);
    assert_eq!(m.database(), "app");
}

#[test]
fn encoded_startup_bytes() {
    let m = message(&[("user", "alice")]);
    let bytes = m.encode();
    let mut expected = vec![0, 0, 0, 20, 0, 3, 0, 0];
    expected.extend_from_slice(b"user\0alice\0\0");
    assert_eq!(bytes, expected);
}

#[test]
fn encoded_startup_reads_back() {
    let m = message(&[("user", "alice"), ("database", "app"), ("application_name", "psql")]);
    let bytes = m.encode();
    let parsed = parse_startup_body(&bytes[4..]).unwrap();
    assert_eq!(parsed.params.len(), 3);
    assert_eq!(parsed.user(), "alice");
    assert_eq!(parsed.database(), "app");
    assert_eq!(parsed.params.get("application_name").map(String::as_str), Some("psql"));
}

#[test]
fn startup_body_errors() {
    let mut unterminated = vec![0, 3, 0, 0];
    unterminated.extend_from_slice(b"user\0alice");
    assert_eq!(parse_startup_body(&unterminated).err(), Some(StartupError::UnterminatedCString));
    let mut bad = vec![0, 3, 0, 0];
    bad.extend_from_slice(b"user\0\xff\0\0");
    assert_eq!(parse_startup_body(&bad).err(), Some(StartupError::InvalidUtf8));
    let empty = parse_startup_body(&[0, 3, 0, 0]).unwrap();
    assert!(empty.params.is_empty());
}

#[test]
fn c_strings() {
    let body = b"ab\0c\0";
    let mut i = 0usize;
    assert_eq!(read_cstr(body, &mut i).unwrap(), "ab");
    assert_eq!(i, 3);
    assert_eq!(read_cstr(body, &mut i).unwrap(), "c");
    assert_eq!(i, 5);
    assert_eq!(read_cstr(body, &mut i), Err(StartupError::UnterminatedCString));
}

#[test]
fn startup_length_words() {
    assert_eq!(startup_frame(8), Ok(StartupFrame::Special));
    assert_eq!(startup_frame(7), Err(StartupError::InvalidLength(7)));
    assert_eq!(startup_frame(0), Err(StartupError::InvalidLength(0)));
    assert_eq!(startup_frame(23), Ok(StartupFrame::Body(19)));
    assert_eq!(special_request(80877103), Ok(()));
    assert_eq!(special_request(80877104), Err(StartupError::UnknownSpecialCode(80877104)));
}

#[test]
fn backend_startup_uses_the_backend_user() {
    let m = message(&[("user", "alice"), ("application_name", "psql")]);
    let b = m.for_backend("pooler");
    assert_eq!(b.user(), "pooler");
    assert_eq!(b.database(), "alice");
    assert_eq!(b.params.get("application_name").map(String::as_str), Some("psql"));
    assert_eq!(b.params.len(), 3);
}
