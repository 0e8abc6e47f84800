use pg_gateway::bouncer::protocol::{
    auth_ok, backend_key_data, error_response, is_begin_query, is_commit_or_rollback, is_query,
    is_terminate, message_body_len, parameter_status, query_sql, ready_for_query_idle,
    ready_for_query_status, row_description_and_data, MessageError, PgMessage,
    PROTOCOL_VERSION_3,
};

fn query(sql: &str) -> PgMessage {
    let mut body = sql.as_bytes().to_vec();
    body.push(0);
    PgMessage { tag: b'Q', body }
}

#[test]
fn encoded_message_reads_back() {
    let m = PgMessage { tag: b'Q', body: b"SELECT 1\0".to_vec() };
    let bytes = m.encode();
    assert_eq!(bytes[0], b'Q');
    let len = u32::from_be_bytes([bytes[1], bytes[2], bytes[3], bytes[4]]);
    assert_eq!(len, 13);
    assert_eq!(message_body_len(len).unwrap(), 9);
    assert_eq!(&bytes[5..], b"SELECT 1\0");
}

#[test]
fn message_length_below_four_is_refused() {
    assert_eq!(message_body_len(3), Err(MessageError::InvalidLength(3)));
    assert_eq!(message_body_len(0), Err(MessageError::InvalidLength(0)));
    assert_eq!(message_body_len(4), Ok(0));
}

#[test]
fn fixed_messages() {
    assert_eq!(PROTOCOL_VERSION_3, 196608);
    let ok = auth_ok();
    assert_eq!((ok.tag, ok.body), (b'R', vec![0, 0, 0, 0]));
    let ready = ready_for_query_idle();
    assert_eq!((ready.tag, ready.body), (b'Z', b"I".to_vec()));
    let ps = parameter_status("server_version", "14.0");
    assert_eq!(ps.tag, b'S');
    assert_eq!(ps.body, b"server_version\x0014.0\x00".to_vec());
    let k = backend_key_data(1, -1);
    assert_eq!(k.tag, b'K');
    assert_eq!(k.body, vec![0, 0, 0, 1, 0xff, 0xff, 0xff, 0xff]);
    let e = error_response("pooler is paused");
    assert_eq!(e.tag, b'E');
    assert_eq!(e.body, b"Mpooler is paused\x00\x00".to_vec());
}

#[test]
fn result_rows() {
    let msgs = row_description_and_data(&[("result", "RELOAD"), ("x", "")]);
    assert_eq!(msgs.len(), 4);
    assert_eq!(msgs[0].tag, b'T');
    let mut rd = vec![0, 1];
    rd.extend_from_slice(b"result\0");
    rd.extend_from_slice(&[0, 0, 0, 0, 0, 0, 0, 0, 0, 25, 0xff, 0xff, 0xff, 0xff, 0xff, 0xff, 0, 0]);
    assert_eq!(msgs[0].body, rd);
    assert_eq!(msgs[1].tag, b'D');
    assert_eq!(msgs[1].body, b"\x00\x01\x00\x00\x00\x06RELOAD".to_vec());
    assert_eq!(msgs[2].body, vec![0, 1, 0, 0, 0, 0]);
    assert_eq!(msgs[3].tag, b'C');
    assert_eq!(msgs[3].body, b"SELECT 0\0".to_vec());
}

#[test]
fn transaction_status() {
    assert_eq!(ready_for_query_status(b"T"), Some(b'T'));
    assert_eq!(ready_for_query_status(b""), None);
}

#[test]
fn query_text_is_trimmed_and_stops_at_nul() {
    assert_eq!(query_sql(b"  select 1 ;\n\0garbage"), "select 1 ;");
    assert_eq!(query_sql(b"no terminator"), "no terminator");
    assert_eq!(query_sql(b"\xff\xfe\0"), "");
    assert_eq!(query_sql(b""), "");
}

#[test]
fn message_kinds() {
    assert!(is_query(&query("select 1")));
    assert!(!is_query(&PgMessage { tag: b'P', body: vec![] }));
    assert!(is_terminate(&PgMessage { tag: b'X', body: vec![] }));
    assert!(!is_terminate(&query("x")));
}

#[test]
fn transaction_boundaries() {
    assert!(is_begin_query(&query("BEGIN")));
    assert!(is_begin_query(&query("  begin isolation level serializable")));
    assert!(is_begin_query(&query("Start Transaction;")));
    assert!(!is_begin_query(&query("select 'begin'")));
    assert!(!is_begin_query(&PgMessage { tag: b'P', body: b"BEGIN\0".to_vec() }));
    assert!(is_commit_or_rollback(&query("COMMIT;")));
    assert!(is_commit_or_rollback(&query("rollback;;")));
    assert!(!is_commit_or_rollback(&query("commit and chain")));
    assert!(!is_commit_or_rollback(&PgMessage { tag: b'X', body: b"COMMIT\0".to_vec() }));
}

#[test]
fn unicode_whitespace_is_trimmed() {
    assert_eq!(query_sql(" BEGIN \0xyz".as_bytes()), "BEGIN");
    assert_eq!(query_sql("\u{3000}\t BEGIN\u{a0}\u{2028}".as_bytes()), "BEGIN");
    assert_eq!(query_sql("\u{200b}x\u{200b}".as_bytes()), "\u{200b}x\u{200b}");
    assert_eq!(query_sql(&[0xff, 0]), "");
    assert!(is_begin_query(&query("\u{85}begin")));
}
