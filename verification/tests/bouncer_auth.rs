use pg_gateway::bouncer::auth::{
    backend_auth_step, md5_password, password_message, reset_query, sasl_continue_step,
    sasl_final_step, sasl_initial_message, sasl_response_message, scram_offered, to_hex,
    AuthError, BackendAuthStep, SaslStep,
};
use pg_gateway::bouncer::protocol::PgMessage;

fn auth(code: i32, rest: &[u8]) -> PgMessage {
    let mut body = code.to_be_bytes().to_vec();
    body.extend_from_slice(rest);
    PgMessage { tag: b'R', body }
}

#[test]
fn backend_requests() {
    assert_eq!(backend_auth_step(&auth(0, &[])), Ok(BackendAuthStep::Continue));
    assert_eq!(backend_auth_step(&auth(3, &[])), Ok(BackendAuthStep::SendCleartext));
    assert_eq!(
        backend_auth_step(&auth(5, &[1, 2, 3, 4])),
        Ok(BackendAuthStep::SendMd5(vec![1, 2, 3, 4]))
    );
    assert_eq!(
        backend_auth_step(&auth(10, b"SCRAM-SHA-256\0\0")),
        Ok(BackendAuthStep::StartScram(b"SCRAM-SHA-256\0\0".to_vec()))
    );
    assert_eq!(backend_auth_step(&auth(7, &[])), Err(AuthError::UnsupportedAuthType(7)));
    assert_eq!(
        backend_auth_step(&PgMessage { tag: b'Z', body: b"I".to_vec() }),
        Ok(BackendAuthStep::Ready)
    );
    assert_eq!(
        backend_auth_step(&PgMessage { tag: b'E', body: vec![] }),
        Err(AuthError::BackendRejected)
    );
    assert_eq!(
        backend_auth_step(&PgMessage { tag: b'S', body: vec![] }),
        Ok(BackendAuthStep::Continue)
    );
}

#[test]
fn hex_digits() {
    assert_eq!(to_hex(&[0x00, 0xab, 0xff, 0x10]), "00abff10");
    assert_eq!(to_hex(&[]), "");
}

#[test]
fn md5_answer() {
    assert_eq!(
        md5_password("secret", "alice", &[1, 2, 3, 4]),
        "md598a0412b9c31436fc53776e863350083"
    );
}

#[test]
fn password_and_sasl_messages() {
    let p = password_message("pw");
    assert_eq!((p.tag, p.body), (b'p', b"pw\0".to_vec()));
    let i = sasl_initial_message(b"n,,n=,r=abc");
    assert_eq!(i.tag, b'p');
    let mut expected = b"SCRAM-SHA-256\0".to_vec();
    expected.extend_from_slice(&[0, 0, 0, 11]);
    expected.extend_from_slice(b"n,,n=,r=abc");
    assert_eq!(i.body, expected);
    let r = sasl_response_message(b"c=biws");
    assert_eq!((r.tag, r.body), (b'p', b"c=biws".to_vec()));
    let q = reset_query();
    assert_eq!((q.tag, q.body), (b'Q', b"DISCARD ALL;".to_vec()));
}

#[test]
fn offered_mechanisms() {
    assert!(scram_offered(b"SCRAM-SHA-256-PLUS\0SCRAM-SHA-256\0\0"));
    assert!(scram_offered(b"SCRAM-SHA-256\0\0"));
    assert!(!scram_offered(b"SCRAM-SHA-1\0\0"));
    assert!(!scram_offered(b"\xffSCRAM-SHA-256\0"));
}

#[test]
fn sasl_exchange_steps() {
    assert_eq!(sasl_continue_step(&auth(11, b"r=x")), Ok(SaslStep::Payload(b"r=x".to_vec())));
    assert_eq!(sasl_continue_step(&auth(12, b"v=x")), Ok(SaslStep::Continue));
    assert_eq!(
        sasl_continue_step(&PgMessage { tag: b'E', body: vec![] }),
        Err(AuthError::ScramRejected)
    );
    assert_eq!(sasl_final_step(&auth(12, b"v=x")), Ok(SaslStep::Payload(b"v=x".to_vec())));
    assert_eq!(sasl_final_step(&auth(0, &[])), Ok(SaslStep::Payload(vec![])));
    assert_eq!(sasl_final_step(&auth(11, b"r=x")), Ok(SaslStep::Continue));
    assert_eq!(
        sasl_final_step(&PgMessage { tag: b'N', body: vec![] }),
        Ok(SaslStep::Continue)
    );
}
