use pg_gateway::bouncer::scram::{
    client_final, client_first, client_first_with_nonce, extract, hi, parse_u32, ScramError,
};

fn hex(bytes: &[u8]) -> String {
    bytes.iter().map(|b| format!("{b:02x}")).collect()
}

#[test]
fn client_first_message() {
    assert_eq!(client_first_with_nonce("abc"), "n,,n=,r=abc");
    let m = client_first();
    assert!(m.starts_with("n,,n=,r="));
    assert_eq!(m.len(), 32);
    assert!(m[8..].chars().all(|c| c.is_ascii_alphanumeric() || c == '+' || c == '/'));
}

#[test]
fn attributes_of_a_message() {
    let s = "r=abc,s=QSXCR+Q6sek8bf92,i=4096";
    assert_eq!(extract(s, "r="), Some("abc"));
    assert_eq!(extract(s, "s="), Some("QSXCR+Q6sek8bf92"));
    assert_eq!(extract(s, "i="), Some("4096"));
    assert_eq!(extract(s, "x="), None);
    assert_eq!(extract("", "r="), None);
    assert_eq!(extract("a,,r=", "r="), Some(""));
}

#[test]
fn iteration_counts() {
    assert_eq!(parse_u32("4096"), Some(4096));
    assert_eq!(parse_u32("+7"), Some(7));
    assert_eq!(parse_u32("4294967295"), Some(u32::MAX));
    assert_eq!(parse_u32("4294967296"), None);
    assert_eq!(parse_u32(""), None);
    assert_eq!(parse_u32("+"), None);
    assert_eq!(parse_u32("12a"), None);
    assert_eq!(parse_u32("-1"), None);
}

#[test]
fn salted_password() {
    assert_eq!(
        hex(&hi("pencil", b"salt", 1)),
        "8daa4b2090c9247ba2cd2059d2a98e1261a3b092938991a5cb7f7df0909b3cec"
    );
    assert_eq!(hi("pencil", b"salt", 0), hi("pencil", b"salt", 1));
    assert_eq!(
        hex(&hi("pencil", b"salt", 2)),
        "1b1690dbfa6fe5f139b182424f9b2357eb6045d01b8cbd065d0d7f38122c21ae"
    );
}

#[test]
fn final_message_of_the_published_exchange() {
    let client_first = "n,,n=user,r=rOprNGfwEbeRWgbNEkqO";
    let server_first =
        "r=rOprNGfwEbeRWgbNEkqO%hvYDpWUa2RaTCAfuxFIlj)hNlF$k0,s=W22ZaJ0SNY7soEsUEjb6gQ==,i=4096";
    assert_eq!(
        client_final("pencil", client_first, server_first).unwrap(),
        "c=biws,r=rOprNGfwEbeRWgbNEkqO%hvYDpWUa2RaTCAfuxFIlj)hNlF$k0,p=dHzbZapWIk4jUhN+Ute9ytag9zjfMHgsqmmiz7AndVQ="
    );
}

#[test]
fn final_message_errors() {
    assert_eq!(client_final("p", "n,,n=,r=a", "s=QQ==,i=1"), Err(ScramError::MissingNonce));
    assert_eq!(client_final("p", "n,,n=,r=a", "r=ab,i=1"), Err(ScramError::MissingSalt));
    assert_eq!(client_final("p", "n,,n=,r=a", "r=ab,s=QQ=="), Err(ScramError::MissingIterations));
    assert_eq!(client_final("p", "n,,n=,r=a", "r=ab,s=QQ==,i=x"), Err(ScramError::InvalidIterations));
    assert_eq!(client_final("p", "n,,n=,r=a", "r=ab,s=!!,i=1"), Err(ScramError::InvalidSalt));
}

#[test]
fn proof_is_forty_four_base64_characters() {
    let out = client_final("p", "n,,n=,r=a", "r=abc,s=QQ==,i=1").unwrap();
    let (head, proof) = out.split_at(out.len() - 44);
    assert_eq!(head, "c=biws,r=abc,p=");
    assert!(proof.ends_with('='));
    assert!(proof[..43].chars().all(|c| c.is_ascii_alphanumeric() || c == '+' || c == '/'));
}
