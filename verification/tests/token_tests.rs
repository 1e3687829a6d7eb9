use kvs::kv_server::verify_jwt_token;
use kvs::utils::sgin;
use kvs::{Actions, FetchToken, KVSToken, ListAction};

fn secret() -> Vec<u8> {
    (0u16..256).map(|i| (i % 251) as u8).collect()
}

#[test]
fn issued_token_verifies() {
    let jwt = secret();
    let id = sgin(b"pub1");
    let token = KVSToken::issue(&id, 1_234_567, &jwt);
    assert_eq!(token.id, id);
    assert_eq!(token.time_stamp, 1_234_567);
    assert!(token.verify(&jwt));
}

#[test]
fn flipped_signature_rejected() {
    let jwt = secret();
    let mut token = KVSToken::issue(&sgin(b"pub1"), 1_234_567, &jwt);
    token.sign[0] ^= 1;
    assert!(!token.verify(&jwt));
}

#[test]
fn flipped_id_rejected() {
    let jwt = secret();
    let mut token = KVSToken::issue(&sgin(b"pub1"), 1_234_567, &jwt);
    token.id[3] ^= 1;
    assert!(!token.verify(&jwt));
}

#[test]
fn flipped_timestamp_rejected() {
    let jwt = secret();
    let mut token = KVSToken::issue(&sgin(b"pub1"), 1_234_567, &jwt);
    token.time_stamp += 1;
    assert!(!token.verify(&jwt));
}

#[test]
fn wrong_secret_rejected() {
    let jwt = secret();
    let token = KVSToken::issue(&sgin(b"pub1"), 1_234_567, &jwt);
    let mut other = jwt.clone();
    other[0] ^= 1;
    assert!(!token.verify(&other));
}

#[test]
fn dispatch_accepts_valid_token() {
    let jwt = secret();
    let token = KVSToken::issue(&sgin(b"pub1"), 42, &jwt);
    let msg = Actions::ListAction(ListAction { token });
    assert!(verify_jwt_token(&jwt, &msg).is_ok());
}

#[test]
fn dispatch_rejects_forged_token() {
    let jwt = secret();
    let mut token = KVSToken::issue(&sgin(b"pub1"), 42, &jwt);
    token.sign[10] ^= 0xff;
    let msg = Actions::ListAction(ListAction { token });
    let err = verify_jwt_token(&jwt, &msg).unwrap_err();
    assert_eq!(err.message(), "Illegal Token");
}

#[test]
fn dispatch_needs_no_token_for_fetch() {
    let jwt = secret();
    let msg = Actions::FetchToken(FetchToken { pub_key: vec![0u8; 162] });
    assert!(verify_jwt_token(&jwt, &msg).is_ok());
}
