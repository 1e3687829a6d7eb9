use kvs::rng::random_bytes;
use kvs::utils::sgin;
use kvs::{FetchToken, Secret};

#[test]
fn generated_secret_shape() {
    let s = Secret::generate();
    assert_eq!(s.pub_key_bits.len(), 162);
    assert!(s.priv_key_bits.len() >= 32);
}

#[test]
fn challenge_round_trip() {
    let s = Secret::generate();
    let nonce = random_bytes(32);
    let ct = Secret::encrypt_with_pub_key_bits(&s.pub_key_bits, &nonce).expect("encrypt");
    assert_ne!(ct, nonce);
    let pt = Secret::decrypt_width_priv_key_bits(&s.priv_key_bits, &ct).expect("decrypt");
    assert_eq!(pt, nonce);
}

#[test]
fn wrong_private_key_cannot_answer() {
    let s = Secret::generate();
    let other = Secret::generate();
    let nonce = random_bytes(32);
    let ct = Secret::encrypt_with_pub_key_bits(&s.pub_key_bits, &nonce).expect("encrypt");
    match Secret::decrypt_width_priv_key_bits(&other.priv_key_bits, &ct) {
        Ok(pt) => assert_ne!(pt, nonce),
        Err(_) => {},
    }
}

#[test]
fn malformed_public_key_rejected_as_crypto_error() {
    // 162 bytes that are not a DER-encoded key pass the length check but
    // fail to parse
    let ft = FetchToken { pub_key: vec![7; 162] };
    let nonce = random_bytes(32);
    assert!(ft.serve_begin(&nonce).is_err());
}

#[test]
fn short_public_key_rejected() {
    let ft = FetchToken { pub_key: vec![1; 10] };
    let nonce = random_bytes(32);
    let err = ft.serve_begin(&nonce).unwrap_err();
    assert_eq!(err.message(), "Illegal public key");
}

#[test]
fn wrong_echo_rejected() {
    let s = Secret::generate();
    let ft = FetchToken { pub_key: s.pub_key_bits.clone() };
    let nonce = random_bytes(32);
    let jwt = random_bytes(256);
    let mut bad = nonce.clone();
    bad[0] ^= 1;
    let err = ft.serve_finish(&nonce, &bad, &jwt, 1).unwrap_err();
    assert_eq!(err.message(), "Illegal NONCE reply");
}

#[test]
fn handshake_issues_verifiable_token() {
    let s = Secret::generate();
    let ft = FetchToken { pub_key: s.pub_key_bits.clone() };
    let nonce = random_bytes(32);
    let jwt = random_bytes(256);
    let challenge = ft.serve_begin(&nonce).expect("begin");
    let echoed = FetchToken::answer_challenge(&s, &challenge).expect("answer");
    let token = ft.serve_finish(&nonce, &echoed, &jwt, 99).expect("finish");
    assert_eq!(token.id, sgin(&s.pub_key_bits));
    assert_eq!(token.time_stamp, 99);
    assert!(token.verify(&jwt));
}
