use kvs::{KVSSession, KeyPair};

#[test]
fn dh_test_dh() {
    let a = KeyPair::new();
    let b = KeyPair::new();
    assert_eq!(
        a.to_shared_secret(&b.get_pk()).expect("fail"),
        b.to_shared_secret(&a.get_pk()).expect("fail")
    );
}

#[test]
fn secret_test_dh() {
    let a = KeyPair::new();
    let b = KeyPair::new();
    assert_eq!(
        a.to_shared_secret(&b.get_pk()).expect("fail"),
        b.to_shared_secret(&a.get_pk()).expect("fail")
    );
}

#[test]
fn channel_key_is_32_bytes() {
    let a = KeyPair::new();
    let b = KeyPair::new();
    let key = a.to_shared_secret(&b.get_pk()).expect("fail");
    assert_eq!(key.len(), 32);
}

#[test]
fn garbage_peer_key_rejected() {
    let a = KeyPair::new();
    assert!(a.to_shared_secret(&vec![1, 2, 3]).is_err());
}

#[test]
fn both_sessions_agree() {
    let a = KeyPair::new();
    let b = KeyPair::new();
    let sa = KVSSession::establish(&a, &b.get_pk()).expect("establish a");
    let sb = KVSSession::establish(&b, &a.get_pk()).expect("establish b");
    let frame = sa.seal_frame(b"ping").expect("seal");
    assert_eq!(sb.open_frame(&frame).expect("open"), b"ping".to_vec());
}
