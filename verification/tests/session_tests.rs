use kvs::KVSSession;

fn session_pair() -> (KVSSession, KVSSession) {
    let key = vec![7u8; 32];
    (KVSSession::from_key(key.clone()), KVSSession::from_key(key))
}

#[test]
fn frame_round_trip() {
    let (sa, sb) = session_pair();
    let payload = b"hello frames".to_vec();
    let frame = sa.seal_frame(&payload).expect("seal");
    assert_eq!(sb.open_frame(&frame).expect("open"), payload);
}

#[test]
fn empty_payload_round_trip() {
    let (sa, sb) = session_pair();
    let frame = sa.seal_frame(&[]).expect("seal");
    let opened = sb.open_frame(&frame).expect("open");
    assert_eq!(opened, Vec::<u8>::new());
}

#[test]
fn tampered_frame_rejected() {
    let (sa, sb) = session_pair();
    let mut frame = sa.seal_frame(b"payload").expect("seal");
    let last = frame.len() - 1;
    frame[last] ^= 1;
    assert!(sb.open_frame(&frame).is_err());
}

#[test]
fn wrong_key_rejected() {
    let (sa, _) = session_pair();
    let other = KVSSession::from_key(vec![8u8; 32]);
    let frame = sa.seal_frame(b"payload").expect("seal");
    assert!(other.open_frame(&frame).is_err());
}

#[test]
fn short_frame_rejected() {
    let (sa, _) = session_pair();
    assert!(sa.open_frame(&vec![1, 2, 3]).is_err());
}

#[test]
fn two_seals_decrypt_to_same_payload() {
    let (sa, sb) = session_pair();
    let f1 = sa.seal_frame(b"same").expect("seal");
    let f2 = sa.seal_frame(b"same").expect("seal");
    assert_eq!(sb.open_frame(&f1).expect("open"), sb.open_frame(&f2).expect("open"));
}
