use kvs::kv_request::{cat, create_key_value, update_key_value};
use kvs::actions::read::encode_cat_reply;
use kvs::utils::sgin;
use kvs::{KVSError, KVSToken, ReadAction, Secret, Store};

fn token_for(pub_key: &[u8]) -> KVSToken {
    KVSToken { id: sgin(pub_key), time_stamp: 7, sign: vec![0; 20] }
}

#[test]
fn private_entry_owner_reads_plaintext() {
    let secret = Secret::generate();
    let owner = token_for(&secret.pub_key_bits);
    let action = create_key_value(
        &owner,
        &"k".to_string(),
        &b"top secret".to_vec(),
        true,
        "text/plain".to_string(),
        &secret,
    )
    .expect("build create");
    // the stored value is not the plaintext
    assert_ne!(action.value, b"top secret".to_vec());
    assert!(action.meta.rand.is_some());

    let mut store = Store::new();
    action.serve(&mut store).expect("create");

    let reply = ReadAction { token: owner.dup(), key: "k".to_string(), scope: None }
        .serve(&store)
        .expect("read");
    let plain = reply.open_content(&secret).expect("open");
    assert_eq!(plain, b"top secret".to_vec());
}

#[test]
fn private_entry_non_owner_gets_privacy_error() {
    let secret = Secret::generate();
    let owner = token_for(&secret.pub_key_bits);
    let action = create_key_value(
        &owner,
        &"k".to_string(),
        &b"top secret".to_vec(),
        true,
        "text/plain".to_string(),
        &secret,
    )
    .expect("build create");
    let mut store = Store::new();
    action.serve(&mut store).expect("create");

    // another identity names the owner's entry through the scope
    let stranger = KVSToken { id: vec![9; 20], time_stamp: 7, sign: vec![0; 20] };
    let err = ReadAction {
        token: stranger,
        key: "k".to_string(),
        scope: Some(owner.id.clone()),
    }
    .serve(&store)
    .unwrap_err();
    assert_eq!(err.message(), "The key: `k` is private.");
}

#[test]
fn public_entry_readable_by_non_owner() {
    let secret = Secret::generate();
    let owner = token_for(&secret.pub_key_bits);
    let action = create_key_value(
        &owner,
        &"greeting".to_string(),
        &b"hello".to_vec(),
        false,
        "text/plain".to_string(),
        &secret,
    )
    .expect("build create");
    let mut store = Store::new();
    action.serve(&mut store).expect("create");

    let stranger = KVSToken { id: vec![9; 20], time_stamp: 7, sign: vec![0; 20] };
    let reply = ReadAction {
        token: stranger,
        key: "greeting".to_string(),
        scope: Some(owner.id.clone()),
    }
    .serve(&store)
    .expect("read");
    assert_eq!(reply.content(), &b"hello".to_vec());
}

#[test]
fn update_reencrypts_private_value() {
    let secret = Secret::generate();
    let owner = token_for(&secret.pub_key_bits);
    let mut store = Store::new();
    create_key_value(
        &owner,
        &"k".to_string(),
        &b"one".to_vec(),
        true,
        "text/plain".to_string(),
        &secret,
    )
    .expect("build")
    .serve(&mut store)
    .expect("create");
    update_key_value(
        &owner,
        &"k".to_string(),
        &b"two".to_vec(),
        true,
        "text/plain".to_string(),
        &secret,
    )
    .expect("build")
    .serve(&mut store)
    .expect("update");

    let reply = ReadAction { token: owner.dup(), key: "k".to_string(), scope: None }
        .serve(&store)
        .expect("read");
    assert_eq!(reply.open_content(&secret).expect("open"), b"two".to_vec());
}

#[test]
fn wrong_reader_key_cannot_open_envelope() {
    let secret = Secret::generate();
    let owner = token_for(&secret.pub_key_bits);
    let mut store = Store::new();
    create_key_value(
        &owner,
        &"k".to_string(),
        &b"top secret".to_vec(),
        true,
        "text/plain".to_string(),
        &secret,
    )
    .expect("build")
    .serve(&mut store)
    .expect("create");
    let reply = ReadAction { token: owner.dup(), key: "k".to_string(), scope: None }
        .serve(&store)
        .expect("read");
    let other = Secret::generate();
    assert!(reply.open_content(&other).is_err());
}

#[test]
fn cat_surfaces_server_error_and_decrypts_for_owner() {
    let secret = Secret::generate();
    let owner = token_for(&secret.pub_key_bits);
    let mut store = Store::new();
    create_key_value(
        &owner,
        &"k".to_string(),
        &b"deep".to_vec(),
        true,
        "text/plain".to_string(),
        &secret,
    )
    .expect("build")
    .serve(&mut store)
    .expect("create");
    let reply = ReadAction { token: owner.dup(), key: "k".to_string(), scope: None }
        .serve(&store)
        .expect("read");
    let payload = encode_cat_reply(&reply);
    assert_eq!(cat(&payload, &secret).expect("cat"), b"deep".to_vec());

    let err_payload = kvs::kv_server::encode_err_reply(&"The key: `k` is not exists.".to_string());
    match cat(&err_payload, &secret) {
        Err(KVSError::LogicError(m)) => assert_eq!(m, "The key: `k` is not exists."),
        _ => panic!("expected logic error"),
    }
}
