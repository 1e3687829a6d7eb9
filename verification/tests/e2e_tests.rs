use kvs::actions::fetch_token::{encode_token_reply, parse_token_reply};
use kvs::actions::list::parse_list_reply;
use kvs::actions::{encode_action, parse_action, parse_code_reply};
use kvs::kv_request::{cat, create_key_value};
use kvs::kv_server::handle_action;
use kvs::rng::random_bytes;
use kvs::utils::{sgin, sha256};
use kvs::{Actions, FetchToken, KVSSession, KeyPair, ListAction, ReadAction, Secret, Store};

fn channel_pair() -> (KVSSession, KVSSession) {
    let client_kp = KeyPair::new();
    let server_kp = KeyPair::new();
    let client = KVSSession::establish(&client_kp, &server_kp.get_pk()).expect("client establish");
    let server = KVSSession::establish(&server_kp, &client_kp.get_pk()).expect("server establish");
    (client, server)
}

#[test]
fn end_to_end_scenario() {
    // server-side state shared across connections
    let jwt_secret = random_bytes(256);
    let mut store = Store::new();
    // client identity
    let secret = Secret::generate();

    // --- connection 1: token handshake, then create ---
    let (client, server) = channel_pair();

    // client -> server: FetchToken{public_key}
    let req = Actions::FetchToken(FetchToken { pub_key: secret.pub_key_bits.clone() });
    let frame = client.seal_frame(&encode_action(&req)).expect("seal");
    let payload = server.open_frame(&frame).expect("open");
    let ft = match parse_action(&payload).expect("parse") {
        Actions::FetchToken(f) => f,
        _ => panic!("wrong action"),
    };

    // server -> client: encrypted nonce
    let nonce = random_bytes(32);
    let challenge = ft.serve_begin(&nonce).expect("begin");
    let ch_frame = server.seal_frame(&challenge).expect("seal");

    // client -> server: the nonce, recovered with the private key
    let ch_payload = client.open_frame(&ch_frame).expect("open");
    let answer = FetchToken::answer_challenge(&secret, &ch_payload).expect("answer");
    let ans_frame = client.seal_frame(&answer).expect("seal");
    let echoed = server.open_frame(&ans_frame).expect("open");

    // server -> client: the token
    let issued = ft.serve_finish(&nonce, &echoed, &jwt_secret, 1_700_000_000_000).expect("finish");
    let tok_frame = server.seal_frame(&encode_token_reply(&issued)).expect("seal");
    let token = parse_token_reply(&client.open_frame(&tok_frame).expect("open")).expect("token");

    // the token names the identity derived from the public key
    assert_eq!(token.id, sgin(&secret.pub_key_bits));
    assert!(token.verify(&jwt_secret));

    // create the public key "greeting" -> "hello"
    let create = create_key_value(
        &token,
        &"greeting".to_string(),
        &b"hello".to_vec(),
        false,
        "text/plain".to_string(),
        &secret,
    )
    .expect("build create");
    let frame = client
        .seal_frame(&encode_action(&Actions::CreateKeyValue(create)))
        .expect("seal");
    let payload = server.open_frame(&frame).expect("open");
    let action = parse_action(&payload).expect("parse");
    let reply = handle_action(&mut store, &jwt_secret, &action);
    let reply_frame = server.seal_frame(&reply).expect("seal");
    parse_code_reply(&client.open_frame(&reply_frame).expect("open")).expect("created");

    // --- connection 2: a fresh channel, the same persisted token ---
    let (client2, server2) = channel_pair();
    let read = ReadAction { token: token.dup(), key: "greeting".to_string(), scope: None };
    let frame = client2.seal_frame(&encode_action(&Actions::CatAction(read))).expect("seal");
    let payload = server2.open_frame(&frame).expect("open");
    let action = parse_action(&payload).expect("parse");
    let reply = handle_action(&mut store, &jwt_secret, &action);
    let reply_frame = server2.seal_frame(&reply).expect("seal");
    let content = cat(&client2.open_frame(&reply_frame).expect("open"), &secret).expect("cat");
    assert_eq!(content, b"hello".to_vec());

    // the stored original_hash equals sha256("hello")
    let list = Actions::ListAction(ListAction { token: token.dup() });
    let frame = client2.seal_frame(&encode_action(&list)).expect("seal");
    let payload = server2.open_frame(&frame).expect("open");
    let action = parse_action(&payload).expect("parse");
    let reply = handle_action(&mut store, &jwt_secret, &action);
    let metas = parse_list_reply(&reply).expect("list");
    assert_eq!(metas.len(), 1);
    assert_eq!(metas[0].name, "greeting");
    assert_eq!(metas[0].original_hash, sha256(b"hello"));
}

#[test]
fn forged_token_gets_structured_error_reply() {
    let jwt_secret = random_bytes(256);
    let mut store = Store::new();
    let mut token = kvs::KVSToken::issue(&vec![1; 20], 5, &jwt_secret);
    token.sign[0] ^= 1;
    let list = Actions::ListAction(ListAction { token });
    let reply = handle_action(&mut store, &jwt_secret, &list);
    match parse_list_reply(&reply) {
        Err(kvs::KVSError::LogicError(m)) => assert_eq!(m, "Illegal Token"),
        _ => panic!("expected the illegal-token reply"),
    }
}

#[test]
fn version_probe_needs_no_token() {
    let jwt_secret = random_bytes(256);
    let mut store = Store::new();
    let action = Actions::RemoteVersionAction(kvs::RemoteVersionAction);
    let reply = handle_action(&mut store, &jwt_secret, &action);
    let version = kvs::actions::remote_version::parse_version_reply(&reply).expect("version");
    assert_eq!(version, "0.1.0");
}
