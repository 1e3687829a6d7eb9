use kvs::actions::fetch_token::{encode_token_reply, parse_token_reply};
use kvs::actions::list::{encode_list_reply, parse_list_reply};
use kvs::actions::read::{encode_cat_reply, parse_cat_reply, CatReply};
use kvs::actions::remote_version::{encode_version_reply, parse_version_reply};
use kvs::actions::{encode_action, encode_code_reply, parse_action, parse_code_reply};
use kvs::kv_server::encode_err_reply;
use kvs::{
    Actions, CreateAction, DeleteAction, FetchToken, KVSError, KVSToken, KeyMeta, ListAction,
    ReadAction, RemoteVersionAction, ReplyCode, UpdateAction,
};

fn token() -> KVSToken {
    KVSToken { id: vec![1; 20], time_stamp: -5, sign: vec![2; 20] }
}

fn meta() -> KeyMeta {
    KeyMeta {
        mime: "text/plain".to_string(),
        size: 5,
        owner: vec![1; 20],
        name: "grüße".to_string(),
        rand: Some(vec![3, 4, 5]),
        original_hash: vec![6; 32],
    }
}

fn assert_token_eq(a: &KVSToken, b: &KVSToken) {
    assert_eq!(a.id, b.id);
    assert_eq!(a.time_stamp, b.time_stamp);
    assert_eq!(a.sign, b.sign);
}

fn assert_meta_eq(a: &KeyMeta, b: &KeyMeta) {
    assert_eq!(a.mime, b.mime);
    assert_eq!(a.size, b.size);
    assert_eq!(a.owner, b.owner);
    assert_eq!(a.name, b.name);
    assert_eq!(a.rand, b.rand);
    assert_eq!(a.original_hash, b.original_hash);
}

#[test]
fn fetch_token_action_round_trip() {
    let payload = encode_action(&Actions::FetchToken(FetchToken { pub_key: vec![9; 162] }));
    match parse_action(&payload).unwrap() {
        Actions::FetchToken(f) => assert_eq!(f.pub_key, vec![9; 162]),
        _ => panic!("wrong variant"),
    }
}

#[test]
fn create_action_round_trip() {
    let action = CreateAction {
        token: token(),
        key: "some key".to_string(),
        meta: meta(),
        value: b"value bytes".to_vec(),
    };
    let payload = encode_action(&Actions::CreateKeyValue(action));
    match parse_action(&payload).unwrap() {
        Actions::CreateKeyValue(c) => {
            assert_token_eq(&c.token, &token());
            assert_eq!(c.key, "some key");
            assert_meta_eq(&c.meta, &meta());
            assert_eq!(c.value, b"value bytes".to_vec());
        },
        _ => panic!("wrong variant"),
    }
}

#[test]
fn cat_action_round_trip() {
    let action = ReadAction {
        token: token(),
        key: "k".to_string(),
        scope: Some(vec![7; 20]),
    };
    let payload = encode_action(&Actions::CatAction(action));
    match parse_action(&payload).unwrap() {
        Actions::CatAction(a) => {
            assert_token_eq(&a.token, &token());
            assert_eq!(a.key, "k");
            assert_eq!(a.scope, Some(vec![7; 20]));
        },
        _ => panic!("wrong variant"),
    }
}

#[test]
fn delete_update_list_version_round_trips() {
    let d = encode_action(&Actions::DeleteAction(DeleteAction {
        token: token(),
        key: "dk".to_string(),
    }));
    assert!(matches!(parse_action(&d).unwrap(), Actions::DeleteAction(_)));

    let u = encode_action(&Actions::UpdateAction(UpdateAction {
        token: token(),
        key: "uk".to_string(),
        meta: meta(),
        value: vec![],
    }));
    assert!(matches!(parse_action(&u).unwrap(), Actions::UpdateAction(_)));

    let l = encode_action(&Actions::ListAction(ListAction { token: token() }));
    assert!(matches!(parse_action(&l).unwrap(), Actions::ListAction(_)));

    let v = encode_action(&Actions::RemoteVersionAction(RemoteVersionAction));
    assert!(matches!(parse_action(&v).unwrap(), Actions::RemoteVersionAction(_)));
}

#[test]
fn garbage_request_rejected() {
    assert!(matches!(parse_action(&vec![99, 1, 2]), Err(KVSError::CodecError)));
    assert!(matches!(parse_action(&vec![]), Err(KVSError::CodecError)));
    // a valid action with trailing bytes is rejected too
    let mut payload = encode_action(&Actions::RemoteVersionAction(RemoteVersionAction));
    payload.push(0);
    assert!(matches!(parse_action(&payload), Err(KVSError::CodecError)));
}

#[test]
fn code_reply_round_trip() {
    let ok = encode_code_reply();
    assert!(matches!(parse_code_reply(&ok).unwrap(), ReplyCode::Done));
    let err = encode_err_reply(&"boom".to_string());
    match parse_code_reply(&err) {
        Err(KVSError::LogicError(m)) => assert_eq!(m, "boom"),
        _ => panic!("expected logic error"),
    }
}

#[test]
fn token_reply_round_trip() {
    let payload = encode_token_reply(&token());
    assert_token_eq(&parse_token_reply(&payload).unwrap(), &token());
    let err = encode_err_reply(&"no token".to_string());
    match parse_token_reply(&err) {
        Err(KVSError::LogicError(m)) => assert_eq!(m, "no token"),
        _ => panic!("expected logic error"),
    }
}

#[test]
fn cat_reply_round_trip() {
    let reply = CatReply::new(meta(), b"content".to_vec());
    let payload = encode_cat_reply(&reply);
    let parsed = parse_cat_reply(&payload).unwrap();
    assert_meta_eq(parsed.meta(), &meta());
    assert_eq!(parsed.content(), &b"content".to_vec());
}

#[test]
fn list_reply_round_trip() {
    let metas = vec![meta(), meta()];
    let payload = encode_list_reply(&metas);
    let parsed = parse_list_reply(&payload).unwrap();
    assert_eq!(parsed.len(), 2);
    assert_meta_eq(&parsed[0], &meta());
    let empty = encode_list_reply(&vec![]);
    assert!(parse_list_reply(&empty).unwrap().is_empty());
}

#[test]
fn version_reply_round_trip() {
    let payload = encode_version_reply(&"0.1.0".to_string());
    assert_eq!(parse_version_reply(&payload).unwrap(), "0.1.0");
}

#[test]
fn truncated_reply_rejected() {
    let payload = encode_token_reply(&token());
    let cut = payload[..payload.len() - 1].to_vec();
    assert!(matches!(parse_token_reply(&cut), Err(KVSError::CodecError)));
}

#[test]
fn error_messages_use_fixed_phrases() {
    assert_eq!(
        KVSError::AESGcmError.message(),
        "authenticated encryption failure"
    );
    assert_eq!(KVSError::RSAError.message(), "asymmetric cryptography failure");
    assert_eq!(KVSError::CodecError.message(), "malformed frame or payload");
    assert_eq!(KVSError::LogicError("why".to_string()).message(), "why");
}
