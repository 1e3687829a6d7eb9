use kvs::{
    CreateAction, DeleteAction, KVSToken, KeyMeta, ListAction, ReadAction, Store, UpdateAction,
};

fn token(id_byte: u8) -> KVSToken {
    KVSToken { id: vec![id_byte; 20], time_stamp: 0, sign: vec![0; 20] }
}

fn meta(name: &str, size: u64, rand: Option<Vec<u8>>) -> KeyMeta {
    KeyMeta {
        mime: "text/plain".to_string(),
        size,
        owner: vec![],
        name: name.to_string(),
        rand,
        original_hash: vec![9; 32],
    }
}

fn create(store: &mut Store, owner: u8, key: &str, value: &[u8]) -> Result<(), String> {
    let action = CreateAction {
        token: token(owner),
        key: key.to_string(),
        meta: meta(key, value.len() as u64, None),
        value: value.to_vec(),
    };
    action.serve(store).map(|_| ()).map_err(|e| e.message())
}

fn read(store: &Store, owner: u8, key: &str) -> Result<Vec<u8>, String> {
    let action = ReadAction { token: token(owner), key: key.to_string(), scope: None };
    action.serve(store).map(|r| r.content().clone()).map_err(|e| e.message())
}

#[test]
fn create_twice_fails_with_already_exists() {
    let mut store = Store::new();
    assert!(create(&mut store, 1, "k", b"v1").is_ok());
    let err = create(&mut store, 1, "k", b"v2").unwrap_err();
    assert_eq!(err, "The key: `k` already exists.");
    // the first value is untouched
    assert_eq!(read(&store, 1, "k").unwrap(), b"v1".to_vec());
}

#[test]
fn update_then_read_returns_new_value() {
    let mut store = Store::new();
    assert!(create(&mut store, 1, "k", b"v1").is_ok());
    let update = UpdateAction {
        token: token(1),
        key: "k".to_string(),
        meta: meta("k", 2, None),
        value: b"v2".to_vec(),
    };
    assert!(update.serve(&mut store).is_ok());
    assert_eq!(read(&store, 1, "k").unwrap(), b"v2".to_vec());
}

#[test]
fn update_nonexistent_fails() {
    let mut store = Store::new();
    let update = UpdateAction {
        token: token(1),
        key: "missing".to_string(),
        meta: meta("missing", 1, None),
        value: b"x".to_vec(),
    };
    let err = update.serve(&mut store).unwrap_err();
    assert_eq!(err.message(), "The key: `missing` is not exists.");
}

#[test]
fn delete_nonexistent_fails() {
    let mut store = Store::new();
    let delete = DeleteAction { token: token(1), key: "missing".to_string() };
    let err = delete.serve(&mut store).unwrap_err();
    assert_eq!(err.message(), "The key: `missing` is not exists.");
}

#[test]
fn delete_then_read_fails_with_not_exists() {
    let mut store = Store::new();
    assert!(create(&mut store, 1, "k", b"v1").is_ok());
    let delete = DeleteAction { token: token(1), key: "k".to_string() };
    assert!(delete.serve(&mut store).is_ok());
    let err = read(&store, 1, "k").unwrap_err();
    assert_eq!(err, "The key: `k` is not exists.");
}

#[test]
fn list_empty_owner_is_empty_not_error() {
    let store = Store::new();
    let list = ListAction { token: token(1) };
    assert!(list.serve(&store).is_empty());
}

#[test]
fn list_returns_own_entries_in_order() {
    let mut store = Store::new();
    assert!(create(&mut store, 1, "a", b"1").is_ok());
    assert!(create(&mut store, 1, "b", b"2").is_ok());
    assert!(create(&mut store, 2, "c", b"3").is_ok());
    let metas = ListAction { token: token(1) }.serve(&store);
    assert_eq!(metas.len(), 2);
    assert_eq!(metas[0].name, "a");
    assert_eq!(metas[1].name, "b");
    // the owner field was overwritten from the token
    assert_eq!(metas[0].owner, vec![1; 20]);
}

#[test]
fn owners_do_not_collide() {
    let mut store = Store::new();
    assert!(create(&mut store, 1, "k", b"mine").is_ok());
    assert!(create(&mut store, 2, "k", b"yours").is_ok());
    assert_eq!(read(&store, 1, "k").unwrap(), b"mine".to_vec());
    assert_eq!(read(&store, 2, "k").unwrap(), b"yours".to_vec());
}

#[test]
fn serve() {
    let mut store = Store::new();
    assert!(create(&mut store, 1, "pr", b"value").is_ok());
    let action = ReadAction { token: token(1), key: "pr".to_string(), scope: None };
    action.serve(&store).unwrap();
}
