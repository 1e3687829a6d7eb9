use kvs::sync::sync_plan;
use kvs::{KeyMeta, LocalFileMeta};

fn local(name: &str, hash: u8) -> LocalFileMeta {
    LocalFileMeta {
        name: name.to_string(),
        path: format!("files/{}", name),
        original_hash: vec![hash; 32],
        size: 1,
    }
}

fn remote(name: &str, hash: u8, private: bool) -> KeyMeta {
    KeyMeta {
        mime: "bin".to_string(),
        size: 1,
        owner: vec![1; 20],
        name: name.to_string(),
        rand: if private { Some(vec![0; 60]) } else { None },
        original_hash: vec![hash; 32],
    }
}

#[test]
fn missing_files_are_created() {
    let locals = vec![local("a", 1), local("b", 2)];
    let remotes = vec![remote("a", 1, false)];
    let (to_create, to_update) = sync_plan(&locals, &remotes, true);
    assert_eq!(to_create.len(), 1);
    assert_eq!(to_create[0].name, "b");
    assert!(to_update.is_empty());
}

#[test]
fn changed_hash_is_updated() {
    let locals = vec![local("a", 9)];
    let remotes = vec![remote("a", 1, false)];
    let (to_create, to_update) = sync_plan(&locals, &remotes, true);
    assert!(to_create.is_empty());
    assert_eq!(to_update.len(), 1);
    assert_eq!(to_update[0].name, "a");
}

#[test]
fn privacy_change_is_updated() {
    // the remote copy is public but a private sync is requested
    let locals = vec![local("a", 1)];
    let remotes = vec![remote("a", 1, false)];
    let (to_create, to_update) = sync_plan(&locals, &remotes, false);
    assert!(to_create.is_empty());
    assert_eq!(to_update.len(), 1);
}

#[test]
fn unchanged_files_left_alone() {
    let locals = vec![local("a", 1), local("b", 2)];
    let remotes = vec![remote("a", 1, false), remote("b", 2, false)];
    let (to_create, to_update) = sync_plan(&locals, &remotes, true);
    assert!(to_create.is_empty());
    assert!(to_update.is_empty());
}

#[test]
fn empty_remote_creates_everything_in_order() {
    let locals = vec![local("x", 1), local("y", 2), local("z", 3)];
    let (to_create, to_update) = sync_plan(&locals, &vec![], true);
    let names: Vec<String> = to_create.iter().map(|l| l.name.clone()).collect();
    assert_eq!(names, vec!["x", "y", "z"]);
    assert!(to_update.is_empty());
}
