use std::collections::HashMap;

use worldsync::sync::{DirContent, FileStatus, Object, ObjectId, Save, SyncAction};

fn listing(files: &[(&str, u64)]) -> DirContent {
    DirContent(files.iter().map(|(p, h)| FileStatus { path: p.to_string(), hash: *h }).collect())
}

fn save(objs: &[(&str, u64, u64)]) -> Save {
    Save::from_objects(objs.iter().map(|(p, h, id)| Object::new(p.to_string(), *h, ObjectId(*id))).collect())
}

/// Applies an update to a directory of path -> hash, fetching objects by id.
fn apply(dir: &mut HashMap<String, u64>, update: Vec<SyncAction>, hash_of: &HashMap<u64, u64>) {
    for action in update {
        match action {
            SyncAction::Replace(p, id) | SyncAction::Add(p, id) => {
                dir.insert(p, hash_of[&id.0]);
            }
            SyncAction::Remove(p) => {
                assert!(dir.remove(&p).is_some());
            }
        }
    }
}

#[test]
fn applying_the_update_reproduces_the_save() {
    let objs = [("a", 1, 10), ("b", 2, 11), ("c", 3, 12), ("d/e", 4, 13)];
    let remote = [("a", 1), ("b", 99), ("x", 5), ("y", 6)];
    let update = save(&objs).needed_update(listing(&remote));
    let mut dir: HashMap<String, u64> = remote.iter().map(|(p, h)| (p.to_string(), *h)).collect();
    let hash_of: HashMap<u64, u64> = objs.iter().map(|(_, h, id)| (*id, *h)).collect();
    apply(&mut dir, update.0, &hash_of);
    let expected: HashMap<String, u64> = objs.iter().map(|(p, h, _)| (p.to_string(), *h)).collect();
    assert_eq!(dir, expected);
}

#[test]
fn in_sync_needs_nothing() {
    let objs = [("a", 1, 10), ("b", 2, 11)];
    let update = save(&objs).needed_update(listing(&[("b", 2), ("a", 1)]));
    assert!(update.0.is_empty());
}

#[test]
fn remote_listed_twice_keeps_last_hash() {
    let update = save(&[("a", 1, 10)]).needed_update(listing(&[("a", 1), ("a", 2)]));
    assert_eq!(update.0, vec![SyncAction::Replace("a".to_string(), ObjectId(10))]);
}
