use std::cell::{Cell, RefCell};
use std::collections::HashMap;

use worldsync::protocol::{Addr, Error, HostDetails, HostState, Platform};
use worldsync::sync::{self, DirContent, FileStatus, Object, ObjectId, ObjectStore, StoreKey, SyncAction};
use worldsync::paths::object_store_path;
use worldsync::world::{can_set_save, flush_save, is_host, new_save, save_part_path, Platforms, Save, SavePart};

#[derive(Default)]
struct Store {
    next: Cell<u64>,
    known: RefCell<HashMap<StoreKey, ObjectId>>,
}

impl ObjectStore for Store {
    fn issued(&self, id: ObjectId) -> bool {
        id.0 < self.next.get()
    }
    fn new_obj_id(&self) -> ObjectId {
        let id = self.next.get();
        self.next.set(id + 1);
        ObjectId(id)
    }
    fn stored(&self, key: &StoreKey) -> Option<ObjectId> {
        self.known.borrow().get(key).cloned()
    }
    fn contains(&self, key: &StoreKey) -> Option<ObjectId> {
        self.stored(key)
    }
}

fn obj(path: &str, hash: u64, id: u64) -> Object {
    Object::new(path.to_string(), hash, ObjectId(id))
}

fn snapshot(objs: Vec<Object>) -> sync::SnapShot {
    sync::Save::from_objects(objs)
}

fn a_save() -> Save {
    Save::new(
        snapshot(vec![obj("world/level.dat", 1, 1)]),
        Platforms::new(snapshot(vec![obj("server.exe", 2, 2)]), snapshot(vec![obj("server.sh", 3, 3)])),
    )
}

fn details(id: u128) -> HostDetails {
    HostDetails { name: "h".to_string(), addr: Addr::Domain("d".to_string()), port: 1, id }
}

#[test]
fn objects_are_data_then_the_platforms_executables() {
    let paths: Vec<String> = a_save().objects(Platform::Linux).into_iter().map(|o| o.org_path).collect();
    assert_eq!(paths, vec!["world/level.dat", "server.sh"]);
    let paths: Vec<String> = a_save().objects(Platform::Windows).into_iter().map(|o| o.org_path).collect();
    assert_eq!(paths, vec!["world/level.dat", "server.exe"]);
}

#[test]
fn platforms_split() {
    let (windows, linux) = a_save().into_runtime().into_parts();
    assert_eq!(windows.objects()[0].org_path, "server.exe");
    assert_eq!(linux.objects()[0].org_path, "server.sh");
    assert_eq!(a_save().into_runtime().platform(Platform::Linux).objects()[0].hash, 3);
}

#[test]
fn update_for_a_linux_host() {
    let remote = DirContent(vec![
        FileStatus { path: "world/level.dat".to_string(), hash: 9 },
        FileStatus { path: "old.txt".to_string(), hash: 4 },
    ]);
    let update = a_save().needed_update(remote, Platform::Linux);
    assert_eq!(
        update.0,
        vec![
            SyncAction::Replace("world/level.dat".to_string(), ObjectId(1)),
            SyncAction::Add("server.sh".to_string(), ObjectId(3)),
            SyncAction::Remove("old.txt".to_string()),
        ]
    );
}

#[test]
fn empty_save_has_nothing() {
    assert!(Save::new_empty().objects(Platform::Windows).is_empty());
}

#[test]
fn host_checks() {
    assert_eq!(is_host(&HostState::Up(details(4)), 4), Ok(()));
    assert_eq!(is_host(&HostState::Loading(details(4)), 4), Ok(()));
    assert_eq!(is_host(&HostState::Unreachable(details(4)), 4), Ok(()));
    assert_eq!(is_host(&HostState::Up(details(4)), 5), Err(()));
    assert_eq!(is_host(&HostState::ShuttingDown(details(4)), 4), Err(()));
    assert_eq!(is_host(&HostState::NoHost, 4), Err(()));
}

#[test]
fn save_can_only_be_set_without_host() {
    assert_eq!(can_set_save(&HostState::NoHost), Ok(()));
    assert_eq!(can_set_save(&HostState::Up(details(1))), Err(Error::SaveInUse));
}

#[test]
fn flushing_takes_the_pending_save() {
    let mut pending = Some(a_save());
    assert!(flush_save(&mut pending).is_ok());
    assert!(pending.is_none());
    assert!(matches!(flush_save(&mut pending), Err(Error::NotSaving)));
}

#[test]
fn new_save_keeps_the_executables_and_lists_uploads() {
    let store = Store::default();
    store.known.borrow_mut().insert(StoreKey::from("world/a".to_string(), 5), ObjectId(77));
    store.next.set(100);
    let content = DirContent(vec![
        FileStatus { path: "world/a".to_string(), hash: 5 },
        FileStatus { path: "world/b".to_string(), hash: 6 },
    ]);
    let (save, uploads) = new_save(&store, a_save(), content);
    assert_eq!(uploads.0, vec![(ObjectId(100), "world/b".to_string())]);
    let ids: Vec<u64> = save.data.objects().iter().map(|o| o.id.0).collect();
    assert_eq!(ids, vec![77, 100]);
    let linux: Vec<String> = save.objects(Platform::Linux).into_iter().map(|o| o.org_path).collect();
    assert_eq!(linux, vec!["world/a", "world/b", "server.sh"]);
}

#[test]
fn save_layout_in_a_directory() {
    assert_eq!(save_part_path("dump", SavePart::Data), "dump/data");
    assert_eq!(save_part_path("dump/", SavePart::Windows), "dump/platform/windows");
    assert_eq!(save_part_path("dump", SavePart::Linux), "dump/platform/linux");
}

#[test]
fn objects_are_stored_under_their_number() {
    assert_eq!(sync::obj_path(object_store_path(), ObjectId(1234)), "object-store/1234");
    assert_eq!(sync::obj_path("store/", ObjectId(u64::MAX)), "store/18446744073709551615");
    assert_eq!(sync::obj_path("", ObjectId(0)), "0");
}

#[test]
fn platform_update_is_the_update_of_its_objects() {
    let remote = DirContent(vec![
        FileStatus { path: "world/level.dat".to_string(), hash: 1 },
        FileStatus { path: "server.exe".to_string(), hash: 2 },
    ]);
    let plain = sync::Save::from_objects(a_save().objects(Platform::Linux));
    assert_eq!(a_save().needed_update(remote.clone(), Platform::Linux), plain.needed_update(remote));
}
