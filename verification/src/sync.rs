//! Comparing a directory with a stored save, and building new saves.
//!
//! A save is a list of objects: a file path, the hash of the file's content
//! and the id under which that content is kept in an object store. A remote
//! directory is described by the paths and hashes of its files. Paths are
//! relative and held as text.

use vstd::prelude::*;
use crate::paths::{join, join_spec};
use crate::text::{decimal, push_decimal_u64};
use crate::keyed::{keys_unique, entries_map, find_entry, lemma_entries_get, lemma_entries_remove, lemma_entries_update, lemma_entries_push};

verus! {

/// Identifier of a stored file object.
#[derive(Debug, Clone, Copy, PartialEq, Eq, Hash, Structural)]
pub struct ObjectId(pub u64);

/// A file of a save: where it lives, what it hashes to and which stored
/// object holds its content.
#[derive(Debug, Clone)]
pub struct Object {
    pub org_path: String,
    pub hash: u64,
    pub id: ObjectId,
}

/// The mathematical value of an [`Object`].
pub struct ObjectView {
    pub path: Seq<char>,
    pub hash: u64,
    pub id: u64,
}

impl View for Object {
    type V = ObjectView;

    open spec fn view(&self) -> ObjectView {
        ObjectView { path: self.org_path@, hash: self.hash, id: self.id.0 }
    }
}

impl Object {
    pub fn new(org_path: String, hash: u64, id: ObjectId) -> (r: Object)
        ensures
            r.org_path == org_path,
            r.hash == hash,
            r.id == id,
    {
        Object { org_path, hash, id }
    }

    /// A copy of this object.
    pub fn duplicate(&self) -> (r: Object)
        ensures
            r@ == self@,
    {
        Object { org_path: self.org_path.clone(), hash: self.hash, id: self.id }
    }
}

/// A relative path with the hash of the file found there.
#[derive(Debug, Clone, PartialEq, Eq)]
pub struct FileStatus {
    pub path: String,
    pub hash: u64,
}

/// The mathematical value of a [`FileStatus`].
pub struct FileView {
    pub path: Seq<char>,
    pub hash: u64,
}

impl View for FileStatus {
    type V = FileView;

    open spec fn view(&self) -> FileView {
        FileView { path: self.path@, hash: self.hash }
    }
}

/// The files of a directory, as paths with hashes, that a central server can
/// compare to a known save.
#[derive(Debug, Clone, PartialEq, Eq)]
pub struct DirContent(pub Vec<FileStatus>);

impl View for DirContent {
    type V = Seq<FileView>;

    open spec fn view(&self) -> Seq<FileView> {
        self.0@.map_values(|f: FileStatus| f@)
    }
}

/// One change to a local directory.
#[derive(Debug, Clone, PartialEq, Eq)]
pub enum SyncAction {
    Replace(String, ObjectId),
    Remove(String),
    Add(String, ObjectId),
}

/// The mathematical value of a [`SyncAction`].
pub enum ActionView {
    Replace(Seq<char>, u64),
    Remove(Seq<char>),
    Add(Seq<char>, u64),
}

impl View for SyncAction {
    type V = ActionView;

    open spec fn view(&self) -> ActionView {
        match self {
            SyncAction::Replace(p, id) => ActionView::Replace(p@, id.0),
            SyncAction::Remove(p) => ActionView::Remove(p@),
            SyncAction::Add(p, id) => ActionView::Add(p@, id.0),
        }
    }
}

/// The actions that bring a local directory up to date with a save.
#[derive(Debug, Clone, PartialEq, Eq)]
pub struct DirUpdate(pub Vec<SyncAction>);

impl View for DirUpdate {
    type V = Seq<ActionView>;

    open spec fn view(&self) -> Seq<ActionView> {
        self.0@.map_values(|a: SyncAction| a@)
    }
}

/// The (relative) paths on the remote whose content must be uploaded, with
/// the object id each is to be stored under.
#[derive(Debug, Clone)]
pub struct UpdateList(pub Vec<(ObjectId, String)>);

impl View for UpdateList {
    type V = Seq<(u64, Seq<char>)>;

    open spec fn view(&self) -> Seq<(u64, Seq<char>)> {
        self.0@.map_values(|e: (ObjectId, String)| (e.0.0, e.1@))
    }
}

/// The objects of one directory at one moment.
pub type SnapShot = Save;

/// A list of objects that together make up a directory.
#[derive(Debug, Clone)]
pub struct Save(Vec<Object>);

impl View for Save {
    type V = Seq<ObjectView>;

    closed spec fn view(&self) -> Seq<ObjectView> {
        self.0@.map_values(|o: Object| o@)
    }
}

/// The path-to-hash map of a directory listing; a path listed twice keeps
/// its last hash.
pub open spec fn remote_map(files: Seq<FileView>) -> Map<Seq<char>, u64>
    decreases files.len(),
{
    if files.len() == 0 {
        Map::empty()
    } else {
        remote_map(files.drop_last()).insert(files.last().path, files.last().hash)
    }
}

/// Walks the objects of a save in order against the still unmatched remote
/// files: an object whose path is unmatched is added, one whose remote file
/// has another hash is replaced, one whose remote file has the same hash is
/// left alone. Gives the actions and the remote files left unmatched.
pub open spec fn diff(objs: Seq<ObjectView>, remote: Map<Seq<char>, u64>) -> (Seq<ActionView>, Map<Seq<char>, u64>)
    decreases objs.len(),
{
    if objs.len() == 0 {
        (Seq::empty(), remote)
    } else {
        let (acts, left) = diff(objs.drop_last(), remote);
        let o = objs.last();
        if left.contains_key(o.path) {
            if left[o.path] == o.hash {
                (acts, left.remove(o.path))
            } else {
                (acts.push(ActionView::Replace(o.path, o.id)), left.remove(o.path))
            }
        } else {
            (acts.push(ActionView::Add(o.path, o.id)), left)
        }
    }
}

/// `s` removes each path of `left` exactly once, and nothing else.
pub open spec fn removes_exactly(s: Seq<ActionView>, left: Map<Seq<char>, u64>) -> bool {
    &&& forall|i: int| 0 <= i < s.len() ==> (#[trigger] s[i] matches ActionView::Remove(p) && left.contains_key(p))
    &&& forall|i: int, j: int| 0 <= i < j < s.len() ==> #[trigger] s[i] != #[trigger] s[j]
    &&& forall|p: Seq<char>| #[trigger] left.contains_key(p) ==> s.contains(ActionView::Remove(p))
}

/// `update` is what turns a directory listed as `remote` into the save
/// `objs`: the add and replace actions of [`diff`] in the order of the
/// save, then a removal of every remote file the save does not have, in
/// no particular order.
pub open spec fn update_matches(objs: Seq<ObjectView>, remote: Seq<FileView>, update: Seq<ActionView>) -> bool {
    let (acts, left) = diff(objs, remote_map(remote));
    &&& acts.len() <= update.len()
    &&& update.take(acts.len() as int) == acts
    &&& removes_exactly(update.skip(acts.len() as int), left)
}

/// Reads a listing into a path list with unique paths; a path listed twice
/// keeps its last hash.
fn collect_remote(files: &Vec<FileStatus>) -> (r: Vec<(String, u64)>)
    ensures
        keys_unique(r@),
        entries_map(r@) =~= remote_map(files@.map_values(|f: FileStatus| f@)),
{
    let ghost fs = files@.map_values(|f: FileStatus| f@);
    let mut r: Vec<(String, u64)> = Vec::new();
    let mut i: usize = 0;
    while i < files.len()
        invariant
            i <= files@.len(),
            fs == files@.map_values(|f: FileStatus| f@),
            keys_unique(r@),
            entries_map(r@) =~= remote_map(fs.take(i as int)),
        decreases files.len() - i,
    {
        let f = &files[i];
        assert(fs.take(i + 1).drop_last() =~= fs.take(i as int));
        assert(fs.take(i + 1).last() == f@);
        match find_entry(&r, &f.path) {
            Some(j) => {
                let e = (f.path.clone(), f.hash);
                proof { lemma_entries_update(r@, j as int, e); }
                r.set(j, e);
            },
            None => {
                let e = (f.path.clone(), f.hash);
                proof { lemma_entries_push(r@, e); }
                r.push(e);
            },
        }
        i = i + 1;
    }
    assert(fs.take(files@.len() as int) =~= fs);
    r
}

impl Save {
    /// A save without objects.
    pub fn new_empty() -> (r: Save)
        ensures
            r@ == Seq::<ObjectView>::empty(),
    {
        let r = Save(Vec::new());
        assert(r@ =~= Seq::<ObjectView>::empty());
        r
    }

    /// A save of the given objects, in their order.
    pub fn from_objects(objects: Vec<Object>) -> (r: Save)
        ensures
            r@ == objects@.map_values(|o: Object| o@),
    {
        Save(objects)
    }

    /// The objects of this save, taken out of it.
    pub fn into_objects(self) -> (r: Vec<Object>)
        ensures
            r@.map_values(|o: Object| o@) == self@,
    {
        self.0
    }

    /// The objects of this save.
    pub fn objects(&self) -> (r: &Vec<Object>)
        ensures
            r@.map_values(|o: Object| o@) == self@,
    {
        &self.0
    }

    /// Given a remote directory's content, the changes needed to turn the
    /// remote into this save.
    pub fn needed_update(&self, remote: DirContent) -> (r: DirUpdate)
        ensures
            update_matches(self@, remote@, r@),
    {
        diff_update(&self.0, &remote.0)
    }
}

/// The update that turns the directory listed by `files` into the save of
/// `objs`.
pub fn diff_update(objs: &Vec<Object>, files: &Vec<FileStatus>) -> (r: DirUpdate)
    ensures
        update_matches(objs@.map_values(|o: Object| o@), files@.map_values(|f: FileStatus| f@), r@),
{
    let ghost os = objs@.map_values(|o: Object| o@);
    let ghost start = remote_map(files@.map_values(|f: FileStatus| f@));
    let mut left = collect_remote(files);
    let mut acts: Vec<SyncAction> = Vec::new();
    let mut i: usize = 0;
    while i < objs.len()
        invariant
            i <= objs@.len(),
            os == objs@.map_values(|o: Object| o@),
            keys_unique(left@),
            diff(os.take(i as int), start) == (acts@.map_values(|a: SyncAction| a@), entries_map(left@)),
        decreases objs.len() - i,
    {
        let o = &objs[i];
        assert(os.take(i + 1).drop_last() =~= os.take(i as int));
        assert(os.take(i + 1).last() == o@);
        let ghost before = acts@;
        match find_entry(&left, &o.org_path) {
            Some(j) => {
                proof {
                    lemma_entries_get(left@, j as int);
                    lemma_entries_remove(left@, j as int);
                }
                let (p, h) = left.remove(j);
                if h != o.hash {
                    acts.push(SyncAction::Replace(p, o.id));
                    assert(acts@.map_values(|a: SyncAction| a@) =~= before.map_values(|a: SyncAction| a@).push(ActionView::Replace(o@.path, o@.id)));
                }
            },
            None => {
                acts.push(SyncAction::Add(o.org_path.clone(), o.id));
                assert(acts@.map_values(|a: SyncAction| a@) =~= before.map_values(|a: SyncAction| a@).push(ActionView::Add(o@.path, o@.id)));
            },
        }
        i = i + 1;
    }
    assert(os.take(objs@.len() as int) =~= os);
    let n = acts.len();
    let ghost prefix = acts@.map_values(|a: SyncAction| a@);
    let mut j: usize = 0;
    while j < left.len()
        invariant
            j <= left@.len(),
            n <= acts@.len(),
            keys_unique(left@),
            acts@.len() == n + j,
            acts@.map_values(|a: SyncAction| a@).take(n as int) == prefix,
            forall|k: int| 0 <= k < j ==> #[trigger] acts@[n + k]@ == ActionView::Remove(left@[k].0@),
        decreases left.len() - j,
    {
        let ghost before = acts@;
        acts.push(SyncAction::Remove(left[j].0.clone()));
        assert(acts@.map_values(|a: SyncAction| a@).take(n as int) =~= before.map_values(|a: SyncAction| a@).take(n as int));
        assert forall|k: int| 0 <= k < j + 1 implies #[trigger] acts@[n + k]@ == ActionView::Remove(left@[k].0@) by {
            if k < j {
                assert(acts@[n + k] == before[n + k]);
            }
        }
        j = j + 1;
    }
    let r = DirUpdate(acts);
    proof {
        let u = r@;
        let rest = u.skip(n as int);
        assert(u.take(n as int) == prefix);
        assert forall|k: int| 0 <= k < rest.len() implies (#[trigger] rest[k] matches ActionView::Remove(p) && entries_map(left@).contains_key(p)) by {
            assert(rest[k] == acts@[n + k]@);
            lemma_entries_get(left@, k);
        }
        assert forall|a: int, b: int| 0 <= a < b < rest.len() implies #[trigger] rest[a] != #[trigger] rest[b] by {
            assert(rest[a] == acts@[n + a]@);
            assert(rest[b] == acts@[n + b]@);
        }
        assert forall|p: Seq<char>| #[trigger] entries_map(left@).contains_key(p) implies rest.contains(ActionView::Remove(p)) by {
            let k = choose|k: int| 0 <= k < left@.len() && left@[k].0@ == p;
            assert(rest[k] == acts@[n + k]@);
        }
    }
    r
}


/// The hash that seahash computes over the given bytes.
pub uninterp spec fn seahash_of(bytes: Seq<u8>) -> u64;

/// Hashes bytes with `seahash::hash`; the value is named [`seahash_of`].
#[verifier::external_body]
pub fn hash(bytes: &[u8]) -> (h: u64)
    ensures
        h == seahash_of(bytes@),
{
    seahash::hash(bytes)
}

impl FileStatus {
    /// The status of a file at `path` whose content is `bytes`.
    pub fn from_contents(path: String, bytes: &[u8]) -> (r: FileStatus)
        ensures
            r.path == path,
            r.hash == seahash_of(bytes@),
    {
        FileStatus { path, hash: hash(bytes) }
    }
}

/// The key under which an object store finds content: a path and a hash.
#[derive(Debug, Clone, PartialEq, Eq, Hash)]
pub struct StoreKey {
    pub path: String,
    pub hash: u64,
}

impl StoreKey {
    pub fn from(path: String, hash: u64) -> (r: StoreKey)
        ensures
            r.path == path,
            r.hash == hash,
    {
        StoreKey { path, hash }
    }

    /// The key of the file at `path` with content `bytes`.
    pub fn calc_from(path: String, bytes: &[u8]) -> (r: StoreKey)
        ensures
            r.path == path,
            r.hash == seahash_of(bytes@),
    {
        let h = hash(bytes);
        StoreKey::from(path, h)
    }
}

/// A place where the content of files is stored under object ids.
///
/// Users of the library implement this trait for their store. What a store
/// holds is [`ObjectStore::stored`]: the id of the object kept under a key,
/// if there is one. Implementations answer [`ObjectStore::contains`] with
/// exactly that, and every id [`ObjectStore::new_obj_id`] hands out is one
/// the store has [`ObjectStore::issued`] for a new object.
pub trait ObjectStore {
    /// The id of the object the store keeps under `key`, if it keeps one.
    spec fn stored(&self, key: &StoreKey) -> Option<ObjectId>;

    /// Whether the store handed out `id` for a new object.
    spec fn issued(&self, id: ObjectId) -> bool;

    /// A fresh id for an object about to be stored.
    fn new_obj_id(&self) -> (r: ObjectId)
        ensures
            self.issued(r);

    /// The id of the stored object with this key, if there is one.
    fn contains(&self, key: &StoreKey) -> (r: Option<ObjectId>)
        ensures
            r == self.stored(key);
}

/// The store key of a listed file: its path and hash.
pub open spec fn key_of(file: FileStatus) -> StoreKey {
    StoreKey { path: file.path, hash: file.hash }
}

/// For each file of a listing, whether `store` lacks an object for it, so
/// that the file must be uploaded.
pub open spec fn unstored<S: ObjectStore>(store: &S, files: Seq<FileStatus>) -> Seq<bool> {
    Seq::new(files.len(), |i: int| store.stored(&key_of(files[i])) is None)
}

/// Where an object store keeps the content of the object `id`: a file
/// named by the id's decimal number in the store's directory.
pub fn obj_path(store_path: &str, id: ObjectId) -> (r: String)
    ensures
        r@ == join_spec(store_path@, decimal(id.0 as nat)),
{
    let mut name = String::new();
    push_decimal_u64(&mut name, id.0);
    assert(name@ =~= decimal(id.0 as nat));
    join(store_path, name.as_str())
}

/// The upload entries of a new save: for each object marked fresh, its id
/// and path, in the order of the save.
pub open spec fn fresh_entries(objs: Seq<ObjectView>, fresh: Seq<bool>) -> Seq<(u64, Seq<char>)>
    decreases objs.len(),
{
    if objs.len() == 0 || fresh.len() == 0 {
        Seq::empty()
    } else {
        let rest = fresh_entries(objs.drop_last(), fresh.drop_last());
        if fresh.last() {
            rest.push((objs.last().id, objs.last().path))
        } else {
            rest
        }
    }
}

impl UpdateList {
    /// The save that records the files of `remote`, and the files the store
    /// does not hold yet, which must be uploaded before the save can be
    /// loaded later. Each file is looked up in the store under its path and
    /// hash: a file the store holds keeps the id the store gives for it,
    /// every other file gets a fresh id from the store and is listed for
    /// upload, in the order of the listing.
    pub fn for_new_save<S: ObjectStore>(store: &S, remote: DirContent) -> (r: (Save, UpdateList))
        ensures
            r.0@.len() == remote@.len(),
            forall|i: int| 0 <= i < remote@.len() ==> (#[trigger] r.0@[i]).path == remote@[i].path
                && r.0@[i].hash == remote@[i].hash,
            forall|i: int| 0 <= i < remote@.len() ==> (store.stored(&key_of(remote.0@[i]))
                matches Some(id) ==> (#[trigger] r.0@[i]).id == id.0),
            forall|i: int| 0 <= i < remote@.len() ==> store.stored(&key_of(remote.0@[i])) is None
                ==> store.issued(ObjectId((#[trigger] r.0@[i]).id)),
            r.1@ == fresh_entries(r.0@, unstored(store, remote.0@)),
    {
        let files = &remote.0;
        let ghost fs = remote@;
        let mut new_objects: Vec<(ObjectId, String)> = Vec::new();
        let mut new_save: Vec<Object> = Vec::new();
        let ghost mut fresh: Seq<bool> = Seq::empty();
        let mut i: usize = 0;
        while i < files.len()
            invariant
                i <= files@.len(),
                fs == files@.map_values(|f: FileStatus| f@),
                new_save@.len() == i,
                fresh.len() == i,
                forall|k: int| 0 <= k < i ==> (#[trigger] new_save@[k])@.path == fs[k].path
                    && new_save@[k].hash == fs[k].hash,
                new_objects@.map_values(|e: (ObjectId, String)| (e.0.0, e.1@))
                    == fresh_entries(new_save@.map_values(|o: Object| o@), fresh),
                fresh == unstored(store, files@).take(i as int),
                forall|k: int| 0 <= k < i ==> (store.stored(&key_of(files@[k]))
                    matches Some(id) ==> (#[trigger] new_save@[k]).id == id),
                forall|k: int| 0 <= k < i ==> store.stored(&key_of(files@[k])) is None
                    ==> store.issued((#[trigger] new_save@[k]).id),
            decreases files.len() - i,
        {
            let file = &files[i];
            let key = StoreKey::from(file.path.clone(), file.hash);
            let ghost before_objs = new_objects@;
            let ghost before_save = new_save@;
            let ghost before_fresh = fresh;
            let found = store.contains(&key);
            assert(key == key_of(files@[i as int]));
            let obj_id = match found {
                Some(obj_id) => {
                    proof { fresh = fresh.push(false); }
                    obj_id
                },
                None => {
                    let id = store.new_obj_id();
                    new_objects.push((id, file.path.clone()));
                    proof { fresh = fresh.push(true); }
                    id
                },
            };
            new_save.push(Object { org_path: file.path.clone(), hash: file.hash, id: obj_id });
            proof {
                let sv = new_save@.map_values(|o: Object| o@);
                assert(sv.drop_last() =~= before_save.map_values(|o: Object| o@));
                assert(fresh.drop_last() =~= before_fresh);
                assert(fresh =~= unstored(store, files@).take(i + 1));
                assert(sv.last() == new_save@[i as int]@);
                let ev = new_objects@.map_values(|e: (ObjectId, String)| (e.0.0, e.1@));
                let bv = before_objs.map_values(|e: (ObjectId, String)| (e.0.0, e.1@));
                if fresh.last() {
                    assert(ev =~= bv.push((sv.last().id, sv.last().path)));
                } else {
                    assert(ev =~= bv);
                }
                assert(ev == fresh_entries(sv, fresh));
            }
            i = i + 1;
        }
        let save = Save(new_save);
        let list = UpdateList(new_objects);
        proof {
            assert forall|k: int| 0 <= k < fs.len() implies (#[trigger] save@[k]).path == fs[k].path
                && save@[k].hash == fs[k].hash by {
                assert(save@[k] == new_save@[k]@);
            }
            assert(save@ == new_save@.map_values(|o: Object| o@));
            assert(unstored(store, files@).take(fs.len() as int) =~= unstored(store, files@));
            assert(list@ == fresh_entries(save@, unstored(store, files@)));
            assert forall|k: int| 0 <= k < fs.len() implies (store.stored(&key_of(files@[k]))
                matches Some(id) ==> (#[trigger] save@[k]).id == id.0) by {
                assert(save@[k] == new_save@[k]@);
            }
            assert forall|k: int| 0 <= k < fs.len() implies store.stored(&key_of(files@[k])) is None
                ==> store.issued(ObjectId((#[trigger] save@[k]).id)) by {
                assert(save@[k] == new_save@[k]@);
            }
        }
        (save, list)
    }
}


/// What a local file holds after an update: the content it had before,
/// with its hash, or a stored object fetched from the server.
pub enum Content {
    Kept(u64),
    Fetched(u64),
}

/// A directory listed as `files`, every file still holding its own content.
pub open spec fn listing(files: Seq<FileView>) -> Map<Seq<char>, Content> {
    remote_map(files).map_values(|h: u64| Content::Kept(h))
}

/// The directory after carrying out `acts` in order on `dir`: a removal
/// deletes the path, an add or a replace puts the object there.
pub open spec fn apply_actions(dir: Map<Seq<char>, Content>, acts: Seq<ActionView>) -> Map<Seq<char>, Content>
    decreases acts.len(),
{
    if acts.len() == 0 {
        dir
    } else {
        let d = apply_actions(dir, acts.drop_last());
        match acts.last() {
            ActionView::Remove(p) => d.remove(p),
            ActionView::Add(p, id) => d.insert(p, Content::Fetched(id)),
            ActionView::Replace(p, id) => d.insert(p, Content::Fetched(id)),
        }
    }
}

/// The files of a save by path; where two objects share a path the later
/// one counts.
pub open spec fn save_map(objs: Seq<ObjectView>) -> Map<Seq<char>, ObjectView>
    decreases objs.len(),
{
    if objs.len() == 0 {
        Map::empty()
    } else {
        save_map(objs.drop_last()).insert(objs.last().path, objs.last())
    }
}

/// What the diff keeps true after walking a prefix of the save.
spec fn diff_state_ok(
    objs: Seq<ObjectView>,
    remote: Seq<FileView>,
) -> bool {
    let (acts, left) = diff(objs, remote_map(remote));
    let d = apply_actions(listing(remote), acts);
    let s = save_map(objs);
    &&& forall|p: Seq<char>| #[trigger] s.contains_key(p) ==> {
        &&& !left.contains_key(p)
        &&& d.contains_key(p)
        &&& (d[p] == Content::Fetched(s[p].id) || d[p] == Content::Kept(s[p].hash))
    }
    &&& forall|p: Seq<char>| !s.contains_key(p) ==> {
        &&& (#[trigger] d.contains_key(p) <==> left.contains_key(p))
        &&& (left.contains_key(p) ==> d[p] == Content::Kept(left[p]))
    }
}

proof fn lemma_diff_state(objs: Seq<ObjectView>, remote: Seq<FileView>)
    ensures
        diff_state_ok(objs, remote),
    decreases objs.len(),
{
    if objs.len() > 0 {
        let prev = objs.drop_last();
        lemma_diff_state(prev, remote);
        let (acts, left) = diff(prev, remote_map(remote));
        let (acts2, left2) = diff(objs, remote_map(remote));
        let d = apply_actions(listing(remote), acts);
        let d2 = apply_actions(listing(remote), acts2);
        let o = objs.last();
        if acts2.len() > acts.len() {
            assert(acts2.drop_last() =~= acts);
        }
        let s2 = save_map(objs);
        assert(s2 == save_map(prev).insert(o.path, o));
    }
}

proof fn lemma_apply_concat(dir: Map<Seq<char>, Content>, a: Seq<ActionView>, b: Seq<ActionView>)
    ensures
        apply_actions(dir, a + b) == apply_actions(apply_actions(dir, a), b),
    decreases b.len(),
{
    if b.len() == 0 {
        assert(a + b =~= a);
    } else {
        lemma_apply_concat(dir, a, b.drop_last());
        assert((a + b).drop_last() =~= a + b.drop_last());
        assert((a + b).last() == b.last());
    }
}

proof fn lemma_apply_removes(dir: Map<Seq<char>, Content>, rs: Seq<ActionView>)
    requires
        forall|i: int| 0 <= i < rs.len() ==> #[trigger] rs[i] is Remove,
    ensures
        forall|p: Seq<char>| #[trigger] apply_actions(dir, rs).contains_key(p)
            <==> (dir.contains_key(p) && !rs.contains(ActionView::Remove(p))),
        forall|p: Seq<char>| #[trigger] apply_actions(dir, rs).contains_key(p)
            ==> apply_actions(dir, rs)[p] == dir[p],
    decreases rs.len(),
{
    if rs.len() > 0 {
        let prev = rs.drop_last();
        assert forall|i: int| 0 <= i < prev.len() implies #[trigger] prev[i] is Remove by {
            assert(prev[i] == rs[i]);
        }
        lemma_apply_removes(dir, prev);
        assert(rs.last() is Remove);
        assert forall|p: Seq<char>| #[trigger] rs.contains(ActionView::Remove(p))
            <==> (prev.contains(ActionView::Remove(p)) || rs.last() == ActionView::Remove(p)) by {
            if rs.contains(ActionView::Remove(p)) {
                let i = choose|i: int| 0 <= i < rs.len() && rs[i] == ActionView::Remove(p);
                if i < rs.len() - 1 {
                    assert(prev[i] == rs[i]);
                }
            }
            if prev.contains(ActionView::Remove(p)) {
                let i = choose|i: int| 0 <= i < prev.len() && prev[i] == ActionView::Remove(p);
                assert(rs[i] == prev[i]);
            }
            if rs.last() == ActionView::Remove(p) {
                assert(rs[rs.len() - 1] == ActionView::Remove(p));
            }
        }
        let q = rs.last()->Remove_0;
        assert(rs.last() == ActionView::Remove(q));
        let before = apply_actions(dir, prev);
        assert(apply_actions(dir, rs) == before.remove(q));
        assert forall|p: Seq<char>| #[trigger] apply_actions(dir, rs).contains_key(p) implies
            apply_actions(dir, rs)[p] == dir[p] by {
            assert(before.contains_key(p));
        }
    }
}

/// Carrying out the update that [`Save::needed_update`] gives on the
/// remote directory yields exactly the files of the save: every path of
/// the save is there, holding the object of the save or, where the remote
/// already had a file with the object's hash, that file; no other path is
/// left.
pub proof fn law_update_reproduces_save(save: Seq<ObjectView>, remote: Seq<FileView>, update: Seq<ActionView>)
    requires
        update_matches(save, remote, update),
    ensures
        apply_actions(listing(remote), update).dom() =~= save_map(save).dom(),
        forall|p: Seq<char>| #[trigger] save_map(save).contains_key(p) ==> {
            let c = apply_actions(listing(remote), update)[p];
            c == Content::Fetched(save_map(save)[p].id) || c == Content::Kept(save_map(save)[p].hash)
        },
{
    lemma_diff_state(save, remote);
    let (acts, left) = diff(save, remote_map(remote));
    let n = acts.len() as int;
    let rest = update.skip(n);
    assert(update =~= acts + rest);
    lemma_apply_concat(listing(remote), acts, rest);
    let d = apply_actions(listing(remote), acts);
    assert forall|i: int| 0 <= i < rest.len() implies #[trigger] rest[i] is Remove by {
        assert(rest[i] matches ActionView::Remove(p) && left.contains_key(p));
    }
    lemma_apply_removes(d, rest);
    let s = save_map(save);
    let f = apply_actions(listing(remote), update);
    assert forall|p: Seq<char>| #[trigger] rest.contains(ActionView::Remove(p)) implies left.contains_key(p) by {
        let i = choose|i: int| 0 <= i < rest.len() && rest[i] == ActionView::Remove(p);
        assert(rest[i] matches ActionView::Remove(q) && left.contains_key(q));
    }
    assert forall|p: Seq<char>| #[trigger] f.contains_key(p) <==> s.contains_key(p) by {
        if s.contains_key(p) {
            assert(!left.contains_key(p));
            assert(d.contains_key(p));
            if rest.contains(ActionView::Remove(p)) {
                assert(left.contains_key(p));
            }
        } else {
            if d.contains_key(p) {
                assert(left.contains_key(p));
                assert(rest.contains(ActionView::Remove(p)));
            }
        }
    }
    assert forall|p: Seq<char>| #[trigger] s.contains_key(p) implies
        (f[p] == Content::Fetched(s[p].id) || f[p] == Content::Kept(s[p].hash)) by {
        assert(!left.contains_key(p));
        if rest.contains(ActionView::Remove(p)) {
            assert(left.contains_key(p));
        }
        assert(f == apply_actions(d, rest));
        assert(d.contains_key(p));
        assert(apply_actions(d, rest).contains_key(p));
        assert(f[p] == d[p]);
    }
}


proof fn lemma_single_removal(s: Seq<ActionView>, left: Map<Seq<char>, u64>, q: Seq<char>)
    requires
        removes_exactly(s, left),
        left.contains_key(q),
        forall|p: Seq<char>| #[trigger] left.contains_key(p) ==> p == q,
    ensures
        s == seq![ActionView::Remove(q)],
{
    assert(s.contains(ActionView::Remove(q)));
    let k = choose|k: int| 0 <= k < s.len() && s[k] == ActionView::Remove(q);
    assert forall|i: int| 0 <= i < s.len() implies s[i] == ActionView::Remove(q) by {
        assert(s[i] matches ActionView::Remove(p) && left.contains_key(p));
    }
    if s.len() > 1 {
        assert(s[0] == s[1]);
        assert(s[0] != s[1]);
    }
    assert(s =~= seq![ActionView::Remove(q)]);
}

proof fn lemma_no_removal(s: Seq<ActionView>, left: Map<Seq<char>, u64>)
    requires
        removes_exactly(s, left),
        forall|p: Seq<char>| !left.contains_key(p),
    ensures
        s.len() == 0,
{
    if s.len() > 0 {
        assert(s[0] matches ActionView::Remove(p) && left.contains_key(p));
    }
}

/// Any two updates that turn a remote directory into the same save agree:
/// the same adds and replaces in the same order, then removals of the same
/// files. With at most one file to remove they are equal.
pub proof fn law_updates_agree(objs: Seq<ObjectView>, remote: Seq<FileView>, u1: Seq<ActionView>, u2: Seq<ActionView>)
    requires
        update_matches(objs, remote, u1),
        update_matches(objs, remote, u2),
    ensures
        ({
            let (acts, left) = diff(objs, remote_map(remote));
            &&& u1.take(acts.len() as int) == u2.take(acts.len() as int)
            &&& forall|a: ActionView| u1.skip(acts.len() as int).contains(a) <==> u2.skip(acts.len() as int).contains(a)
            &&& (forall|p: Seq<char>, q: Seq<char>| left.contains_key(p) && left.contains_key(q) ==> p == q) ==> u1 == u2
        }),
{
    let (acts, left) = diff(objs, remote_map(remote));
    let n = acts.len() as int;
    let r1 = u1.skip(n);
    let r2 = u2.skip(n);
    assert forall|a: ActionView| r1.contains(a) implies r2.contains(a) by {
        let i = choose|i: int| 0 <= i < r1.len() && r1[i] == a;
        assert(r1[i] matches ActionView::Remove(p) && left.contains_key(p));
    }
    assert forall|a: ActionView| r2.contains(a) implies r1.contains(a) by {
        let i = choose|i: int| 0 <= i < r2.len() && r2[i] == a;
        assert(r2[i] matches ActionView::Remove(p) && left.contains_key(p));
    }
    if forall|p: Seq<char>, q: Seq<char>| left.contains_key(p) && left.contains_key(q) ==> p == q {
        if exists|q: Seq<char>| left.contains_key(q) {
            let q = choose|q: Seq<char>| left.contains_key(q);
            assert forall|p: Seq<char>| #[trigger] left.contains_key(p) implies p == q by {}
            lemma_single_removal(r1, left, q);
            lemma_single_removal(r2, left, q);
        } else {
            lemma_no_removal(r1, left);
            lemma_no_removal(r2, left);
            assert(r1 =~= r2);
        }
        assert(u1 =~= u1.take(n) + r1);
        assert(u2 =~= u2.take(n) + r2);
    }
}

/// No two objects of the save share a path.
pub open spec fn paths_distinct(objs: Seq<ObjectView>) -> bool {
    forall|i: int, j: int| 0 <= i < j < objs.len() ==> objs[i].path != objs[j].path
}

/// The listing of a directory that holds exactly the files of a save.
pub open spec fn listing_of(objs: Seq<ObjectView>) -> Seq<FileView> {
    objs.map_values(|o: ObjectView| FileView { path: o.path, hash: o.hash })
}

proof fn lemma_remote_map_of_save(objs: Seq<ObjectView>)
    requires
        paths_distinct(objs),
    ensures
        forall|i: int| 0 <= i < objs.len() ==> remote_map(listing_of(objs)).contains_key(#[trigger] objs[i].path)
            && remote_map(listing_of(objs))[objs[i].path] == objs[i].hash,
        forall|p: Seq<char>| #[trigger] remote_map(listing_of(objs)).contains_key(p)
            ==> exists|i: int| 0 <= i < objs.len() && objs[i].path == p,
    decreases objs.len(),
{
    if objs.len() > 0 {
        let prev = objs.drop_last();
        assert(listing_of(objs).drop_last() =~= listing_of(prev));
        lemma_remote_map_of_save(prev);
        assert forall|i: int| 0 <= i < objs.len() implies remote_map(listing_of(objs)).contains_key(#[trigger] objs[i].path)
            && remote_map(listing_of(objs))[objs[i].path] == objs[i].hash by {
            if i < objs.len() - 1 {
                assert(prev[i] == objs[i]);
                assert(objs[i].path != objs[objs.len() - 1].path);
            }
        }
        assert forall|p: Seq<char>| #[trigger] remote_map(listing_of(objs)).contains_key(p)
            implies exists|i: int| 0 <= i < objs.len() && objs[i].path == p by {
            if p != objs.last().path {
                assert(remote_map(listing_of(prev)).contains_key(p));
                let i = choose|i: int| 0 <= i < prev.len() && prev[i].path == p;
                assert(objs[i] == prev[i]);
            } else {
                assert(objs[objs.len() - 1].path == p);
            }
        }
    }
}

proof fn lemma_diff_in_sync(objs: Seq<ObjectView>, k: int)
    requires
        paths_distinct(objs),
        0 <= k <= objs.len(),
    ensures
        ({
            let r = remote_map(listing_of(objs));
            let (acts, left) = diff(objs.take(k), r);
            &&& acts.len() == 0
            &&& forall|p: Seq<char>| #[trigger] left.contains_key(p) ==> r.contains_key(p)
                && forall|j: int| 0 <= j < k ==> objs[j].path != p
            &&& forall|p: Seq<char>| #[trigger] left.contains_key(p) ==> left[p] == r[p]
            &&& forall|j: int| k <= j < objs.len() ==> left.contains_key(#[trigger] objs[j].path)
        }),
    decreases k,
{
    lemma_remote_map_of_save(objs);
    let r = remote_map(listing_of(objs));
    if k == 0 {
        assert(objs.take(0) =~= Seq::<ObjectView>::empty());
    } else {
        lemma_diff_in_sync(objs, k - 1);
        assert(objs.take(k).drop_last() =~= objs.take(k - 1));
        assert(objs.take(k).last() == objs[k - 1]);
        let (acts, left) = diff(objs.take(k - 1), r);
        assert(left.contains_key(objs[k - 1].path));
        assert(left[objs[k - 1].path] == objs[k - 1].hash);
        let (acts2, left2) = diff(objs.take(k), r);
        assert(left2 == left.remove(objs[k - 1].path));
        assert forall|j: int| k <= j < objs.len() implies left2.contains_key(#[trigger] objs[j].path) by {
            assert(left.contains_key(objs[j].path));
            assert(objs[k - 1].path != objs[j].path);
        }
    }
}

/// A directory that already holds exactly the files of a save needs no
/// change: the update is empty.
pub proof fn law_in_sync_needs_nothing(save: Seq<ObjectView>, update: Seq<ActionView>)
    requires
        paths_distinct(save),
        update_matches(save, listing_of(save), update),
    ensures
        update.len() == 0,
{
    lemma_diff_in_sync(save, save.len() as int);
    assert(save.take(save.len() as int) =~= save);
    lemma_remote_map_of_save(save);
    let (acts, left) = diff(save, remote_map(listing_of(save)));
    let rest = update.skip(acts.len() as int);
    if rest.len() > 0 {
        assert(rest[0] matches ActionView::Remove(p) && left.contains_key(p));
        let p = rest[0]->Remove_0;
        let i = choose|i: int| 0 <= i < save.len() && save[i].path == p;
        assert(save[i].path != p);
    }
}

} // verus!
