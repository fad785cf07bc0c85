//! The saved world as the server keeps it: user data plus the executables
//! for each platform, and the checks around hosting and saving.

use vstd::prelude::*;
use crate::paths::{join, join_spec};
use crate::protocol::{Error, HostId, HostState, Platform};
use crate::sync::{diff, law_updates_agree, ObjectId, remote_map, ActionView, FileView, diff_update, update_matches, DirContent, DirUpdate, Object, ObjectStore, ObjectView, SnapShot, UpdateList, fresh_entries, key_of, unstored};

verus! {

/// The executables of a save, one snapshot per platform.
#[derive(Debug, Clone)]
pub struct Platforms {
    windows: SnapShot,
    linux: SnapShot,
}

impl Platforms {
    pub fn new(windows: SnapShot, linux: SnapShot) -> (r: Platforms)
        ensures
            r.windows_view() == windows@,
            r.linux_view() == linux@,
    {
        Platforms { windows, linux }
    }

    pub closed spec fn windows_view(&self) -> Seq<ObjectView> {
        self.windows@
    }

    pub closed spec fn linux_view(&self) -> Seq<ObjectView> {
        self.linux@
    }

    /// The objects of the snapshot for a platform.
    pub open spec fn for_platform(&self, platform: Platform) -> Seq<ObjectView> {
        match platform {
            Platform::Linux => self.linux_view(),
            Platform::Windows => self.windows_view(),
        }
    }

    /// The snapshot for a platform.
    pub fn platform(self, platform: Platform) -> (r: SnapShot)
        ensures
            r@ == self.for_platform(platform),
    {
        match platform {
            Platform::Linux => self.linux,
            Platform::Windows => self.windows,
        }
    }

    /// The two snapshots, windows first.
    pub fn into_parts(self) -> (r: (SnapShot, SnapShot))
        ensures
            r.0@ == self.windows_view(),
            r.1@ == self.linux_view(),
    {
        (self.windows, self.linux)
    }
}

/// A save of the world.
#[derive(Debug, Clone)]
pub struct Save {
    /// user modifiable data (saves, databases)
    pub data: SnapShot,
    /// executables, may be platform specific
    pub runtime: Platforms,
}

impl Save {
    pub fn new(data: SnapShot, runtime: Platforms) -> (r: Save)
        ensures
            r.data == data,
            r.runtime() == runtime,
    {
        Save { data, runtime }
    }

    pub open spec fn runtime(&self) -> Platforms {
        self.runtime
    }

    /// A save without any objects.
    pub fn new_empty() -> (r: Save)
        ensures
            r.data@ == Seq::<ObjectView>::empty(),
            r.runtime().linux_view() == Seq::<ObjectView>::empty(),
            r.runtime().windows_view() == Seq::<ObjectView>::empty(),
    {
        Save {
            data: SnapShot::new_empty(),
            runtime: Platforms { linux: SnapShot::new_empty(), windows: SnapShot::new_empty() },
        }
    }

    /// The executables of the save.
    pub fn into_runtime(self) -> (r: Platforms)
        ensures
            r == self.runtime(),
    {
        self.runtime
    }

    /// All objects a host on `platform` needs: the data, then the
    /// platform's executables.
    pub open spec fn objects_for(&self, platform: Platform) -> Seq<ObjectView> {
        self.data@ + self.runtime().for_platform(platform)
    }

    /// All objects a host on `platform` needs: the data, then the
    /// platform's executables.
    pub fn objects(self, platform: Platform) -> (r: Vec<Object>)
        ensures
            r@.map_values(|o: Object| o@) == self.objects_for(platform),
    {
        let ghost all = self.objects_for(platform);
        let mut data = self.data.into_objects();
        let mut runtime = self.runtime.platform(platform).into_objects();
        let ghost d = data@;
        let ghost rt = runtime@;
        data.append(&mut runtime);
        assert(data@.map_values(|o: Object| o@) =~= d.map_values(|o: Object| o@) + rt.map_values(|o: Object| o@));
        data
    }

    /// Given a remote directory's content, the changes needed to turn it
    /// into this save for a host on `platform`.
    pub fn needed_update(self, remote: DirContent, platform: Platform) -> (r: DirUpdate)
        ensures
            update_matches(self.objects_for(platform), remote@, r@),
    {
        let objects = self.objects(platform);
        diff_update(&objects, &remote.0)
    }
}

/// The parts of a save as it is laid out in a directory.
#[derive(Debug, Clone, Copy, PartialEq, Eq)]
pub enum SavePart {
    Data,
    Windows,
    Linux,
}

/// The subdirectory of a part of a save: `data`, `platform/windows` or
/// `platform/linux`.
pub open spec fn save_part_dir(part: SavePart) -> Seq<char> {
    match part {
        SavePart::Data => "data"@,
        SavePart::Windows => "platform/windows"@,
        SavePart::Linux => "platform/linux"@,
    }
}

/// Where a part of a save lies below `dir`, both when a save is dumped
/// into a directory and when one is loaded from it.
pub fn save_part_path(dir: &str, part: SavePart) -> (r: String)
    ensures
        r@ == join_spec(dir@, save_part_dir(part)),
{
    match part {
        SavePart::Data => join(dir, "data"),
        SavePart::Windows => join(dir, "platform/windows"),
        SavePart::Linux => join(dir, "platform/linux"),
    }
}

/// A platform's update of a save is the update of the plain save holding
/// its objects, the data then that platform's executables; the other
/// platform's executables play no part. Any update the one gives and any
/// the other gives carry the same adds and replaces in the same order and
/// remove the same files, and are equal where at most one file is removed.
pub proof fn law_platform_update_is_save_update(
    save: Save,
    platform: Platform,
    remote: Seq<FileView>,
    from_world: Seq<ActionView>,
    from_sync: Seq<ActionView>,
)
    requires
        update_matches(save.objects_for(platform), remote, from_world),
        update_matches(save.data@ + save.runtime().for_platform(platform), remote, from_sync),
    ensures
        ({
            let (acts, left) = diff(save.objects_for(platform), remote_map(remote));
            &&& from_world.take(acts.len() as int) == from_sync.take(acts.len() as int)
            &&& forall|a: ActionView| from_world.skip(acts.len() as int).contains(a)
                <==> from_sync.skip(acts.len() as int).contains(a)
            &&& (forall|p: Seq<char>, q: Seq<char>| left.contains_key(p) && left.contains_key(q) ==> p == q)
                ==> from_world == from_sync
        }),
{
    law_updates_agree(save.objects_for(platform), remote, from_world, from_sync);
}

/// Whether `id` is the host of the current hosting, whatever its phase.
pub open spec fn hosted_by(state: HostState, id: HostId) -> bool {
    match state {
        HostState::Up(h) => h.id == id,
        HostState::Loading(h) => h.id == id,
        HostState::Unreachable(h) => h.id == id,
        _ => false,
    }
}

/// Succeeds where `id` is the host while loading, up or unreachable.
pub fn is_host(state: &HostState, id: HostId) -> (r: Result<(), ()>)
    ensures
        r is Ok == hosted_by(*state, id),
{
    match state {
        HostState::Up(host) | HostState::Loading(host) | HostState::Unreachable(host) => {
            if host.id != id {
                Err(())
            } else {
                Ok(())
            }
        },
        _ => Err(()),
    }
}

/// A new save may only be set while nobody hosts.
pub fn can_set_save(state: &HostState) -> (r: Result<(), Error>)
    ensures
        r == (if *state is NoHost { Ok(()) } else { Err(Error::SaveInUse) }),
{
    match state {
        HostState::NoHost => Ok(()),
        _ => Err(Error::SaveInUse),
    }
}

/// The save in the making, taken to be stored; an error where no save is
/// being made.
pub fn flush_save(pending: &mut Option<Save>) -> (r: Result<Save, Error>)
    ensures
        *final(pending) is None,
        r == match *old(pending) {
            Some(s) => Ok(s),
            None => Err(Error::NotSaving),
        },
{
    match pending.take() {
        Some(s) => Ok(s),
        None => Err(Error::NotSaving),
    }
}

/// A new save of the uploaded directory `content`, keeping the executables
/// of the last save, and the files the store still needs: a file the store
/// holds keeps the store's id, every other file gets a fresh id and is
/// listed for upload.
pub fn new_save<S: ObjectStore>(store: &S, last: Save, content: DirContent) -> (r: (Save, UpdateList))
    ensures
        r.0.data@.len() == content@.len(),
        forall|i: int| 0 <= i < content@.len() ==> (#[trigger] r.0.data@[i]).path == content@[i].path
            && r.0.data@[i].hash == content@[i].hash,
        forall|i: int| 0 <= i < content@.len() ==> (store.stored(&key_of(content.0@[i]))
            matches Some(id) ==> (#[trigger] r.0.data@[i]).id == id.0),
        forall|i: int| 0 <= i < content@.len() ==> store.stored(&key_of(content.0@[i])) is None
            ==> store.issued(ObjectId((#[trigger] r.0.data@[i]).id)),
        r.1@ == fresh_entries(r.0.data@, unstored(store, content.0@)),
        r.0.runtime() == last.runtime(),
{
    let (snapshot, list) = crate::sync::UpdateList::for_new_save(store, content);
    (Save { data: snapshot, runtime: last.runtime }, list)
}

} // verus!
