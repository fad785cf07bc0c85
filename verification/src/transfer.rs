//! The client's two world transfers as state machines: downloading the
//! world before hosting, and uploading it when a session ends.
//!
//! Each machine says what outside work comes next; whoever runs it does
//! that work (a request to the server, a file operation) and hands the
//! outcome back, getting what to report to the page. Actions and uploads
//! are taken from the back of their list, one at a time.

use vstd::prelude::*;
use crate::protocol;
use crate::sync::{ActionView, DirUpdate, ObjectId, SyncAction, UpdateList};

verus! {

/// What can end the download of the world.
#[derive(Debug)]
pub enum DlError {
    NoMetaConn,
    FsError,
    Protocol(protocol::Error),
}

/// How far the download is.
#[derive(Debug, Clone, Copy, PartialEq, Eq, Structural)]
pub enum DlPhase {
    Started,
    Updating,
    End,
}

/// The download of the world into the local server directory.
#[derive(Debug)]
pub struct WorldDl {
    phase: DlPhase,
    updates: Vec<SyncAction>,
}

impl View for WorldDl {
    type V = (DlPhase, Seq<ActionView>);

    closed spec fn view(&self) -> (DlPhase, Seq<ActionView>) {
        (self.phase, self.updates@.map_values(|a: SyncAction| a@))
    }
}

/// The next piece of work of the download.
#[derive(Debug)]
pub enum DlWork {
    /// List the local directory and ask the server for the update.
    FetchDirUpdate,
    /// Carry out this action on the local directory.
    Apply(SyncAction),
    /// Every action is done: the world is up to date.
    Finished,
    /// Nothing is left to do.
    Stop,
}

/// The mathematical value of a [`DlWork`].
pub enum DlWorkView {
    FetchDirUpdate,
    Apply(ActionView),
    Finished,
    Stop,
}

impl View for DlWork {
    type V = DlWorkView;

    open spec fn view(&self) -> DlWorkView {
        match self {
            DlWork::FetchDirUpdate => DlWorkView::FetchDirUpdate,
            DlWork::Apply(a) => DlWorkView::Apply(a@),
            DlWork::Finished => DlWorkView::Finished,
            DlWork::Stop => DlWorkView::Stop,
        }
    }
}

/// What the download tells the host page.
#[derive(Debug)]
pub enum DlReport {
    /// The update arrived with this many actions.
    Starting { num_obj: usize },
    /// An action is done; this many are left.
    ObjToSync { left: usize },
    Error(DlError),
}

/// The download after asking it for work, and the work.
pub open spec fn dl_next(v: (DlPhase, Seq<ActionView>)) -> ((DlPhase, Seq<ActionView>), DlWorkView) {
    match v.0 {
        DlPhase::Started => (v, DlWorkView::FetchDirUpdate),
        DlPhase::Updating => if v.1.len() == 0 {
            ((DlPhase::End, v.1), DlWorkView::Finished)
        } else {
            ((DlPhase::Updating, v.1.drop_last()), DlWorkView::Apply(v.1.last()))
        },
        DlPhase::End => (v, DlWorkView::Stop),
    }
}

impl WorldDl {
    /// A download that has not asked for the update yet.
    pub fn new() -> (r: WorldDl)
        ensures
            r@ == (DlPhase::Started, Seq::<ActionView>::empty()),
    {
        let r = WorldDl { phase: DlPhase::Started, updates: Vec::new() };
        assert(r@.1 =~= Seq::<ActionView>::empty());
        r
    }

    /// The next piece of work; an action handed out is taken off the list.
    pub fn next_work(&mut self) -> (w: DlWork)
        ensures
            (final(self)@, w@) == dl_next(old(self)@),
    {
        match self.phase {
            DlPhase::Started => DlWork::FetchDirUpdate,
            DlPhase::Updating => {
                let ghost before = self.updates@;
                match self.updates.pop() {
                    Some(a) => {
                        assert(self.updates@.map_values(|a: SyncAction| a@) =~= before.map_values(|a: SyncAction| a@).drop_last());
                        DlWork::Apply(a)
                    },
                    None => {
                        self.phase = DlPhase::End;
                        DlWork::Finished
                    },
                }
            },
            DlPhase::End => DlWork::Stop,
        }
    }

    /// Takes in the server's answer to the request for the update.
    pub fn dir_update_fetched(&mut self, res: Result<DirUpdate, DlError>) -> (rep: DlReport)
        requires
            old(self)@.0 == DlPhase::Started,
        ensures
            match res {
                Ok(u) => final(self)@ == (DlPhase::Updating, u@)
                    && rep == (DlReport::Starting { num_obj: u@.len() as usize }),
                Err(e) => final(self)@ == (DlPhase::End, old(self)@.1) && rep == DlReport::Error(e),
            },
    {
        match res {
            Ok(u) => {
                let num_obj = u.0.len();
                self.updates = u.0;
                self.phase = DlPhase::Updating;
                DlReport::Starting { num_obj }
            },
            Err(e) => {
                self.phase = DlPhase::End;
                DlReport::Error(e)
            },
        }
    }

    /// Takes in the outcome of carrying out the action last handed out.
    pub fn action_applied(&mut self, res: Result<(), DlError>) -> (rep: DlReport)
        requires
            old(self)@.0 == DlPhase::Updating,
        ensures
            match res {
                Ok(()) => final(self)@ == old(self)@ && rep == (DlReport::ObjToSync { left: old(self)@.1.len() as usize }),
                Err(e) => final(self)@ == (DlPhase::End, old(self)@.1) && rep == DlReport::Error(e),
            },
    {
        match res {
            Ok(()) => DlReport::ObjToSync { left: self.updates.len() },
            Err(e) => {
                self.phase = DlPhase::End;
                DlReport::Error(e)
            },
        }
    }
}

/// The download after `k` requests for work, every action succeeding.
pub open spec fn dl_after(v: (DlPhase, Seq<ActionView>), k: nat) -> (DlPhase, Seq<ActionView>)
    decreases k,
{
    if k == 0 {
        v
    } else {
        dl_next(dl_after(v, (k - 1) as nat)).0
    }
}

proof fn lemma_dl_after(actions: Seq<ActionView>, k: nat)
    ensures
        k <= actions.len() ==> dl_after((DlPhase::Updating, actions), k) == (DlPhase::Updating, actions.take(actions.len() - k)),
        k > actions.len() ==> dl_after((DlPhase::Updating, actions), k) == (DlPhase::End, Seq::<ActionView>::empty()),
    decreases k,
{
    if k > 0 {
        lemma_dl_after(actions, (k - 1) as nat);
        if k <= actions.len() {
            let prev = actions.take(actions.len() - (k - 1));
            assert(prev.drop_last() =~= actions.take(actions.len() - k));
        } else if k == actions.len() + 1 {
            assert(actions.take(0) =~= Seq::<ActionView>::empty());
        }
    }
}

/// While every action succeeds, a download that received an update hands
/// out each of its actions exactly once, the last one first, then reports
/// the world as updated once, and afterwards does nothing.
pub proof fn law_download_applies_each_action_once(actions: Seq<ActionView>, k: nat)
    ensures
        k < actions.len() ==> dl_next(dl_after((DlPhase::Updating, actions), k)).1
            == DlWorkView::Apply(actions[actions.len() - 1 - k]),
        k == actions.len() ==> dl_next(dl_after((DlPhase::Updating, actions), k)).1 == DlWorkView::Finished,
        k > actions.len() ==> dl_next(dl_after((DlPhase::Updating, actions), k)).1 == DlWorkView::Stop,
{
    lemma_dl_after(actions, k);
}

/// What can end the upload of the world.
#[derive(Debug)]
pub enum UploadError {
    NoMetaConn,
    Fs,
    Protocol(protocol::Error),
    SyncError,
}

/// How far the upload is.
#[derive(Debug, Clone, Copy, PartialEq, Eq, Structural)]
pub enum UploadPhase {
    Started,
    Uploading,
    SetSave,
    End,
}

/// The upload of the local world as a new save.
#[derive(Debug)]
pub struct WorldUpload {
    phase: UploadPhase,
    objects: Vec<(ObjectId, String)>,
}

impl View for WorldUpload {
    type V = (UploadPhase, Seq<(u64, Seq<char>)>);

    closed spec fn view(&self) -> (UploadPhase, Seq<(u64, Seq<char>)>) {
        (self.phase, self.objects@.map_values(|e: (ObjectId, String)| (e.0.0, e.1@)))
    }
}

/// The next piece of work of the upload.
#[derive(Debug)]
pub enum UploadWork {
    /// List the local directory and ask the server for a new save.
    BuildUpdateList,
    /// Send the file at this path as the object with this id.
    Upload(ObjectId, String),
    /// Every file is sent.
    UploadDone,
    /// Ask the server to keep the new save.
    RegisterSave,
    /// Nothing is left to do.
    Stop,
}

/// The mathematical value of an [`UploadWork`].
pub enum UploadWorkView {
    BuildUpdateList,
    Upload(u64, Seq<char>),
    UploadDone,
    RegisterSave,
    Stop,
}

impl View for UploadWork {
    type V = UploadWorkView;

    open spec fn view(&self) -> UploadWorkView {
        match self {
            UploadWork::BuildUpdateList => UploadWorkView::BuildUpdateList,
            UploadWork::Upload(id, p) => UploadWorkView::Upload(id.0, p@),
            UploadWork::UploadDone => UploadWorkView::UploadDone,
            UploadWork::RegisterSave => UploadWorkView::RegisterSave,
            UploadWork::Stop => UploadWorkView::Stop,
        }
    }
}

/// What the upload tells the hosting page.
#[derive(Debug)]
pub enum UploadReport {
    /// The server wants this many files.
    UploadStarting(usize),
    /// A file is sent; this many are left.
    Uploading(usize),
    /// The server keeps the new save.
    SaveRegisterd,
    Error(UploadError),
}

/// The upload after asking it for work, and the work.
pub open spec fn upload_next(v: (UploadPhase, Seq<(u64, Seq<char>)>)) -> ((UploadPhase, Seq<(u64, Seq<char>)>), UploadWorkView) {
    match v.0 {
        UploadPhase::Started => (v, UploadWorkView::BuildUpdateList),
        UploadPhase::Uploading => if v.1.len() == 0 {
            ((UploadPhase::SetSave, v.1), UploadWorkView::UploadDone)
        } else {
            ((UploadPhase::Uploading, v.1.drop_last()), UploadWorkView::Upload(v.1.last().0, v.1.last().1))
        },
        UploadPhase::SetSave => (v, UploadWorkView::RegisterSave),
        UploadPhase::End => (v, UploadWorkView::Stop),
    }
}

impl WorldUpload {
    /// An upload that has not asked for a new save yet.
    pub fn new() -> (r: WorldUpload)
        ensures
            r@ == (UploadPhase::Started, Seq::<(u64, Seq<char>)>::empty()),
    {
        let r = WorldUpload { phase: UploadPhase::Started, objects: Vec::new() };
        assert(r@.1 =~= Seq::<(u64, Seq<char>)>::empty());
        r
    }

    /// The next piece of work; a file handed out is taken off the list.
    pub fn next_work(&mut self) -> (w: UploadWork)
        ensures
            (final(self)@, w@) == upload_next(old(self)@),
    {
        match self.phase {
            UploadPhase::Started => UploadWork::BuildUpdateList,
            UploadPhase::Uploading => {
                let ghost before = self.objects@;
                match self.objects.pop() {
                    Some((id, path)) => {
                        assert(self.objects@.map_values(|e: (ObjectId, String)| (e.0.0, e.1@))
                            =~= before.map_values(|e: (ObjectId, String)| (e.0.0, e.1@)).drop_last());
                        UploadWork::Upload(id, path)
                    },
                    None => {
                        self.phase = UploadPhase::SetSave;
                        UploadWork::UploadDone
                    },
                }
            },
            UploadPhase::SetSave => UploadWork::RegisterSave,
            UploadPhase::End => UploadWork::Stop,
        }
    }

    /// Takes in the server's list of the files it wants.
    pub fn update_list_built(&mut self, res: Result<UpdateList, UploadError>) -> (rep: UploadReport)
        requires
            old(self)@.0 == UploadPhase::Started,
        ensures
            match res {
                Ok(list) => final(self)@ == (UploadPhase::Uploading, list@)
                    && rep == UploadReport::UploadStarting(list@.len() as usize),
                Err(e) => final(self)@ == (UploadPhase::End, old(self)@.1) && rep == UploadReport::Error(e),
            },
    {
        match res {
            Ok(list) => {
                let n = list.0.len();
                self.objects = list.0;
                self.phase = UploadPhase::Uploading;
                UploadReport::UploadStarting(n)
            },
            Err(e) => {
                self.phase = UploadPhase::End;
                UploadReport::Error(e)
            },
        }
    }

    /// Takes in the outcome of sending the file last handed out.
    pub fn uploaded(&mut self, res: Result<(), UploadError>) -> (rep: UploadReport)
        requires
            old(self)@.0 == UploadPhase::Uploading,
        ensures
            match res {
                Ok(()) => final(self)@ == old(self)@ && rep == UploadReport::Uploading(old(self)@.1.len() as usize),
                Err(e) => final(self)@ == (UploadPhase::End, old(self)@.1) && rep == UploadReport::Error(e),
            },
    {
        match res {
            Ok(()) => UploadReport::Uploading(self.objects.len()),
            Err(e) => {
                self.phase = UploadPhase::End;
                UploadReport::Error(e)
            },
        }
    }

    /// Takes in the server's answer to keeping the save; the upload ends
    /// either way.
    pub fn save_registered(&mut self, res: Result<(), UploadError>) -> (rep: UploadReport)
        requires
            old(self)@.0 == UploadPhase::SetSave,
        ensures
            final(self)@ == (UploadPhase::End, old(self)@.1),
            match res {
                Ok(()) => rep == UploadReport::SaveRegisterd,
                Err(e) => rep == UploadReport::Error(e),
            },
    {
        self.phase = UploadPhase::End;
        match res {
            Ok(()) => UploadReport::SaveRegisterd,
            Err(e) => UploadReport::Error(e),
        }
    }
}

/// The upload after `k` requests for work, every file sent successfully.
pub open spec fn upload_after(v: (UploadPhase, Seq<(u64, Seq<char>)>), k: nat) -> (UploadPhase, Seq<(u64, Seq<char>)>)
    decreases k,
{
    if k == 0 {
        v
    } else {
        upload_next(upload_after(v, (k - 1) as nat)).0
    }
}

proof fn lemma_upload_after(files: Seq<(u64, Seq<char>)>, k: nat)
    ensures
        k <= files.len() ==> upload_after((UploadPhase::Uploading, files), k) == (UploadPhase::Uploading, files.take(files.len() - k)),
        k > files.len() ==> upload_after((UploadPhase::Uploading, files), k) == (UploadPhase::SetSave, Seq::<(u64, Seq<char>)>::empty()),
    decreases k,
{
    if k > 0 {
        lemma_upload_after(files, (k - 1) as nat);
        if k <= files.len() {
            let prev = files.take(files.len() - (k - 1));
            assert(prev.drop_last() =~= files.take(files.len() - k));
        } else if k == files.len() + 1 {
            assert(files.take(0) =~= Seq::<(u64, Seq<char>)>::empty());
        }
    }
}

/// While every file is sent successfully, an upload that received the
/// server's list sends each listed file exactly once, the last one first,
/// then reports the upload done once, and from then on asks to register
/// the save.
pub proof fn law_upload_sends_each_file_once(files: Seq<(u64, Seq<char>)>, k: nat)
    ensures
        k < files.len() ==> upload_next(upload_after((UploadPhase::Uploading, files), k)).1
            == UploadWorkView::Upload(files[files.len() - 1 - k].0, files[files.len() - 1 - k].1),
        k == files.len() ==> upload_next(upload_after((UploadPhase::Uploading, files), k)).1 == UploadWorkView::UploadDone,
        k > files.len() ==> upload_next(upload_after((UploadPhase::Uploading, files), k)).1 == UploadWorkView::RegisterSave,
{
    lemma_upload_after(files, k);
}

} // verus!
