use worldsync::protocol::{self, Addr, Event, HostDetails};
use worldsync::host::{host_event_of, hosting_request, HostEvent, ServerMessage, GAME_PORT};
use worldsync::rpc::{await_event_outcome, EventWait};
use worldsync::sync::{DirUpdate, ObjectId, SyncAction, UpdateList};
use worldsync::transfer::{DlError, DlReport, DlWork, UploadError, UploadReport, UploadWork, WorldDl, WorldUpload};

fn update() -> DirUpdate {
    DirUpdate(vec![
        SyncAction::Add("a".to_string(), ObjectId(1)),
        SyncAction::Remove("b".to_string()),
        SyncAction::Replace("c".to_string(), ObjectId(3)),
    ])
}

#[test]
fn download_applies_each_action_once_last_first() {
    let mut dl = WorldDl::new();
    assert!(matches!(dl.next_work(), DlWork::FetchDirUpdate));
    assert!(matches!(dl.dir_update_fetched(Ok(update())), DlReport::Starting { num_obj: 3 }));

    let mut applied = Vec::new();
    loop {
        match dl.next_work() {
            DlWork::Apply(a) => {
                applied.push(a);
                let left = applied.len();
                assert!(matches!(dl.action_applied(Ok(())), DlReport::ObjToSync { left: l } if l == 3 - left));
            }
            DlWork::Finished => break,
            other => panic!("unexpected {:?}", other),
        }
    }
    let mut expected = update().0;
    expected.reverse();
    assert_eq!(applied, expected);
    assert!(matches!(dl.next_work(), DlWork::Stop));
    assert!(matches!(dl.next_work(), DlWork::Stop));
}

#[test]
fn download_ends_on_error() {
    let mut dl = WorldDl::new();
    dl.next_work();
    assert!(matches!(dl.dir_update_fetched(Err(DlError::NoMetaConn)), DlReport::Error(DlError::NoMetaConn)));
    assert!(matches!(dl.next_work(), DlWork::Stop));

    let mut dl = WorldDl::new();
    dl.next_work();
    dl.dir_update_fetched(Ok(update()));
    dl.next_work();
    assert!(matches!(dl.action_applied(Err(DlError::FsError)), DlReport::Error(DlError::FsError)));
    assert!(matches!(dl.next_work(), DlWork::Stop));
}

#[test]
fn empty_update_finishes_at_once() {
    let mut dl = WorldDl::new();
    dl.next_work();
    assert!(matches!(dl.dir_update_fetched(Ok(DirUpdate(vec![]))), DlReport::Starting { num_obj: 0 }));
    assert!(matches!(dl.next_work(), DlWork::Finished));
}

#[test]
fn upload_sends_each_file_then_registers() {
    let mut up = WorldUpload::new();
    assert!(matches!(up.next_work(), UploadWork::BuildUpdateList));
    let list = UpdateList(vec![(ObjectId(1), "world/a".to_string()), (ObjectId(2), "world/b".to_string())]);
    assert!(matches!(up.update_list_built(Ok(list)), UploadReport::UploadStarting(2)));
    assert!(matches!(up.next_work(), UploadWork::Upload(ObjectId(2), ref p) if p == "world/b"));
    assert!(matches!(up.uploaded(Ok(())), UploadReport::Uploading(1)));
    assert!(matches!(up.next_work(), UploadWork::Upload(ObjectId(1), ref p) if p == "world/a"));
    assert!(matches!(up.uploaded(Ok(())), UploadReport::Uploading(0)));
    assert!(matches!(up.next_work(), UploadWork::UploadDone));
    assert!(matches!(up.next_work(), UploadWork::RegisterSave));
    assert!(matches!(up.save_registered(Ok(())), UploadReport::SaveRegisterd));
    assert!(matches!(up.next_work(), UploadWork::Stop));
}

#[test]
fn upload_errors_end_it() {
    let mut up = WorldUpload::new();
    up.next_work();
    assert!(matches!(up.update_list_built(Err(UploadError::SyncError)), UploadReport::Error(UploadError::SyncError)));
    assert!(matches!(up.next_work(), UploadWork::Stop));

    let mut up = WorldUpload::new();
    up.next_work();
    up.update_list_built(Ok(UpdateList(vec![])));
    assert!(matches!(up.next_work(), UploadWork::UploadDone));
    assert!(matches!(up.next_work(), UploadWork::RegisterSave));
    let err = UploadError::Protocol(protocol::Error::NotHost);
    assert!(matches!(up.save_registered(Err(err)), UploadReport::Error(UploadError::Protocol(protocol::Error::NotHost))));
    assert!(matches!(up.next_work(), UploadWork::Stop));
}

#[test]
fn console_lines_become_host_reports() {
    assert!(matches!(host_event_of(ServerMessage::Loading(42)), Some(HostEvent::Loading(42))));
    assert!(matches!(host_event_of(ServerMessage::DoneLoading), Some(HostEvent::Loaded)));
    assert!(matches!(host_event_of(ServerMessage::Stopping), Some(HostEvent::ShuttingDown)));
    assert!(host_event_of(ServerMessage::Other).is_none());
}

#[test]
fn hosting_requests_use_the_game_port() {
    let r = hosting_request("alice".to_string(), Addr::Domain("example.org".to_string()), 77);
    assert!(matches!(
        r,
        HostEvent::RequestToHost(HostDetails { ref name, port: 25565, id: 77, .. }) if name == "alice"
    ));
    assert_eq!(GAME_PORT, 25565);
}

#[test]
fn waiting_for_events() {
    assert!(matches!(await_event_outcome(EventWait::Locked), Err(protocol::Error::BackLogLocked)));
    assert!(matches!(await_event_outcome(EventWait::TimedOut), Ok(Event::AwaitTimeout)));
    assert!(matches!(await_event_outcome(EventWait::Lagged), Err(protocol::Error::Lagging)));
    assert!(matches!(await_event_outcome(EventWait::Got(Event::HostLoaded)), Ok(Event::HostLoaded)));
}
