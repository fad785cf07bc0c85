use worldsync::client::{
    ClientError,
    download_local_path, error_fields, java_up_to_date, join_title, page_after_login, parse_server_str, passes_on,
    server_event_action,
    upload_local_path, ClientAction, FieldFlags, JoinHostState, LoginError, Page, SubStatus,
};
use worldsync::localjava;
use worldsync::protocol::{Addr, Event, HostDetails, HostState};

fn details(id: u128) -> HostDetails {
    HostDetails { name: "bob".to_string(), addr: Addr::Domain("example.org".to_string()), port: 25565, id }
}

#[test]
fn server_address_is_split_at_the_first_colon() {
    assert_eq!(parse_server_str("example.org:8080"), Ok(("example.org".to_string(), 8080)));
    assert_eq!(parse_server_str(":1"), Ok((String::new(), 1)));
    assert_eq!(parse_server_str("example.org"), Err(LoginError::InvalidFormat));
    assert_eq!(parse_server_str("example.org:http"), Err(LoginError::NotANumber));
    assert_eq!(parse_server_str("example.org:70000"), Err(LoginError::NotANumber));
    assert_eq!(parse_server_str("a:1:2"), Err(LoginError::NotANumber));
    assert_eq!(parse_server_str("[::1]:80"), Err(LoginError::NotANumber));
}

#[test]
fn login_errors_mark_fields() {
    let server = FieldFlags { server: true, username: false, password: false };
    let creds = FieldFlags { server: false, username: true, password: true };
    let none = FieldFlags { server: false, username: false, password: false };
    assert_eq!(error_fields(&LoginError::InvalidFormat), server);
    assert_eq!(error_fields(&LoginError::NotANumber), server);
    assert_eq!(error_fields(&LoginError::NoMetaConn), server);
    assert_eq!(error_fields(&LoginError::IncorrectLogin), creds);
    assert_eq!(error_fields(&LoginError::CouldNotConnect), none);
}

#[test]
fn background_tasks_restart_under_new_numbers() {
    let mut s = SubStatus::default();
    assert_eq!(s.active(), None);
    s.start();
    assert_eq!(s.active(), Some(1));
    s.start();
    assert_eq!(s.active(), Some(1));
    s.stop();
    assert_eq!(s.active(), None);
    s.start();
    assert_eq!(s.active(), Some(2));
}

#[test]
fn local_paths_of_world_files() {
    assert_eq!(download_local_path("world/level.dat"), "server/world/level.dat");
    assert_eq!(upload_local_path("world/level.dat"), "worldsync/mc_server/world/level.dat");
}

#[test]
fn join_page_shows_host_state() {
    assert_eq!(JoinHostState::from_host_state(&HostState::Loading(details(1))), JoinHostState::Loading(0));
    assert_eq!(JoinHostState::from_host_state(&HostState::Up(details(1))), JoinHostState::Running);
    assert_eq!(JoinHostState::from_host_state(&HostState::Unreachable(details(1))), JoinHostState::Unreachable);
    assert_eq!(JoinHostState::from_host_state(&HostState::ShuttingDown(details(1))), JoinHostState::ShuttingDown);
    assert_eq!(JoinHostState::from_event(&Event::HostLoading(30)), JoinHostState::Loading(30));
    assert_eq!(JoinHostState::from_event(&Event::HostUnreachable), JoinHostState::Unreachable);
    assert_eq!(join_title("bob", JoinHostState::Loading(3)), "bob started hosting");
    assert_eq!(join_title("bob", JoinHostState::Running), "bob is hosting");
    assert_eq!(join_title("bob", JoinHostState::ShuttingDown), "bob was hosting (shutting down)");
    assert_eq!(join_title("bob", JoinHostState::Unreachable), "bob is hosting and having issues");
}

#[test]
fn own_hosting_starts_the_download() {
    let a = server_event_action(Page::Host, Event::NewHost(details(5)), Some(5), false);
    assert!(matches!(a, ClientAction::StartWorldDownload));
    let a = server_event_action(Page::Host, Event::NewHost(details(5)), Some(6), false);
    assert!(matches!(a, ClientAction::ShowJoin(ref h) if h.id == 5));
    let a = server_event_action(Page::Login, Event::NewHost(details(5)), None, false);
    assert!(matches!(a, ClientAction::ShowJoin(_)));
}

#[test]
fn server_events_drive_pages() {
    assert!(matches!(server_event_action(Page::Host, Event::HostLoading(12), None, false), ClientAction::ForwardLoading(12)));
    assert!(matches!(server_event_action(Page::Host, Event::HostLoaded, None, false), ClientAction::ShowHosting));
    assert!(matches!(server_event_action(Page::Join, Event::HostLoaded, None, true), ClientAction::UpdateJoin(JoinHostState::Running)));
    assert!(matches!(server_event_action(Page::Join, Event::HostLoading(50), None, true), ClientAction::UpdateJoin(JoinHostState::Loading(50))));
    assert!(matches!(server_event_action(Page::Join, Event::HostDropped, None, true), ClientAction::ShowHost));
    assert!(matches!(server_event_action(Page::Join, Event::HostCanceld, None, true), ClientAction::ShowHost));
    assert!(matches!(server_event_action(Page::Hosting, Event::HostShutdown, None, false), ClientAction::ShowHost));
    assert!(matches!(server_event_action(Page::Login, Event::TestHB(3), None, false), ClientAction::Heartbeat(3)));
    assert!(matches!(server_event_action(Page::Login, Event::HostRestored, None, false), ClientAction::Nothing));
    assert!(matches!(server_event_action(Page::Join, Event::HostShuttingDown, None, true), ClientAction::UpdateJoin(JoinHostState::ShuttingDown)));
}

#[test]
fn java_must_be_17_0_1() {
    assert!(java_up_to_date(&localjava::Version::new(17, 0, 1)));
    assert!(!java_up_to_date(&localjava::Version::new(17, 0, 2)));
    assert!(!java_up_to_date(&localjava::Version::try_from("\"17.0.1-ea\"").unwrap()));
}

#[test]
fn timed_out_waits_are_not_passed_on() {
    assert!(!passes_on(&Event::AwaitTimeout));
    assert!(passes_on(&Event::HostLoaded));
    assert!(passes_on(&Event::TestHB(1)));
}

#[test]
fn absolute_remote_paths_are_taken_as_they_are() {
    assert_eq!(download_local_path("/etc/passwd"), "/etc/passwd");
}

#[test]
fn page_after_logging_in() {
    assert_eq!(page_after_login(&HostState::NoHost), (Page::Host, None));
    assert_eq!(page_after_login(&HostState::Up(details(1))), (Page::Join, Some(JoinHostState::Running)));
    assert_eq!(page_after_login(&HostState::Loading(details(1))), (Page::Join, Some(JoinHostState::Loading(0))));
}

#[test]
fn server_address_round_trip() {
    for (d, n) in [("example.org", 25565u16), ("", 0), ("localhost", 65535), ("a.b", 8)] {
        assert_eq!(parse_server_str(&format!("{}:{}", d, n)), Ok((d.to_string(), n)));
    }
}

#[test]
fn server_errors_are_reported_as_internal() {
    assert_eq!(ClientError::from_protocol(worldsync::protocol::Error::Internal), ClientError::Internal);
    assert_eq!(ClientError::from_protocol(worldsync::protocol::Error::SessionExpired), ClientError::Internal);
    assert_eq!(ClientError::from_protocol(worldsync::protocol::Error::NotHost), ClientError::Internal);
}
