use worldsync::mc::{console_command, watch_step, HandleRequest, InstanceError, ServerRunEvent, StartError, WatchStep};

#[test]
fn start_wakes_the_waiting_client() {
    assert_eq!(watch_step(ServerRunEvent::StartResult(Ok(()))), WatchStep::Started);
}

#[test]
fn output_and_console_lines_keep_the_watch() {
    assert_eq!(watch_step(ServerRunEvent::StdoutLine("Done".to_string())), WatchStep::Continue);
    assert_eq!(watch_step(ServerRunEvent::Console), WatchStep::Continue);
    assert_eq!(watch_step(ServerRunEvent::EulaResult(Ok(()))), WatchStep::Continue);
}

#[test]
fn failures_end_the_watch() {
    assert_eq!(
        watch_step(ServerRunEvent::StartResult(Err(StartError::Io("denied".to_string())))),
        WatchStep::Finished(Err(InstanceError::CouldNotStart("denied".to_string())))
    );
    assert_eq!(
        watch_step(ServerRunEvent::EulaResult(Err("read only".to_string()))),
        WatchStep::Finished(Err(InstanceError::CouldNotWriteEula("read only".to_string())))
    );
    assert_eq!(
        watch_step(ServerRunEvent::Stopped(Err("killed".to_string()))),
        WatchStep::Finished(Err(InstanceError::Crash("killed".to_string())))
    );
    assert_eq!(
        watch_step(ServerRunEvent::StderrLine("oops".to_string())),
        WatchStep::Finished(Err(InstanceError::Unknown("oops".to_string())))
    );
}

#[test]
fn a_clean_stop_ends_well() {
    assert_eq!(watch_step(ServerRunEvent::Stopped(Ok(()))), WatchStep::Finished(Ok(())));
}

#[test]
fn console_commands() {
    assert_eq!(console_command(HandleRequest::Start), None);
    assert_eq!(console_command(HandleRequest::Save), Some("save"));
    assert_eq!(console_command(HandleRequest::Stop), Some("save"));
}
