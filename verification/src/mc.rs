//! Watching the game server process that a hosting client runs: which of
//! its events end the watch, and with what outcome.

use vstd::prelude::*;

verus! {

/// Why the game server process failed, with the system's description of
/// the underlying error where there is one.
#[derive(Debug, PartialEq, Eq)]
pub enum InstanceError {
    BinMissing,
    CouldNotWriteEula(String),
    CouldNotStart(String),
    Crash(String),
    Unknown(String),
}

/// Why the process manager could not start the game server.
#[derive(Debug, PartialEq, Eq)]
pub enum StartError {
    /// Starting the process failed with this system error.
    Io(String),
    /// The manager refused for another reason.
    Other,
}

/// What the process manager reports about the game server.
#[derive(Debug, PartialEq, Eq)]
pub enum ServerRunEvent {
    StartResult(Result<(), StartError>),
    EulaResult(Result<(), String>),
    Stopped(Result<(), String>),
    StderrLine(String),
    StdoutLine(String),
    /// A line of the server console, parsed or not.
    Console,
}

/// How watching the game server goes on after an event.
#[derive(Debug, PartialEq, Eq)]
pub enum WatchStep {
    /// The server is up: wake whoever waits for the start.
    Started,
    /// Keep watching.
    Continue,
    /// The watch ends with this outcome.
    Finished(Result<(), InstanceError>),
}

/// The step for an event. A refusal to start that is no system error is
/// not handled here.
pub fn watch_step(event: ServerRunEvent) -> (r: WatchStep)
    requires
        !(event matches ServerRunEvent::StartResult(Err(StartError::Other))),
    ensures
        r == match event {
            ServerRunEvent::StartResult(Ok(())) => WatchStep::Started,
            ServerRunEvent::StartResult(Err(StartError::Io(e))) => WatchStep::Finished(Err(InstanceError::CouldNotStart(e))),
            ServerRunEvent::EulaResult(Ok(())) => WatchStep::Continue,
            ServerRunEvent::EulaResult(Err(e)) => WatchStep::Finished(Err(InstanceError::CouldNotWriteEula(e))),
            ServerRunEvent::Stopped(Ok(())) => WatchStep::Finished(Ok(())),
            ServerRunEvent::Stopped(Err(e)) => WatchStep::Finished(Err(InstanceError::Crash(e))),
            ServerRunEvent::StderrLine(s) => WatchStep::Finished(Err(InstanceError::Unknown(s))),
            _ => WatchStep::Continue,
        },
{
    match event {
        ServerRunEvent::StartResult(Ok(())) => WatchStep::Started,
        ServerRunEvent::StartResult(Err(StartError::Io(e))) => WatchStep::Finished(Err(InstanceError::CouldNotStart(e))),
        ServerRunEvent::StartResult(Err(StartError::Other)) => WatchStep::Continue,
        ServerRunEvent::EulaResult(Ok(())) => WatchStep::Continue,
        ServerRunEvent::EulaResult(Err(e)) => WatchStep::Finished(Err(InstanceError::CouldNotWriteEula(e))),
        ServerRunEvent::Stopped(Ok(())) => WatchStep::Finished(Ok(())),
        ServerRunEvent::Stopped(Err(e)) => WatchStep::Finished(Err(InstanceError::Crash(e))),
        ServerRunEvent::StderrLine(s) => WatchStep::Finished(Err(InstanceError::Unknown(s))),
        _ => WatchStep::Continue,
    }
}

/// What the client asks the game server to do.
#[derive(Debug, Clone, Copy, PartialEq, Eq)]
pub enum HandleRequest {
    Start,
    Save,
    Stop,
}

/// The line a request writes to the server console; starting writes none.
/// Stopping asks for a save first and then waits for the server to close.
pub fn console_command(req: HandleRequest) -> (r: Option<&'static str>)
    ensures
        match req {
            HandleRequest::Start => r is None,
            _ => r matches Some(c) && c@ == "save"@,
        },
{
    match req {
        HandleRequest::Start => None,
        _ => Some("save"),
    }
}

} // verus!
