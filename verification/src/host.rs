//! The life cycle of the hosted game server, as the server tracks it.
//!
//! The server keeps one [`HostState`]. What can change it depends on the
//! state: with no host only a request to host; while loading, reports from
//! the host and a deadline; while up, the host shutting down or the server
//! losing contact with it; while unreachable, contact coming back or a
//! deadline; while shutting down, the host's report that it stopped or a
//! deadline. Every change is announced to the clients.

use vstd::prelude::*;
use crate::protocol::{Addr, Event, HostDetails, HostId, HostState, host_of};

verus! {

/// What the current host reports about its game server, or a request of a
/// client to become the host. Except for the request, these must come from
/// the current host; the sender checks that.
#[derive(Debug)]
pub enum HostEvent {
    Loading(u8),
    Loaded,
    RequestToHost(HostDetails),
    ShuttingDown,
    ShutDown,
}

/// What the monitor of the host state waits for.
#[derive(Debug)]
pub enum MonitorInput {
    /// A report from the host or a request to host.
    Host(HostEvent),
    /// The deadline of the current state passed.
    TimedOut,
    /// The host's game server stopped answering.
    LostContact,
    /// The host's game server answers again.
    Reachable,
}

/// The number of a state's variant.
pub open spec fn phase(s: HostState) -> nat {
    match s {
        HostState::NoHost => 0,
        HostState::Loading(_) => 1,
        HostState::Up(_) => 2,
        HostState::Unreachable(_) => 3,
        HostState::ShuttingDown(_) => 4,
    }
}

/// The state that follows `state` on `input`, and what is announced to the
/// clients. An input that does not concern the state leaves it unchanged
/// and announces nothing.
pub open spec fn monitor_next(state: HostState, input: MonitorInput) -> (HostState, Option<Event>) {
    match state {
        HostState::NoHost => match input {
            MonitorInput::Host(HostEvent::RequestToHost(h)) => (HostState::Loading(h), Some(Event::NewHost(h))),
            _ => (state, None),
        },
        HostState::Loading(h) => match input {
            MonitorInput::Host(HostEvent::Loading(p)) => (state, Some(Event::HostLoading(p))),
            MonitorInput::Host(HostEvent::Loaded) => (HostState::Up(h), Some(Event::HostLoaded)),
            MonitorInput::TimedOut => (HostState::NoHost, Some(Event::HostCanceld)),
            _ => (state, None),
        },
        HostState::Up(h) => match input {
            MonitorInput::Host(HostEvent::ShuttingDown) => (HostState::ShuttingDown(h), Some(Event::HostShuttingDown)),
            MonitorInput::LostContact => (HostState::Unreachable(h), Some(Event::HostUnreachable)),
            _ => (state, None),
        },
        HostState::Unreachable(h) => match input {
            MonitorInput::Reachable => (HostState::Up(h), Some(Event::HostRestored)),
            MonitorInput::TimedOut => (HostState::NoHost, Some(Event::HostDropped)),
            _ => (state, None),
        },
        HostState::ShuttingDown(h) => match input {
            MonitorInput::Host(HostEvent::ShutDown) => (HostState::NoHost, Some(Event::HostShutdown)),
            MonitorInput::TimedOut => (HostState::NoHost, Some(Event::HostShutdown)),
            _ => (state, None),
        },
    }
}

/// One step of the host monitor: the next state and what to announce.
pub fn monitor_step(state: HostState, input: MonitorInput) -> (r: (HostState, Option<Event>))
    ensures
        r == monitor_next(state, input),
{
    match state {
        HostState::NoHost => match input {
            MonitorInput::Host(HostEvent::RequestToHost(h)) => {
                let announced = h.duplicate();
                (HostState::Loading(h), Some(Event::NewHost(announced)))
            },
            _ => (HostState::NoHost, None),
        },
        HostState::Loading(h) => match input {
            MonitorInput::Host(HostEvent::Loading(p)) => (HostState::Loading(h), Some(Event::HostLoading(p))),
            MonitorInput::Host(HostEvent::Loaded) => (HostState::Up(h), Some(Event::HostLoaded)),
            MonitorInput::TimedOut => (HostState::NoHost, Some(Event::HostCanceld)),
            _ => (HostState::Loading(h), None),
        },
        HostState::Up(h) => match input {
            MonitorInput::Host(HostEvent::ShuttingDown) => (HostState::ShuttingDown(h), Some(Event::HostShuttingDown)),
            MonitorInput::LostContact => (HostState::Unreachable(h), Some(Event::HostUnreachable)),
            _ => (HostState::Up(h), None),
        },
        HostState::Unreachable(h) => match input {
            MonitorInput::Reachable => (HostState::Up(h), Some(Event::HostRestored)),
            MonitorInput::TimedOut => (HostState::NoHost, Some(Event::HostDropped)),
            _ => (HostState::Unreachable(h), None),
        },
        HostState::ShuttingDown(h) => match input {
            MonitorInput::Host(HostEvent::ShutDown) => (HostState::NoHost, Some(Event::HostShutdown)),
            MonitorInput::TimedOut => (HostState::NoHost, Some(Event::HostShutdown)),
            _ => (HostState::ShuttingDown(h), None),
        },
    }
}

/// Whether an announcement starts a new loading deadline: the host
/// reporting loading progress does.
pub fn restarts_deadline(announced: &Option<Event>) -> (r: bool)
    ensures
        r == (announced matches Some(Event::HostLoading(_))),
{
    match announced {
        Some(Event::HostLoading(_)) => true,
        _ => false,
    }
}

/// What a line of the game server's console says, as far as hosting
/// cares.
#[derive(Debug, Clone, Copy, PartialEq, Eq)]
pub enum ServerMessage {
    /// The world is loading; this many percent are done.
    Loading(u8),
    /// The world is loaded.
    DoneLoading,
    /// The server is stopping.
    Stopping,
    /// Anything else.
    Other,
}

/// The host report a console line of the host's game server makes, if it
/// makes one.
pub fn host_event_of(msg: ServerMessage) -> (r: Option<HostEvent>)
    ensures
        r == match msg {
            ServerMessage::Loading(p) => Some(HostEvent::Loading(p)),
            ServerMessage::DoneLoading => Some(HostEvent::Loaded),
            ServerMessage::Stopping => Some(HostEvent::ShuttingDown),
            ServerMessage::Other => None::<HostEvent>,
        },
{
    match msg {
        ServerMessage::Loading(p) => Some(HostEvent::Loading(p)),
        ServerMessage::DoneLoading => Some(HostEvent::Loaded),
        ServerMessage::Stopping => Some(HostEvent::ShuttingDown),
        ServerMessage::Other => None,
    }
}

/// The port the game server is reached on.
pub const GAME_PORT: u16 = 25565;

/// A user's request to host under `id`, reachable at `addr` on the game
/// port.
pub fn hosting_request(name: String, addr: Addr, id: HostId) -> (r: HostEvent)
    ensures
        r == HostEvent::RequestToHost(HostDetails { name, addr, port: GAME_PORT, id }),
{
    HostEvent::RequestToHost(HostDetails { name, addr, port: GAME_PORT, id })
}

/// Only a request to host leaves the state without a host, and it makes the
/// requesting client the host, loading, announced to all clients.
pub proof fn law_only_a_request_starts_hosting(input: MonitorInput)
    ensures
        ({
            let (next, announced) = monitor_next(HostState::NoHost, input);
            match input {
                MonitorInput::Host(HostEvent::RequestToHost(h)) =>
                    next == HostState::Loading(h) && announced == Some(Event::NewHost(h)),
                _ => next == HostState::NoHost && announced is None,
            }
        }),
{
}

/// The host never changes while someone hosts: a state with a host is
/// followed by a state with the same host or by no host at all.
pub proof fn law_host_is_kept(state: HostState, input: MonitorInput)
    requires
        host_of(state) is Some,
    ensures
        host_of(monitor_next(state, input).0) is None
            || host_of(monitor_next(state, input).0) == host_of(state),
{
}

/// Every change of state is announced to the clients.
pub proof fn law_changes_are_announced(state: HostState, input: MonitorInput)
    ensures
        phase(monitor_next(state, input).0) != phase(state) ==> monitor_next(state, input).1 is Some,
{
}

/// A missed deadline ends the hosting in every state that has one.
pub proof fn law_deadline_ends_hosting(state: HostState)
    requires
        state is Loading || state is Unreachable || state is ShuttingDown,
    ensures
        monitor_next(state, MonitorInput::TimedOut).0 == HostState::NoHost,
        monitor_next(state, MonitorInput::TimedOut).1 is Some,
{
}

/// A request to host while someone hosts, in whatever phase, is ignored:
/// the state stays as it is and nothing is announced.
pub proof fn law_requests_while_hosting_are_ignored(state: HostState, h: HostDetails)
    requires
        !(state is NoHost),
    ensures
        monitor_next(state, MonitorInput::Host(HostEvent::RequestToHost(h))) == (state, None::<Event>),
{
}

/// Each phase reacts only to its own inputs; every other input leaves the
/// state as it is and announces nothing. Loading reacts to loading
/// progress, being loaded and the deadline; up to shutting down and lost
/// contact; unreachable to contact coming back and the deadline; shutting
/// down to the host's report that it stopped and the deadline.
pub proof fn law_other_inputs_change_nothing(state: HostState, input: MonitorInput)
    requires
        !(match state {
            HostState::NoHost => input matches MonitorInput::Host(HostEvent::RequestToHost(_)),
            HostState::Loading(_) => input matches MonitorInput::Host(HostEvent::Loading(_))
                || input matches MonitorInput::Host(HostEvent::Loaded) || input is TimedOut,
            HostState::Up(_) => input matches MonitorInput::Host(HostEvent::ShuttingDown) || input is LostContact,
            HostState::Unreachable(_) => input is Reachable || input is TimedOut,
            HostState::ShuttingDown(_) => input matches MonitorInput::Host(HostEvent::ShutDown) || input is TimedOut,
        }),
    ensures
        monitor_next(state, input) == (state, None::<Event>),
{
}

} // verus!
