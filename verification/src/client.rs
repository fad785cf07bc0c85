//! Decisions of the desktop client: reading the server address, tracking
//! background tasks, and reacting to what the server announces.

use vstd::prelude::*;
use crate::localjava;
use crate::paths::{join, join_spec, server_path};
use crate::protocol::{self, Event, HostDetails, HostId, HostState, Version};
use crate::text::{decimal, find_char, first_index_of, lemma_decimal_digits, lemma_first_index_exists, parse_u16, parse_u16_spec};

verus! {

/// What can go wrong logging in.
#[derive(Debug, PartialEq, Eq, Hash)]
pub enum LoginError {
    InvalidFormat,
    NotANumber,
    NoMetaConn,
    CouldNotConnect,
    IncorrectLogin,
    VersionMismatch { our: Version, server: Version },
}

/// What the client reports of a failure.
#[derive(Debug, Clone, PartialEq, Eq)]
pub enum ClientError {
    /// The game server failed; its description.
    McServer(String),
    NoMetaConn,
    Internal,
    SessionExpired,
}

impl ClientError {
    /// The client's error for an error the server answered with: whatever
    /// the server answered, the client reports an internal error.
    pub fn from_protocol(err: protocol::Error) -> (r: ClientError)
        ensures
            r == ClientError::Internal,
    {
        match err {
            _ => ClientError::Internal,
        }
    }
}

/// The domain and port of `domain:port`, split at the first colon; nothing
/// without a colon or with a port that is no `u16`.
pub open spec fn server_parts(s: Seq<char>) -> Option<(Seq<char>, u16)> {
    match first_index_of(s, ':') {
        None => None,
        Some(i) => match parse_u16_spec(s.skip(i + 1)) {
            None => None,
            Some(port) => Some((s.take(i), port)),
        },
    }
}

/// Splits `domain:port` at the first colon and reads the port.
pub fn parse_server_str(server_str: &str) -> (r: Result<(String, u16), LoginError>)
    ensures
        match server_parts(server_str@) {
            Some((d, p)) => r matches Ok((x, q)) && x@ == d && q == p,
            None => r is Err,
        },
        match first_index_of(server_str@, ':') {
            None => r == Err::<(String, u16), LoginError>(LoginError::InvalidFormat),
            Some(i) => match parse_u16_spec(server_str@.skip(i + 1)) {
                None => r == Err::<(String, u16), LoginError>(LoginError::NotANumber),
                Some(port) => r matches Ok((domain, p)) && domain@ == server_str@.take(i) && p == port,
            },
        },
{
    let n = server_str.unicode_len();
    let i = match find_char(server_str, ':') {
        Some(i) => i,
        None => return Err(LoginError::InvalidFormat),
    };
    let domain = server_str.substring_char(0, i);
    let port_text = server_str.substring_char(i + 1, n);
    assert(port_text@ =~= server_str@.skip(i + 1));
    assert(domain@ =~= server_str@.take(i as int));
    let port = match parse_u16(port_text) {
        Some(p) => p,
        None => return Err(LoginError::NotANumber),
    };
    Ok((domain.to_owned(), port))
}

/// Reading a server address undoes writing one: a domain without a colon,
/// a colon and the decimal text of a port read back as that domain and
/// port.
pub proof fn law_server_address_round_trip(d: Seq<char>, n: u16)
    requires
        forall|i: int| 0 <= i < d.len() ==> d[i] != ':',
    ensures
        server_parts(d + seq![':'] + decimal(n as nat)) == Some((d, n)),
{
    let s = d + seq![':'] + decimal(n as nat);
    assert(s[d.len() as int] == ':');
    assert forall|j: int| 0 <= j < d.len() implies s[j] != ':' by {
        assert(s[j] == d[j]);
    }
    lemma_first_index_exists(s, ':', d.len() as int);
    assert(s.skip(d.len() as int + 1) =~= decimal(n as nat));
    assert(s.take(d.len() as int) =~= d);
    lemma_decimal_digits(n as nat);
    let t = decimal(n as nat);
    assert(crate::text::is_digit(t[0]));
}

/// Which input fields of the login page an error marks as wrong.
#[derive(Debug, Clone, Copy, PartialEq, Eq)]
pub struct FieldFlags {
    pub server: bool,
    pub username: bool,
    pub password: bool,
}

/// The fields to mark for a login error: the server field for a bad or
/// unreachable address, the name and password fields for a refused log-in.
pub fn error_fields(e: &LoginError) -> (r: FieldFlags)
    ensures
        r.server == (*e is NoMetaConn || *e is NotANumber || *e is InvalidFormat),
        r.username == (*e is IncorrectLogin),
        r.password == (*e is IncorrectLogin),
{
    match e {
        LoginError::NoMetaConn | LoginError::NotANumber | LoginError::InvalidFormat =>
            FieldFlags { server: true, username: false, password: false },
        LoginError::IncorrectLogin => FieldFlags { server: false, username: true, password: true },
        _ => FieldFlags { server: false, username: false, password: false },
    }
}

/// Whether a background task should run, with a number that changes
/// every time it is started anew.
#[derive(Debug, Clone, Copy)]
pub struct SubStatus {
    id: usize,
    active: bool,
}

impl View for SubStatus {
    type V = (usize, bool);

    closed spec fn view(&self) -> (usize, bool) {
        (self.id, self.active)
    }
}

impl Default for SubStatus {
    fn default() -> (r: SubStatus)
        ensures
            r@ == (0usize, false),
    {
        SubStatus { id: 0, active: false }
    }
}

impl SubStatus {
    /// Stops the task.
    pub fn stop(&mut self)
        requires
            old(self)@.1,
        ensures
            final(self)@ == (old(self)@.0, false),
    {
        self.active = false;
    }

    /// Starts the task under a new number, unless it runs already.
    pub fn start(&mut self)
        requires
            !old(self)@.1 ==> old(self)@.0 < usize::MAX,
        ensures
            final(self)@ == (if old(self)@.1 { old(self)@ } else { ((old(self)@.0 + 1) as usize, true) }),
    {
        if self.active {
            return;
        }
        self.active = true;
        self.id = self.id + 1;
    }

    /// The number of the running task, if it runs.
    pub fn active(&self) -> (r: Option<usize>)
        ensures
            r == (if self@.1 { Some(self@.0) } else { None::<usize> }),
    {
        match self.active {
            true => Some(self.id),
            false => None,
        }
    }
}

/// A task started again after it stopped runs under a number it never had
/// before: numbers only grow.
pub proof fn law_restart_gets_new_number(before: (usize, bool), after: (usize, bool))
    requires
        !before.1,
        after == ((before.0 + 1) as usize, true),
        before.0 < usize::MAX,
    ensures
        after.0 > before.0,
{
}

/// The local path of a file of the downloaded world.
pub fn download_local_path(remote_path: &str) -> (r: String)
    ensures
        r@ == join_spec("server"@, remote_path@),
{
    join("server", remote_path)
}

/// The local path of a file of the world to upload.
pub fn upload_local_path(remote_path: &str) -> (r: String)
    ensures
        r@ == join_spec("worldsync/mc_server"@, remote_path@),
{
    join(server_path(), remote_path)
}

/// Whether an event the client waited for is passed on to the pages; a
/// wait that timed out is not, the client just waits again.
pub fn passes_on(event: &Event) -> (r: bool)
    ensures
        r == !(*event is AwaitTimeout),
{
    match event {
        Event::AwaitTimeout => false,
        _ => true,
    }
}

/// What a joining client shows of the host.
#[derive(Debug, Clone, Copy, PartialEq, Eq)]
pub enum JoinHostState {
    Loading(u8),
    Running,
    ShuttingDown,
    Unreachable,
}

impl JoinHostState {
    /// What to show for a hosting state; there must be a host.
    pub fn from_host_state(state: &HostState) -> (r: JoinHostState)
        requires
            !(*state is NoHost),
        ensures
            r == match *state {
                HostState::Loading(_) => JoinHostState::Loading(0),
                HostState::Up(_) => JoinHostState::Running,
                HostState::Unreachable(_) => JoinHostState::Unreachable,
                _ => JoinHostState::ShuttingDown,
            },
    {
        match state {
            HostState::Loading(_) => JoinHostState::Loading(0),
            HostState::Up(_) => JoinHostState::Running,
            HostState::Unreachable(_) => JoinHostState::Unreachable,
            _ => JoinHostState::ShuttingDown,
        }
    }

    /// What to show after a host event; only the events that say how the
    /// host is doing are taken.
    pub fn from_event(event: &Event) -> (r: JoinHostState)
        requires
            shows_host_state(*event),
        ensures
            r == join_state_of(*event),
    {
        match event {
            Event::HostLoading(p) => JoinHostState::Loading(*p),
            Event::HostLoaded => JoinHostState::Running,
            Event::HostShuttingDown => JoinHostState::ShuttingDown,
            _ => JoinHostState::Unreachable,
        }
    }
}

/// The events that say how the host is doing.
pub open spec fn shows_host_state(event: Event) -> bool {
    event is HostLoading || event is HostLoaded || event is HostShuttingDown || event is HostUnreachable
}

/// What a joining client shows after one of those events.
pub open spec fn join_state_of(event: Event) -> JoinHostState {
    match event {
        Event::HostLoading(p) => JoinHostState::Loading(p),
        Event::HostLoaded => JoinHostState::Running,
        Event::HostShuttingDown => JoinHostState::ShuttingDown,
        _ => JoinHostState::Unreachable,
    }
}

/// The headline a joining client shows about the host.
pub open spec fn join_title_spec(name: Seq<char>, state: JoinHostState) -> Seq<char> {
    match state {
        JoinHostState::Loading(_) => name + " started hosting"@,
        JoinHostState::Running => name + " is hosting"@,
        JoinHostState::ShuttingDown => name + " was hosting (shutting down)"@,
        JoinHostState::Unreachable => name + " is hosting and having issues"@,
    }
}

/// The headline a joining client shows about the host.
pub fn join_title(name: &str, state: JoinHostState) -> (r: String)
    ensures
        r@ == join_title_spec(name@, state),
{
    let mut r = String::from_str(name);
    match state {
        JoinHostState::Loading(_) => r.append(" started hosting"),
        JoinHostState::Running => r.append(" is hosting"),
        JoinHostState::ShuttingDown => r.append(" was hosting (shutting down)"),
        JoinHostState::Unreachable => r.append(" is hosting and having issues"),
    }
    r
}

/// The pages of the client.
#[derive(Debug, Clone, Copy, PartialEq, Eq, Structural)]
pub enum Page {
    Login,
    Hosting,
    Host,
    Join,
}

/// The page shown after logging in, with what the join page shows of the
/// host: the host page when nobody hosts, else the join page.
pub fn page_after_login(state: &HostState) -> (r: (Page, Option<JoinHostState>))
    ensures
        r == match *state {
            HostState::NoHost => (Page::Host, None::<JoinHostState>),
            HostState::Loading(_) => (Page::Join, Some(JoinHostState::Loading(0))),
            HostState::Up(_) => (Page::Join, Some(JoinHostState::Running)),
            HostState::Unreachable(_) => (Page::Join, Some(JoinHostState::Unreachable)),
            HostState::ShuttingDown(_) => (Page::Join, Some(JoinHostState::ShuttingDown)),
        },
{
    match state {
        HostState::NoHost => (Page::Host, None),
        _ => (Page::Join, Some(JoinHostState::from_host_state(state))),
    }
}

/// What the client does about an event from the server.
#[derive(Debug)]
pub enum ClientAction {
    /// Pass the host's loading progress to the host page.
    ForwardLoading(u8),
    /// The server is up: show the hosting page.
    ShowHosting,
    /// This client became the host: start downloading the world.
    StartWorldDownload,
    /// Someone else hosts: show the join page for them, loading.
    ShowJoin(HostDetails),
    /// Nobody hosts any more: show the host page.
    ShowHost,
    /// A test heartbeat arrived.
    Heartbeat(usize),
    /// Update what the join page shows of the host.
    UpdateJoin(JoinHostState),
    /// Nothing to do.
    Nothing,
}

/// Whether the client can take the event: where it would update the join
/// page, the event must say how the host is doing.
pub open spec fn event_handled(page: Page, event: Event, joining: bool) -> bool {
    match event {
        Event::HostLoading(_) => true,
        Event::HostLoaded => true,
        Event::NewHost(_) => true,
        Event::HostDropped => true,
        Event::HostCanceld => true,
        Event::HostShutdown => true,
        Event::TestHB(_) => true,
        _ => joining ==> shows_host_state(event),
    }
}

/// What to do about a server event, given the page shown, the host id this
/// client asked to host under (if it asked) and whether a join page exists.
pub open spec fn action_for(page: Page, event: Event, our_host_id: Option<HostId>, joining: bool) -> ClientAction {
    match event {
        Event::HostLoading(p) if page == Page::Host => ClientAction::ForwardLoading(p),
        Event::HostLoaded if page == Page::Host => ClientAction::ShowHosting,
        Event::NewHost(h) => if our_host_id == Some(h.id) {
            ClientAction::StartWorldDownload
        } else {
            ClientAction::ShowJoin(h)
        },
        Event::HostDropped => ClientAction::ShowHost,
        Event::HostCanceld => ClientAction::ShowHost,
        Event::HostShutdown => ClientAction::ShowHost,
        Event::TestHB(n) => ClientAction::Heartbeat(n),
        e => if joining { ClientAction::UpdateJoin(join_state_of(e)) } else { ClientAction::Nothing },
    }
}

/// Decides what the client does about an event from the server.
pub fn server_event_action(page: Page, event: Event, our_host_id: Option<HostId>, joining: bool) -> (r: ClientAction)
    requires
        event_handled(page, event, joining),
    ensures
        r == action_for(page, event, our_host_id, joining),
{
    match event {
        Event::HostLoading(p) if page == Page::Host => ClientAction::ForwardLoading(p),
        Event::HostLoaded if page == Page::Host => ClientAction::ShowHosting,
        Event::NewHost(h) => {
            let ours = match our_host_id {
                Some(id) => id == h.id,
                None => false,
            };
            if ours {
                ClientAction::StartWorldDownload
            } else {
                ClientAction::ShowJoin(h)
            }
        },
        Event::HostDropped | Event::HostCanceld | Event::HostShutdown => ClientAction::ShowHost,
        Event::TestHB(n) => ClientAction::Heartbeat(n),
        e => {
            if joining {
                ClientAction::UpdateJoin(JoinHostState::from_event(&e))
            } else {
                ClientAction::Nothing
            }
        },
    }
}

/// A client never joins its own hosting: when the new host has the id this
/// client asked to host under, it starts downloading the world instead.
pub proof fn law_own_hosting_is_not_joined(page: Page, h: HostDetails, joining: bool)
    ensures
        action_for(page, Event::NewHost(h), Some(h.id), joining) is StartWorldDownload,
{
}

/// A client watching someone else host follows how the host is doing:
/// with a join page, an event that says how the host is doing updates the
/// join page to the state that event names, on whatever page the client
/// is, except that loading progress and being loaded on the host page
/// belong to this client's own hosting.
pub proof fn law_joining_client_follows_the_host(page: Page, our_host_id: Option<HostId>, p: u8)
    ensures
        action_for(page, Event::HostUnreachable, our_host_id, true) == ClientAction::UpdateJoin(JoinHostState::Unreachable),
        action_for(page, Event::HostShuttingDown, our_host_id, true) == ClientAction::UpdateJoin(JoinHostState::ShuttingDown),
        page != Page::Host ==> action_for(page, Event::HostLoaded, our_host_id, true)
            == ClientAction::UpdateJoin(JoinHostState::Running),
        page != Page::Host ==> action_for(page, Event::HostLoading(p), our_host_id, true)
            == ClientAction::UpdateJoin(JoinHostState::Loading(p)),
{
}

/// The client goes back to the host page exactly when hosting is over:
/// the host was dropped, cancelled its loading or shut down.
pub proof fn law_host_page_exactly_when_hosting_ends(page: Page, event: Event, our_host_id: Option<HostId>, joining: bool)
    ensures
        (action_for(page, event, our_host_id, joining) is ShowHost)
            == (event is HostDropped || event is HostCanceld || event is HostShutdown),
{
}

/// Without a join page, an event that only says how the host is doing
/// changes nothing, except loading progress and being loaded on the host
/// page; in particular the hosting page stays while its server shuts down,
/// so that the upload that follows can run there.
pub proof fn law_host_state_events_without_join_page(page: Page, event: Event, our_host_id: Option<HostId>)
    requires
        event is HostShuttingDown || event is HostUnreachable || event is HostRestored
            || ((event is HostLoaded || event is HostLoading) && page != Page::Host),
    ensures
        action_for(page, event, our_host_id, false) == ClientAction::Nothing,
{
}

/// Whether the local java install is the version the game server needs.
pub fn java_up_to_date(installed: &localjava::Version) -> (r: bool)
    ensures
        r == (installed.major == 17 && installed.minor == 0 && installed.patch == 1
            && installed.pre@ == Seq::<char>::empty() && installed.build@ == Seq::<char>::empty()),
{
    let needed = localjava::Version::new(17, 0, 1);
    installed.same_as(&needed)
}

} // verus!
