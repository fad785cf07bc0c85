//! The checks a connection makes before it serves a request.

use vstd::prelude::*;
use crate::protocol::{Addr, Error, Event, IpAddr, SessionId, UserId};
use crate::sessions::Sessions;
use crate::sync::DirContent;
use crate::userdb;

verus! {

/// The part of a path after a single top-level name that still names that
/// same name, comparing by components as `std::path::Path` does on Unix:
/// separators, possibly repeated, each optionally followed by `.`.
pub open spec fn same_dir_tail(r: Seq<char>) -> bool {
    forall|i: int| 0 <= i < r.len() ==> (#[trigger] r[i] == '/' || (r[i] == '.' && i > 0 && r[i - 1] == '/'))
}

/// Whether path `p` is the single-component path `name`: `world`,
/// `world/` and `world/.` are the path `world`; `./world` is not.
pub open spec fn path_is(p: Seq<char>, name: Seq<char>) -> bool {
    &&& name.len() <= p.len()
    &&& p.take(name.len() as int) == name
    &&& same_dir_tail(p.skip(name.len() as int))
}

/// Whether a client may change files at path `p`.
pub open spec fn path_allowed(p: Seq<char>) -> bool {
    path_is(p, "world"@) || path_is(p, "logs"@)
}

/// Whether `p` is the single-component path `name`; see [`path_is`].
pub fn is_path(p: &str, name: &str) -> (r: bool)
    ensures
        r == path_is(p@, name@),
{
    let n = name.unicode_len();
    let m = p.unicode_len();
    if n > m {
        return false;
    }
    let mut i: usize = 0;
    while i < n
        invariant
            n == name@.len(),
            m == p@.len(),
            n <= m,
            i <= n,
            p@.take(i as int) == name@.take(i as int),
        decreases n - i,
    {
        if p.get_char(i) != name.get_char(i) {
            assert(p@.take(n as int)[i as int] != name@[i as int]);
            return false;
        }
        assert(p@.take(i + 1) =~= p@.take(i as int).push(p@[i as int]));
        assert(name@.take(i + 1) =~= name@.take(i as int).push(name@[i as int]));
        i = i + 1;
    }
    assert(name@.take(n as int) =~= name@);
    let ghost tail = p@.skip(n as int);
    let mut j: usize = n;
    while j < m
        invariant
            n <= j <= m,
            m == p@.len(),
            n == name@.len(),
            tail == p@.skip(n as int),
            forall|k: int| 0 <= k < j - n ==> (#[trigger] tail[k] == '/' || (tail[k] == '.' && k > 0 && tail[k - 1] == '/')),
        decreases m - j,
    {
        let c = p.get_char(j);
        assert(tail[j - n] == c);
        if c == '/' {
        } else if c == '.' && j > n && p.get_char(j - 1) == '/' {
            assert(tail[j - n - 1] == '/');
        } else {
            assert(!same_dir_tail(tail)) by {
                let k = j - n;
                if k > 0 {
                    assert(tail[k - 1] == p@[j - 1]);
                }
            }
            return false;
        }
        j = j + 1;
    }
    true
}

/// The only paths a client may change.
pub fn allowed_paths() -> (r: Vec<&'static str>)
    ensures
        r@.len() == 2,
        r@[0]@ == "world"@,
        r@[1]@ == "logs"@,
{
    let mut r = Vec::new();
    r.push("world");
    r.push("logs");
    r
}

/// Whether a client may change files at `path`.
pub fn path_allowed_exec(path: &str) -> (r: bool)
    ensures
        r == path_allowed(path@),
{
    let allowed = allowed_paths();
    is_path(path, allowed[0]) || is_path(path, allowed[1])
}

/// Refuses a path a client may not change.
pub fn path_safe(path: &str) -> (r: Result<(), Error>)
    ensures
        match r {
            Ok(()) => path_allowed(path@),
            Err(e) => !path_allowed(path@) && (e matches Error::ForbiddenPath(p) && p@ == path@),
        },
{
    if !path_allowed_exec(path) {
        return Err(Error::ForbiddenPath(path.to_owned()));
    }
    Ok(())
}

/// Refuses a directory listing with a file a client may not change, naming
/// the first such file.
pub fn verify_content_safe(content: &DirContent) -> (r: Result<(), Error>)
    ensures
        match r {
            Ok(()) => forall|i: int| 0 <= i < content@.len() ==> path_allowed(#[trigger] content@[i].path),
            Err(e) => exists|i: int| 0 <= i < content@.len() && !path_allowed(#[trigger] content@[i].path)
                && (forall|j: int| 0 <= j < i ==> path_allowed(#[trigger] content@[j].path))
                && (e matches Error::ForbiddenPath(p) && p@ == content@[i].path),
        },
{
    let files = &content.0;
    let mut i: usize = 0;
    while i < files.len()
        invariant
            i <= files@.len(),
            content@ == files@.map_values(|f: crate::sync::FileStatus| f@),
            forall|j: int| 0 <= j < i ==> path_allowed(#[trigger] content@[j].path),
        decreases files.len() - i,
    {
        assert(content@[i as int] == files@[i as int]@);
        if !path_allowed_exec(files[i].path.as_str()) {
            let e = Error::ForbiddenPath(files[i].path.clone());
            assert(!path_allowed(content@[i as int].path));
            assert(e matches Error::ForbiddenPath(p) && p@ == content@[i as int].path);
            assert(exists|k: int| 0 <= k < content@.len() && !path_allowed(#[trigger] content@[k].path)
                && (forall|j: int| 0 <= j < k ==> path_allowed(#[trigger] content@[j].path))
                && (e matches Error::ForbiddenPath(p) && p@ == content@[k].path));
            return Err(e);
        }
        i = i + 1;
    }
    Ok(())
}

/// Administration requests are only served to connections from the
/// server's own machine.
pub fn admin_only(peer: &Addr) -> (r: Result<(), Error>)
    ensures
        r == (if match peer {
            Addr::Ip(IpAddr::V4(o)) => o[0] == 127,
            Addr::Ip(IpAddr::V6(s)) => s@ == seq![0u16, 0, 0, 0, 0, 0, 0, 1],
            Addr::Domain(_) => false,
        } {
            Ok(())
        } else {
            Err(Error::Unauthorized)
        }),
{
    if !peer.is_loopback() {
        return Err(Error::Unauthorized);
    }
    Ok(())
}

/// The user of a session; an expired session where it is not open.
pub fn session_user(sessions: &Sessions, id: SessionId) -> (r: Result<UserId, Error>)
    ensures
        r == (if sessions@.contains_key(id) { Ok(sessions@[id]) } else { Err(Error::SessionExpired) }),
{
    match sessions.get_user_id(id) {
        Some(user) => Ok(user),
        None => Err(Error::SessionExpired),
    }
}

/// The answer to a log-in, given the id the user name maps to and the
/// outcome of checking the password: a wrong name and a wrong password are
/// answered alike.
pub fn log_in_outcome(user_id: Option<UserId>, checked: Result<UserId, userdb::Error>) -> (r: Result<UserId, Error>)
    ensures
        r == match user_id {
            None => Err(Error::IncorrectLogin),
            Some(_) => match checked {
                Ok(id) => Ok(id),
                Err(userdb::Error::IncorrectPass) => Err(Error::IncorrectLogin),
                Err(userdb::Error::IncorrectName) => Err(Error::IncorrectLogin),
                Err(userdb::Error::AlreadyExists) => Err(Error::AlreadyExists),
                Err(userdb::Error::Db) => Err(Error::Internal),
                Err(userdb::Error::Changed(entry)) => Err(Error::UserChanged(entry.user)),
                Err(userdb::Error::UserRemoved) => Err(Error::UserRemoved),
                Err(userdb::Error::DoesNotExist) => Err(Error::UserNotInDb),
            },
        },
{
    if user_id.is_none() {
        return Err(Error::IncorrectLogin);
    }
    match checked {
        Ok(id) => Ok(id),
        Err(userdb::Error::IncorrectPass) => Err(Error::IncorrectLogin),
        Err(userdb::Error::IncorrectName) => Err(Error::IncorrectLogin),
        Err(e) => Err(e.into_protocol()),
    }
}

/// How waiting for the next server event on a session's backlog ended.
#[derive(Debug)]
pub enum EventWait {
    /// Another request already waits on this backlog.
    Locked,
    /// Nothing happened in time.
    TimedOut,
    /// The backlog overflowed; events were lost.
    Lagged,
    /// This event arrived.
    Got(Event),
}

/// The answer to a request for the next event.
pub fn await_event_outcome(wait: EventWait) -> (r: Result<Event, Error>)
    ensures
        r == match wait {
            EventWait::Locked => Err(Error::BackLogLocked),
            EventWait::TimedOut => Ok(Event::AwaitTimeout),
            EventWait::Lagged => Err(Error::Lagging),
            EventWait::Got(e) => Ok::<Event, Error>(e),
        },
{
    match wait {
        EventWait::Locked => Err(Error::BackLogLocked),
        EventWait::TimedOut => Ok(Event::AwaitTimeout),
        EventWait::Lagged => Err(Error::Lagging),
        EventWait::Got(e) => Ok(e),
    }
}

/// A changed password ends the sessions of its user: afterwards none of
/// that user's sessions is served, and every other user's session is.
pub proof fn law_password_change_expires_sessions(sessions: Map<SessionId, UserId>, user: UserId, id: SessionId)
    ensures
        sessions.contains_key(id) && sessions[id] == user
            ==> !crate::sessions::without_user(sessions, user).contains_key(id),
        sessions.contains_key(id) && sessions[id] != user
            ==> crate::sessions::without_user(sessions, user).contains_key(id)
                && crate::sessions::without_user(sessions, user)[id] == sessions[id],
{
}

} // verus!
