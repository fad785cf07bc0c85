//! The sessions of logged in users.

use vstd::prelude::*;
use std::collections::HashMap;
use crate::protocol::{SessionId, UserId};

verus! {

broadcast use vstd::std_specs::hash::group_hash_axioms;

/// Whether a 128-bit number is a random (version 4, RFC 4122 variant) uuid:
/// its version field holds 4 and its variant bits are `10`.
pub open spec fn is_uuid_v4(id: u128) -> bool {
    id & 0xF000_C000_0000_0000_0000u128 == 0x4000_8000_0000_0000_0000u128
}

/// A fresh session id: `uuid::Uuid::new_v4`, as its 128-bit number. Its
/// bits are random but for the version and variant fields, which mark it
/// as a random uuid.
#[verifier::external_body]
fn new_session_id() -> (r: SessionId)
    ensures
        is_uuid_v4(r),
{
    uuid::Uuid::new_v4().as_u128()
}

/// The logged in sessions, each belonging to a user.
pub struct Sessions {
    by_id: HashMap<SessionId, UserId>,
}

impl View for Sessions {
    type V = Map<SessionId, UserId>;

    closed spec fn view(&self) -> Map<SessionId, UserId> {
        self.by_id@
    }
}

/// The sessions of `m` that do not belong to `user`.
pub open spec fn without_user(m: Map<SessionId, UserId>, user: UserId) -> Map<SessionId, UserId> {
    Map::new(|k: SessionId| m.contains_key(k) && m[k] != user, |k: SessionId| m[k])
}

impl Sessions {
    /// No sessions.
    pub fn new() -> (r: Sessions)
        ensures
            r@ == Map::<SessionId, UserId>::empty(),
    {
        Sessions { by_id: HashMap::new() }
    }

    /// Opens a session for `user_id` under a fresh random id and returns
    /// the id.
    pub fn add(&mut self, user_id: UserId) -> (id: SessionId)
        ensures
            final(self)@ == old(self)@.insert(id, user_id),
            is_uuid_v4(id),
    {
        let id = new_session_id();
        self.by_id.insert(id, user_id);
        id
    }

    /// The user a session belongs to.
    pub fn get_user_id(&self, id: SessionId) -> (r: Option<UserId>)
        ensures
            r == (if self@.contains_key(id) { Some(self@[id]) } else { None }),
    {
        match self.by_id.get(&id) {
            Some(u) => Some(*u),
            None => None,
        }
    }

    /// Ends every session of a user.
    pub fn clear_user(&mut self, id: UserId)
        ensures
            final(self)@ == without_user(old(self)@, id),
    {
        let ghost start = self.by_id@;
        let mut keys: Vec<SessionId> = Vec::new();
        for k in it: self.by_id.keys()
            invariant
                keys@.len() == it.index(),
                forall|j: int| 0 <= j < it.index() ==> keys@[j] == *it.seq()[j],
                forall|k: SessionId| #[trigger] start.contains_key(k) ==>
                    exists|j: int| 0 <= j < it.seq().len() && *it.seq()[j] == k,
        {
            keys.push(*k);
        }
        assert forall|k: SessionId| #[trigger] start.contains_key(k) implies keys@.contains(k) by {
        }
        let mut i: usize = 0;
        while i < keys.len()
            invariant
                i <= keys@.len(),
                forall|k: SessionId| #[trigger] start.contains_key(k) ==> keys@.contains(k),
                forall|k: SessionId| #[trigger] self.by_id@.contains_key(k) <==> (start.contains_key(k)
                    && !(start[k] == id && keys@.take(i as int).contains(k))),
                forall|k: SessionId| #[trigger] self.by_id@.contains_key(k) ==> self.by_id@[k] == start[k],
            decreases keys.len() - i,
        {
            let k = keys[i];
            let owned = match self.by_id.get(&k) {
                Some(u) => *u == id,
                None => false,
            };
            let ghost before = self.by_id@;
            if owned {
                self.by_id.remove(&k);
            }
            assert(keys@.take(i + 1) =~= keys@.take(i as int).push(k));
            proof {
                broadcast use vstd::seq_lib::group_seq_properties;
                assert forall|x: SessionId| #[trigger] self.by_id@.contains_key(x) <==> (start.contains_key(x)
                    && !(start[x] == id && keys@.take(i + 1).contains(x))) by {
                    assert(keys@.take(i + 1).contains(x) <==> (keys@.take(i as int).contains(x) || x == k));
                    if x == k {
                        if before.contains_key(k) {
                            assert(before[k] == start[k]);
                        }
                    } else {
                        assert(self.by_id@.contains_key(x) == before.contains_key(x));
                    }
                }
            }
            i = i + 1;
        }
        assert(keys@.take(keys@.len() as int) =~= keys@);
        assert forall|x: SessionId| #[trigger] self.by_id@.contains_key(x)
            <==> without_user(start, id).contains_key(x) by {
            if start.contains_key(x) {
                assert(keys@.contains(x));
            }
        }
        assert(self.by_id@ =~= without_user(start, id));
    }
}


/// A session that was just opened resolves to its user.
pub proof fn law_added_session_resolves(sessions: Map<SessionId, UserId>, id: SessionId, user: UserId)
    ensures
        sessions.insert(id, user).contains_key(id),
        sessions.insert(id, user)[id] == user,
{
}

/// Clearing a user's sessions leaves no session of that user, and leaves
/// every session of any other user as it was.
pub proof fn law_clearing_ends_only_that_user(sessions: Map<SessionId, UserId>, user: UserId)
    ensures
        forall|k: SessionId| #[trigger] without_user(sessions, user).contains_key(k)
            ==> without_user(sessions, user)[k] != user,
        forall|k: SessionId| #[trigger] sessions.contains_key(k) && sessions[k] != user
            ==> without_user(sessions, user).contains_key(k) && without_user(sessions, user)[k] == sessions[k],
{
}

} // verus!
