//! Accounts: the index from user names to ids, stored entries with their
//! password hashes, and the decisions the account store makes.

use vstd::prelude::*;
use crate::keyed::{keys_unique, entries_map, find_entry, lemma_entries_get, lemma_entries_remove, lemma_entries_update, lemma_entries_push};
use crate::protocol::{User, UserId};
use crate::protocol;
use rand::Rng;
use vstd::string::StringSliceAdditionalSpecFns;

verus! {

/// The index from user names to user ids.
pub struct Index(Vec<(String, UserId)>);

impl View for Index {
    type V = Map<Seq<char>, UserId>;

    closed spec fn view(&self) -> Map<Seq<char>, UserId> {
        entries_map(self.0@)
    }
}

impl Index {
    /// No name occurs twice; every index keeps this.
    #[verifier::type_invariant]
    closed spec fn wf(&self) -> bool {
        keys_unique(self.0@)
    }

    /// The index of the given pairs; a name listed twice keeps its last id.
    pub fn from(pairs: Vec<(String, UserId)>) -> (r: Index)
        ensures
            r@ == pairs_map(pairs@),
    {
        let mut r = Index(Vec::new());
        proof { assert(r@ =~= Map::<Seq<char>, UserId>::empty()); }
        let mut i: usize = 0;
        while i < pairs.len()
            invariant
                i <= pairs@.len(),
                r@ == pairs_map(pairs@.take(i as int)),
            decreases pairs.len() - i,
        {
            assert(pairs@.take(i + 1).drop_last() =~= pairs@.take(i as int));
            r.insert(pairs[i].0.clone(), pairs[i].1);
            i = i + 1;
        }
        assert(pairs@.take(pairs@.len() as int) =~= pairs@);
        r
    }

    /// The id of the user with this name.
    pub fn get(&self, username: &str) -> (r: Option<UserId>)
        ensures
            r == (if self@.contains_key(username@) { Some(self@[username@]) } else { None }),
    {
        proof { use_type_invariant(self); }
        let key = username.to_owned();
        match find_entry(&self.0, &key) {
            Some(i) => {
                proof { lemma_entries_get(self.0@, i as int); }
                Some(self.0[i].1)
            },
            None => None,
        }
    }

    /// Records that `username` belongs to `id`.
    pub fn insert(&mut self, username: String, id: UserId)
        ensures
            final(self)@ == old(self)@.insert(username@, id),
    {
        proof { use_type_invariant(&*self); }
        let mut v: Vec<(String, UserId)> = Vec::new();
        std::mem::swap(&mut v, &mut self.0);
        match find_entry(&v, &username) {
            Some(i) => {
                let e = (username, id);
                proof { lemma_entries_update(v@, i as int, e); }
                v.set(i, e);
            },
            None => {
                let e = (username, id);
                proof { lemma_entries_push(v@, e); }
                v.push(e);
            },
        }
        self.0 = v;
    }

    /// Whether a user has this name.
    pub fn contains(&self, username: &str) -> (r: bool)
        ensures
            r == self@.contains_key(username@),
    {
        proof { use_type_invariant(self); }
        let key = username.to_owned();
        match find_entry(&self.0, &key) {
            Some(i) => {
                proof { lemma_entries_get(self.0@, i as int); }
                true
            },
            None => false,
        }
    }

    /// Moves the account `id` from its old name to its new one.
    pub fn rename(&mut self, old_name: &str, new_name: String, id: UserId)
        ensures
            final(self)@ == old(self)@.remove(old_name@).insert(new_name@, id),
    {
        self.remove(old_name);
        self.insert(new_name, id);
    }

    /// Forgets the name.
    pub fn remove(&mut self, username: &str)
        ensures
            final(self)@ == old(self)@.remove(username@),
    {
        proof { use_type_invariant(&*self); }
        let key = username.to_owned();
        let mut v: Vec<(String, UserId)> = Vec::new();
        std::mem::swap(&mut v, &mut self.0);
        match find_entry(&v, &key) {
            Some(i) => {
                proof { lemma_entries_remove(v@, i as int); }
                v.remove(i);
            },
            None => {
                assert(entries_map(v@) =~= entries_map(v@).remove(username@));
            },
        }
        self.0 = v;
    }
}

/// The map of name-id pairs; a name listed twice keeps its last id.
pub open spec fn pairs_map(pairs: Seq<(String, UserId)>) -> Map<Seq<char>, UserId>
    decreases pairs.len(),
{
    if pairs.len() == 0 {
        Map::empty()
    } else {
        pairs_map(pairs.drop_last()).insert(pairs.last().0@, pairs.last().1)
    }
}

/// Refuses a new account whose name is already taken.
pub fn check_name_free(index: &Index, username: &str) -> (r: Result<(), Error>)
    ensures
        r is Ok == !index@.contains_key(username@),
        r matches Err(e) ==> e is AlreadyExists,
{
    if index.contains(username) {
        return Err(Error::AlreadyExists);
    }
    Ok(())
}

/// A stored account: its id, its user details and the encoded hash of its
/// password.
#[derive(Debug)]
pub struct UserEntry {
    pub id: UserId,
    pub user: User,
    pub passhash: String,
}

impl UserEntry {
    /// A copy of this entry.
    pub fn duplicate(&self) -> (r: UserEntry)
        ensures
            r == *self,
    {
        UserEntry { id: self.id, user: self.user.duplicate(), passhash: self.passhash.clone() }
    }
}

/// What the account store can fail with.
#[derive(Debug)]
pub enum Error {
    AlreadyExists,
    Db,
    Changed(UserEntry),
    UserRemoved,
    DoesNotExist,
    IncorrectPass,
    IncorrectName,
}

impl Error {
    /// The error a client is told about. A wrong name is never passed on
    /// this way, so as not to reveal which names exist.
    pub fn into_protocol(self) -> (r: protocol::Error)
        requires
            !(self is IncorrectName),
        ensures
            r == match self {
                Error::AlreadyExists => protocol::Error::AlreadyExists,
                Error::Db => protocol::Error::Internal,
                Error::Changed(entry) => protocol::Error::UserChanged(entry.user),
                Error::UserRemoved => protocol::Error::UserRemoved,
                Error::DoesNotExist => protocol::Error::UserNotInDb,
                _ => protocol::Error::Unauthorized,
            },
    {
        match self {
            Error::AlreadyExists => protocol::Error::AlreadyExists,
            Error::Db => protocol::Error::Internal,
            Error::Changed(entry) => protocol::Error::UserChanged(entry.user),
            Error::UserRemoved => protocol::Error::UserRemoved,
            Error::DoesNotExist => protocol::Error::UserNotInDb,
            _ => protocol::Error::Unauthorized,
        }
    }
}

/// An atomic swap of a stored entry failed because the entry stored was not
/// the expected one. Decides how to go on: with no entry stored the user
/// was removed; if the user details changed meanwhile the caller must look
/// at the new details; if only the password hash changed, the swap is tried
/// again expecting the new hash.
pub fn after_failed_swap(expected: UserEntry, current: Option<UserEntry>) -> (r: Result<UserEntry, Error>)
    ensures
        r == match current {
            None => Err(Error::UserRemoved),
            Some(curr) => if curr.user.username@ != expected.user.username@ {
                Err(Error::Changed(curr))
            } else {
                Ok(UserEntry { passhash: curr.passhash, ..expected })
            },
        },
{
    match current {
        None => Err(Error::UserRemoved),
        Some(curr) => {
            if !curr.user.same_as(&expected.user) {
                Err(Error::Changed(curr))
            } else {
                Ok(UserEntry { id: expected.id, user: expected.user, passhash: curr.passhash })
            }
        },
    }
}

/// The entry with its user details replaced, keeping id and password hash.
pub fn with_user(entry: &UserEntry, user: User) -> (r: UserEntry)
    ensures
        r == (UserEntry { user, ..*entry }),
{
    UserEntry { id: entry.id, user, passhash: entry.passhash.clone() }
}

/// How overriding an account goes on after an attempt to swap its entry.
#[derive(Debug)]
pub enum OverrideStep {
    /// The account now has the new details.
    Done,
    /// The account changed meanwhile; try again from this entry.
    Retry(UserEntry),
    /// The override failed.
    Fail(Error),
}

/// Decides how overriding an account goes on: an account that changed
/// meanwhile is overridden again from its current entry, whatever the
/// change was.
pub fn override_step(res: Result<(), Error>) -> (r: OverrideStep)
    ensures
        r == match res {
            Ok(()) => OverrideStep::Done,
            Err(Error::Changed(e)) => OverrideStep::Retry(e),
            Err(e) => OverrideStep::Fail(e),
        },
{
    match res {
        Ok(()) => OverrideStep::Done,
        Err(Error::Changed(e)) => OverrideStep::Retry(e),
        Err(e) => OverrideStep::Fail(e),
    }
}

/// The entry with its password hash replaced; nothing if there is no entry.
pub fn with_passhash(entry: Option<UserEntry>, passhash: &String) -> (r: Option<UserEntry>)
    ensures
        r == match entry {
            Some(e) => Some(UserEntry { passhash: *passhash, ..e }),
            None => None,
        },
{
    match entry {
        Some(e) => Some(UserEntry { id: e.id, user: e.user, passhash: passhash.clone() }),
        None => None,
    }
}

/// The encoded argon2 hash (default configuration) of a password with a
/// salt, or nothing where argon2 refuses the input.
pub uninterp spec fn argon2_encoded(password: Seq<u8>, salt: Seq<u8>) -> Option<Seq<char>>;

/// Whether a password matches an encoded argon2 hash, or nothing where the
/// encoded hash cannot be read.
pub uninterp spec fn argon2_verified(encoded: Seq<char>, password: Seq<u8>) -> Option<bool>;

/// `argon2::hash_encoded` with `argon2::Config::default()`. Its result is
/// named [`argon2_encoded`]. It succeeds for every salt of 8 to 2^32 - 1
/// bytes with every password of at most 2^32 - 1 bytes, the default
/// configuration meeting all its other limits, and the encoded hash it
/// gives verifies against the same password.
#[verifier::external_body]
fn hash_encoded(password: &[u8], salt: &[u8]) -> (r: Option<String>)
    ensures
        match r {
            Some(h) => argon2_encoded(password@, salt@) == Some(h@),
            None => argon2_encoded(password@, salt@) is None,
        },
        8 <= salt@.len() <= 0xffff_ffff && password@.len() <= 0xffff_ffff ==> r is Some,
        r matches Some(h) ==> argon2_verified(h@, password@) == Some(true),
{
    argon2::hash_encoded(password, salt, &argon2::Config::default()).ok()
}

/// `argon2::verify_encoded`; its result is named [`argon2_verified`], with
/// nothing where the crate returns an error.
#[verifier::external_body]
fn verify_encoded(encoded: &str, password: &[u8]) -> (r: Option<bool>)
    ensures
        r == argon2_verified(encoded@, password@),
{
    argon2::verify_encoded(encoded, password).ok()
}

/// An ASCII letter or digit.
pub open spec fn is_alphanumeric(b: u8) -> bool {
    (48 <= b <= 57) || (65 <= b <= 90) || (97 <= b <= 122)
}

/// One random byte from `rand::distributions::Alphanumeric` with the
/// thread's generator: an ASCII letter or digit. Which one comes out is
/// left open.
#[verifier::external_body]
fn random_alphanumeric() -> (r: u8)
    ensures
        is_alphanumeric(r),
{
    rand::thread_rng().sample(rand::distributions::Alphanumeric)
}

/// `len` random ASCII letters and digits.
fn random_salt(len: usize) -> (r: Vec<u8>)
    ensures
        r@.len() == len,
        forall|i: int| 0 <= i < len ==> is_alphanumeric(#[trigger] r@[i]),
{
    let mut r: Vec<u8> = Vec::new();
    let mut i: usize = 0;
    while i < len
        invariant
            i <= len,
            r@.len() == i,
            forall|k: int| 0 <= k < i ==> is_alphanumeric(#[trigger] r@[k]),
        decreases len - i,
    {
        r.push(random_alphanumeric());
        i = i + 1;
    }
    r
}

/// Hashes a password with a fresh random salt of 32 letters and digits.
pub fn encode_pass(password: &str) -> (r: String)
    requires
        password.spec_bytes().len() <= 0xffff_ffff,
    ensures
        exists|salt: Seq<u8>| salt.len() == 32
            && (forall|i: int| 0 <= i < 32 ==> is_alphanumeric(#[trigger] salt[i]))
            && argon2_encoded(password.spec_bytes(), salt) == Some(r@),
        argon2_verified(r@, password.spec_bytes()) == Some(true),
{
    let salt = random_salt(32);
    match hash_encoded(password.as_bytes(), salt.as_slice()) {
        Some(h) => h,
        None => {
            proof { assert(false); }
            String::new()
        },
    }
}

/// Whether `password` opens the account stored as `entry`; nothing where
/// the stored hash cannot be read.
pub open spec fn credentials_result(entry: Option<UserEntry>, password: Seq<u8>) -> Option<Result<UserId, Error>> {
    match entry {
        None => Some(Err(Error::IncorrectPass)),
        Some(e) => match argon2_verified(e.passhash@, password) {
            None => None,
            Some(true) => Some(Ok(e.id)),
            Some(false) => Some(Err(Error::IncorrectPass)),
        },
    }
}

/// Checks a password against the stored entry of the account: the id where
/// it matches, an incorrect password where it does not or where no entry is
/// stored, and nothing where the stored hash cannot be read.
pub fn validate_credentials(entry: Option<UserEntry>, password: &str) -> (r: Option<Result<UserId, Error>>)
    ensures
        r == credentials_result(entry, password.spec_bytes()),
{
    match entry {
        None => Some(Err(Error::IncorrectPass)),
        Some(e) => match verify_encoded(e.passhash.as_str(), password.as_bytes()) {
            None => None,
            Some(true) => Some(Ok(e.id)),
            Some(false) => Some(Err(Error::IncorrectPass)),
        },
    }
}

/// A new entry for a user, with the password hashed.
pub fn new_entry(id: UserId, user: User, password: &str) -> (r: UserEntry)
    requires
        password.spec_bytes().len() <= 0xffff_ffff,
    ensures
        r.id == id,
        r.user == user,
        argon2_verified(r.passhash@, password.spec_bytes()) == Some(true),
{
    let passhash = encode_pass(password);
    UserEntry { id, user, passhash }
}

/// A stored entry opens with the password it was made with: once
/// [`encode_pass`] made the hash, checking the same password gives the
/// account's id.
pub proof fn law_password_opens_its_entry(entry: UserEntry, password: Seq<u8>)
    requires
        argon2_verified(entry.passhash@, password) == Some(true),
    ensures
        credentials_result(Some(entry), password) == Some(Ok::<UserId, Error>(entry.id)),
{
}

} // verus!
