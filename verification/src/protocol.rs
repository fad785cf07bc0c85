//! The values that client and server exchange.

use vstd::prelude::*;
use crate::text::{decimal, hex, lemma_decimal_injective, push_decimal_u8, push_hex_u16};

verus! {

pub type UserId = u64;
pub type HostId = u128;
pub type SessionId = u128;

/// An internet address, version 4 as four octets or version 6 as eight
/// 16-bit segments.
#[derive(Debug, Clone, Copy, PartialEq, Eq, Hash)]
pub enum IpAddr {
    V4([u8; 4]),
    V6([u16; 8]),
}

/// The dotted decimal text of a version 4 address.
pub open spec fn ipv4_text(o: Seq<u8>) -> Seq<char> {
    decimal(o[0] as nat) + seq!['.'] + decimal(o[1] as nat) + seq!['.'] + decimal(o[2] as nat)
        + seq!['.'] + decimal(o[3] as nat)
}

/// The number of zero segments in the run that starts at `i`.
pub open spec fn zero_run(s: Seq<u16>, i: int) -> nat
    decreases s.len() - i,
{
    if 0 <= i < s.len() && s[i] == 0 {
        1 + zero_run(s, i + 1)
    } else {
        0
    }
}

/// The first of the longest runs of zero segments starting before `k`, as
/// its start and its length.
pub open spec fn longest_zero_run(s: Seq<u16>, k: int) -> (int, nat)
    decreases k,
{
    if k <= 0 {
        (0, 0)
    } else {
        let prev = longest_zero_run(s, k - 1);
        if zero_run(s, k - 1) > prev.1 {
            (k - 1, zero_run(s, k - 1))
        } else {
            prev
        }
    }
}

/// Segments in hexadecimal, separated by colons.
pub open spec fn hex_join(s: Seq<u16>) -> Seq<char>
    decreases s.len(),
{
    if s.len() == 0 {
        Seq::empty()
    } else if s.len() == 1 {
        hex(s[0] as nat)
    } else {
        hex_join(s.drop_last()) + seq![':'] + hex(s.last() as nat)
    }
}

/// Whether a version 6 address maps a version 4 one: `::ffff:a.b.c.d`.
pub open spec fn is_ipv4_mapped(s: Seq<u16>) -> bool {
    s[0] == 0 && s[1] == 0 && s[2] == 0 && s[3] == 0 && s[4] == 0 && s[5] == 0xffff
}

/// The text of a version 6 address: a mapped version 4 address as
/// `::ffff:` and its dotted form; otherwise the segments in lower-case
/// hexadecimal, with the first of the longest runs of two or more zero
/// segments written as `::`.
pub open spec fn ipv6_text(s: Seq<u16>) -> Seq<char> {
    if is_ipv4_mapped(s) {
        seq![':', ':', 'f', 'f', 'f', 'f', ':'] + ipv4_text(
            seq![(s[6] / 256) as u8, (s[6] % 256) as u8, (s[7] / 256) as u8, (s[7] % 256) as u8],
        )
    } else {
        let run = longest_zero_run(s, s.len() as int);
        if run.1 > 1 {
            hex_join(s.subrange(0, run.0)) + seq![':', ':'] + hex_join(s.subrange(run.0 + run.1, s.len() as int))
        } else {
            hex_join(s)
        }
    }
}

/// Appends the dotted decimal text of a version 4 address.
fn push_ipv4(out: &mut String, o: [u8; 4])
    ensures
        final(out)@ == old(out)@ + ipv4_text(o@),
{
    let ghost before = out@;
    push_decimal_u8(out, o[0]);
    out.append(".");
    push_decimal_u8(out, o[1]);
    out.append(".");
    push_decimal_u8(out, o[2]);
    out.append(".");
    push_decimal_u8(out, o[3]);
    proof {
        reveal_strlit(".");
        assert(out@ =~= before + ipv4_text(o@));
    }
}

/// The length of the run of zero segments that starts at `i`.
fn zero_run_at(s: &[u16; 8], i: usize) -> (r: usize)
    requires
        i <= 8,
    ensures
        r == zero_run(s@, i as int),
        i + r <= 8,
{
    let mut j: usize = i;
    while j < 8 && s[j] == 0
        invariant
            s@.len() == 8,
            i <= j <= 8,
            zero_run(s@, i as int) == (j - i) + zero_run(s@, j as int),
        decreases 8 - j,
    {
        j = j + 1;
    }
    j - i
}

/// The first of the longest runs of zero segments.
fn first_longest_zero_run(s: &[u16; 8]) -> (r: (usize, usize))
    ensures
        r.0 as int == longest_zero_run(s@, 8).0,
        r.1 as nat == longest_zero_run(s@, 8).1,
        r.0 + r.1 <= 8,
{
    let mut start: usize = 0;
    let mut len: usize = 0;
    let mut k: usize = 0;
    while k < 8
        invariant
            s@.len() == 8,
            k <= 8,
            start as int == longest_zero_run(s@, k as int).0,
            len as nat == longest_zero_run(s@, k as int).1,
            start + len <= 8,
        decreases 8 - k,
    {
        let z = zero_run_at(s, k);
        if z > len {
            start = k;
            len = z;
        }
        k = k + 1;
    }
    (start, len)
}

/// Appends the segments `lo..hi` in hexadecimal, separated by colons.
fn push_hex_join(out: &mut String, s: &[u16; 8], lo: usize, hi: usize)
    requires
        lo <= hi <= 8,
    ensures
        final(out)@ == old(out)@ + hex_join(s@.subrange(lo as int, hi as int)),
{
    let ghost before = out@;
    let mut i: usize = lo;
    proof { assert(s@.subrange(lo as int, lo as int) =~= Seq::<u16>::empty()); }
    while i < hi
        invariant
            s@.len() == 8,
            lo <= i <= hi <= 8,
            out@ =~= before + hex_join(s@.subrange(lo as int, i as int)),
        decreases hi - i,
    {
        let ghost t = s@.subrange(lo as int, i + 1);
        let ghost prev = out@;
        if i > lo {
            out.append(":");
            proof { reveal_strlit(":"); }
        }
        push_hex_u16(out, s[i]);
        proof {
            assert(t.drop_last() =~= s@.subrange(lo as int, i as int));
            assert(t.last() == s@[i as int]);
            if i > lo {
                assert(out@ =~= prev + seq![':'] + hex(s@[i as int] as nat));
            } else {
                assert(t.len() == 1);
                assert(out@ =~= prev + hex(s@[i as int] as nat));
            }
        }
        i = i + 1;
    }
}

/// The text of a version 6 address.
fn ipv6_string(s: &[u16; 8]) -> (r: String)
    ensures
        r@ == ipv6_text(s@),
{
    let mut out = String::new();
    if s[0] == 0 && s[1] == 0 && s[2] == 0 && s[3] == 0 && s[4] == 0 && s[5] == 0xffff {
        out.append("::ffff:");
        push_ipv4(&mut out, [(s[6] / 256) as u8, (s[6] % 256) as u8, (s[7] / 256) as u8, (s[7] % 256) as u8]);
        proof {
            reveal_strlit("::ffff:");
        }
    } else {
        let (start, len) = first_longest_zero_run(s);
        if len > 1 {
            push_hex_join(&mut out, s, 0, start);
            out.append("::");
            push_hex_join(&mut out, s, start + len, 8);
            proof {
                reveal_strlit("::");
            }
        } else {
            push_hex_join(&mut out, s, 0, 8);
            proof {
                assert(s@.subrange(0, 8) =~= s@);
            }
        }
    }
    proof {
        assert(out@ =~= ipv6_text(s@));
    }
    out
}

impl IpAddr {
    /// The text of the address.
    pub open spec fn text(self) -> Seq<char> {
        match self {
            IpAddr::V4(o) => ipv4_text(o@),
            IpAddr::V6(s) => ipv6_text(s@),
        }
    }

    /// The text of the address, as the standard library writes it.
    pub fn to_string(&self) -> (r: String)
        ensures
            r@ == self.text(),
    {
        match self {
            IpAddr::V4(o) => {
                let mut out = String::new();
                push_ipv4(&mut out, *o);
                proof { assert(out@ =~= ipv4_text(o@)); }
                out
            },
            IpAddr::V6(s) => ipv6_string(s),
        }
    }

    /// Whether the address is a loopback address: 127.0.0.0/8 or ::1.
    pub fn is_loopback(&self) -> (r: bool)
        ensures
            r == match self {
                IpAddr::V4(o) => o[0] == 127,
                IpAddr::V6(s) => s@ == seq![0u16, 0, 0, 0, 0, 0, 0, 1],
            },
    {
        match self {
            IpAddr::V4(o) => o[0] == 127,
            IpAddr::V6(s) => {
                let r = s[0] == 0 && s[1] == 0 && s[2] == 0 && s[3] == 0 && s[4] == 0 && s[5] == 0
                    && s[6] == 0 && s[7] == 1;
                assert(r == (s@ =~= seq![0u16, 0, 0, 0, 0, 0, 0, 1]));
                r
            },
        }
    }

}

/// Where a host can be reached: a domain name or an address.
#[derive(Debug, Clone)]
pub enum Addr {
    Domain(String),
    Ip(IpAddr),
}

impl Addr {
    /// Whether this is a loopback address; a domain never is.
    pub fn is_loopback(&self) -> (r: bool)
        ensures
            r == match self {
                Addr::Ip(IpAddr::V4(o)) => o[0] == 127,
                Addr::Ip(IpAddr::V6(s)) => s@ == seq![0u16, 0, 0, 0, 0, 0, 0, 1],
                Addr::Domain(_) => false,
            },
    {
        match self {
            Addr::Ip(addr) if addr.is_loopback() => true,
            _ => false,
        }
    }

    /// The domain name, or the text of the address.
    pub fn to_string(&self) -> (r: String)
        ensures
            r@ == match self {
                Addr::Domain(s) => s@,
                Addr::Ip(ip) => ip.text(),
            },
    {
        match self {
            Addr::Domain(s) => s.clone(),
            Addr::Ip(ip) => ip.to_string(),
        }
    }

    /// A copy of this address.
    pub fn duplicate(&self) -> (r: Addr)
        ensures
            r == *self,
    {
        match self {
            Addr::Domain(s) => Addr::Domain(s.clone()),
            Addr::Ip(ip) => Addr::Ip(*ip),
        }
    }
}

/// Who hosts the game server, where it runs and under which host id.
#[derive(Debug, Clone)]
pub struct HostDetails {
    pub name: String,
    pub addr: Addr,
    pub port: u16,
    pub id: HostId,
}

impl HostDetails {
    /// A copy of these details.
    pub fn duplicate(&self) -> (r: HostDetails)
        ensures
            r == *self,
    {
        HostDetails { name: self.name.clone(), addr: self.addr.duplicate(), port: self.port, id: self.id }
    }
}

/// The life cycle of the hosted game server.
#[derive(Debug, Clone)]
pub enum HostState {
    NoHost,
    Loading(HostDetails),
    Up(HostDetails),
    Unreachable(HostDetails),
    ShuttingDown(HostDetails),
}

/// The host of a state, if there is one.
pub open spec fn host_of(state: HostState) -> Option<HostDetails> {
    match state {
        HostState::NoHost => None,
        HostState::Loading(h) => Some(h),
        HostState::Up(h) => Some(h),
        HostState::Unreachable(h) => Some(h),
        HostState::ShuttingDown(h) => Some(h),
    }
}

/// What the server tells every logged in client.
#[derive(Debug, Clone)]
pub enum Event {
    TestHB(usize),
    AwaitTimeout,
    NewHost(HostDetails),
    HostLoading(u8),
    HostLoaded,
    HostShuttingDown,
    HostShutdown,
    HostDropped,
    HostUnreachable,
    HostRestored,
    HostCanceld,
}

/// An account.
#[derive(Debug, Clone, PartialEq, Eq, Hash)]
pub struct User {
    pub username: String,
}

/// The name of test account `num`.
pub open spec fn test_username_spec(num: u8) -> Seq<char> {
    "TestUser_"@ + decimal(num as nat)
}

/// The password of test account `num`.
pub open spec fn test_password_spec(num: u8) -> Seq<char> {
    "testpass"@ + decimal(num as nat)
}

impl User {
    pub fn test_user(num: u8) -> (r: User)
        ensures
            r.username@ == test_username_spec(num),
    {
        User { username: Self::test_username(num) }
    }

    pub fn test_username(num: u8) -> (r: String)
        ensures
            r@ == test_username_spec(num),
    {
        let mut r = String::from_str("TestUser_");
        push_decimal_u8(&mut r, num);
        r
    }

    pub fn test_password(num: u8) -> (r: String)
        ensures
            r@ == test_password_spec(num),
    {
        let mut r = String::from_str("testpass");
        push_decimal_u8(&mut r, num);
        r
    }

    /// Whether two accounts are the same.
    pub fn same_as(&self, other: &User) -> (r: bool)
        ensures
            r == (self.username@ == other.username@),
    {
        self.username == other.username
    }

    /// A copy of this account.
    pub fn duplicate(&self) -> (r: User)
        ensures
            r == *self,
    {
        User { username: self.username.clone() }
    }
}

/// Test accounts never collide: two test numbers give the same name, and
/// the same password, exactly when they are the same number.
pub proof fn law_test_users_differ(a: u8, n: u8)
    ensures
        (test_username_spec(a) == test_username_spec(n)) == (a == n),
        (test_password_spec(a) == test_password_spec(n)) == (a == n),
{
    let u = "TestUser_"@;
    let p = "testpass"@;
    if test_username_spec(a) == test_username_spec(n) {
        assert(test_username_spec(a).skip(u.len() as int) =~= decimal(a as nat));
        assert(test_username_spec(n).skip(u.len() as int) =~= decimal(n as nat));
    }
    if test_password_spec(a) == test_password_spec(n) {
        assert(test_password_spec(a).skip(p.len() as int) =~= decimal(a as nat));
        assert(test_password_spec(n).skip(p.len() as int) =~= decimal(n as nat));
    }
    lemma_decimal_injective(a as nat, n as nat);
}

/// What the server refuses a request with.
#[derive(Debug, Clone, PartialEq, Eq, Hash)]
pub enum Error {
    IncorrectLogin,
    Internal,
    AlreadyExists,
    UserChanged(User),
    UserRemoved,
    UserNotInDb,
    Unauthorized,
    SessionExpired,
    Lagging,
    BackLogLocked,
    DirDoesNotExist,
    SaveInUse,
    NotEmpty,
    NotHost,
    ForbiddenPath(String),
    NotSaving,
}

/// The message that tells a user what went wrong.
pub open spec fn error_message(e: Error) -> Seq<char> {
    match e {
        Error::IncorrectLogin => "wrong username or password"@,
        Error::Internal => "internal server error, please ask admin for help"@,
        Error::AlreadyExists => "user already exists"@,
        Error::UserChanged(_) => "user changed while modifying"@,
        Error::UserRemoved => "user was removed while modifying"@,
        Error::UserNotInDb => "no user in database with given id"@,
        Error::Unauthorized => "access restricted"@,
        Error::SessionExpired => "session expired or did not exist"@,
        Error::Lagging => "missed to many server events, need to log in again"@,
        Error::BackLogLocked => "a sessions backlog should not be accessed concurrently"@,
        Error::DirDoesNotExist => "could not dump save, target directory does not exist"@,
        Error::SaveInUse => "could not load save, someone is currently hosting"@,
        Error::NotEmpty => "could not dump save, folder is not empty"@,
        Error::NotHost => "session is not currently hosting"@,
        Error::ForbiddenPath(p) => "files with this path may not be changed by a client: "@ + p@,
        Error::NotSaving => "not creating a new save"@,
    }
}

impl Error {
    /// The message that tells a user what went wrong.
    pub fn message(&self) -> (r: String)
        ensures
            r@ == error_message(*self),
    {
        match self {
            Error::IncorrectLogin => String::from_str("wrong username or password"),
            Error::Internal => String::from_str("internal server error, please ask admin for help"),
            Error::AlreadyExists => String::from_str("user already exists"),
            Error::UserChanged(_) => String::from_str("user changed while modifying"),
            Error::UserRemoved => String::from_str("user was removed while modifying"),
            Error::UserNotInDb => String::from_str("no user in database with given id"),
            Error::Unauthorized => String::from_str("access restricted"),
            Error::SessionExpired => String::from_str("session expired or did not exist"),
            Error::Lagging => String::from_str("missed to many server events, need to log in again"),
            Error::BackLogLocked => String::from_str("a sessions backlog should not be accessed concurrently"),
            Error::DirDoesNotExist => String::from_str("could not dump save, target directory does not exist"),
            Error::SaveInUse => String::from_str("could not load save, someone is currently hosting"),
            Error::NotEmpty => String::from_str("could not dump save, folder is not empty"),
            Error::NotHost => String::from_str("session is not currently hosting"),
            Error::ForbiddenPath(p) => {
                let mut r = String::from_str("files with this path may not be changed by a client: ");
                r.append(p.as_str());
                r
            },
            Error::NotSaving => String::from_str("not creating a new save"),
        }
    }
}

/// The operating systems a game server can run on.
#[derive(Debug, Clone, Copy, PartialEq, Eq, Hash, Structural)]
pub enum Platform {
    Windows,
    Linux,
}

impl Platform {
    /// The platform of an operating system as the standard library names it
    /// (`std::env::consts::OS`).
    pub fn from_os_name(os: &str) -> (r: Result<Platform, ()>)
        ensures
            r == (if os@ == "linux"@ {
                Ok(Platform::Linux)
            } else if os@ == "windows"@ {
                Ok(Platform::Windows)
            } else {
                Err(())
            }),
    {
        let os = os.to_owned();
        if os == String::from_str("linux") {
            Ok(Platform::Linux)
        } else if os == String::from_str("windows") {
            Ok(Platform::Windows)
        } else {
            Err(())
        }
    }

    /// The lower case name of the platform.
    pub fn name(&self) -> (r: &'static str)
        ensures
            r@ == match self {
                Platform::Windows => "windows"@,
                Platform::Linux => "linux"@,
            },
    {
        match self {
            Platform::Windows => "windows",
            Platform::Linux => "linux",
        }
    }
}

/// The build a program was made from.
#[derive(Debug, Clone, PartialEq, Eq, Hash)]
pub struct Version {
    semver: String,
    commit: String,
    branch: String,
    build_date: String,
    features: String,
    profile: String,
}

/// The text that describes a build.
pub open spec fn version_text(semver: Seq<char>, commit: Seq<char>, branch: Seq<char>, build_date: Seq<char>, features: Seq<char>, profile: Seq<char>) -> Seq<char> {
    "  version:\n     - semver: "@ + semver + "\n     - commit: "@ + commit + "\n     - branch: "@ + branch
        + "\n  build_date: "@ + build_date + "\n  features: "@ + features + "\n  profile: "@ + profile + "\n"@
}

impl Version {
    pub fn new(semver: String, commit: String, branch: String, build_date: String, features: String, profile: String) -> (r: Version)
        ensures
            r.semver() == semver@,
            r.commit() == commit@,
            r.branch() == branch@,
            r.build_date() == build_date@,
            r.features() == features@,
            r.profile() == profile@,
    {
        Version { semver, commit, branch, build_date, features, profile }
    }

    pub closed spec fn semver(&self) -> Seq<char> { self.semver@ }
    pub closed spec fn commit(&self) -> Seq<char> { self.commit@ }
    pub closed spec fn branch(&self) -> Seq<char> { self.branch@ }
    pub closed spec fn build_date(&self) -> Seq<char> { self.build_date@ }
    pub closed spec fn features(&self) -> Seq<char> { self.features@ }
    pub closed spec fn profile(&self) -> Seq<char> { self.profile@ }

    /// Whether two builds are the same.
    pub fn same_as(&self, other: &Version) -> (r: bool)
        ensures
            r == (self.semver() == other.semver() && self.commit() == other.commit()
                && self.branch() == other.branch() && self.build_date() == other.build_date()
                && self.features() == other.features() && self.profile() == other.profile()),
    {
        self.semver == other.semver && self.commit == other.commit && self.branch == other.branch
            && self.build_date == other.build_date && self.features == other.features
            && self.profile == other.profile
    }

    /// The multi-line description of the build that is shown to users.
    pub fn describe(&self) -> (r: String)
        ensures
            r@ == version_text(self.semver(), self.commit(), self.branch(), self.build_date(), self.features(), self.profile()),
    {
        let mut r = String::from_str("  version:\n     - semver: ");
        r.append(self.semver.as_str());
        r.append("\n     - commit: ");
        r.append(self.commit.as_str());
        r.append("\n     - branch: ");
        r.append(self.branch.as_str());
        r.append("\n  build_date: ");
        r.append(self.build_date.as_str());
        r.append("\n  features: ");
        r.append(self.features.as_str());
        r.append("\n  profile: ");
        r.append(self.profile.as_str());
        r.append("\n");
        assert(r@ =~= version_text(self.semver(), self.commit(), self.branch(), self.build_date(), self.features(), self.profile()));
        r
    }
}

} // verus!
