//! The local java install a hosted game server runs on: where it lives,
//! where to download it, and reading its version.

use vstd::prelude::*;
use crate::paths::{join, join_spec};
use crate::protocol::Platform;
use crate::text::{find_char, first_index_of};

verus! {

/// A version as semantic versioning defines it.
#[derive(Debug, PartialEq, Eq)]
pub struct Version {
    pub major: u64,
    pub minor: u64,
    pub patch: u64,
    pub pre: String,
    pub build: String,
}

/// Why no version could be read.
#[derive(Debug, PartialEq, Eq)]
pub enum VersionError {
    /// There is no quoted part in the output of `java -version`.
    NoQuoted,
    /// The quoted part is no semantic version; the parser's message.
    Parse(String),
}

/// What `semver::Version::parse` makes of a text: the major, minor and
/// patch numbers with the pre-release and build texts, or the message of
/// its error.
pub uninterp spec fn semver_parse(s: Seq<char>) -> Result<(u64, u64, u64, Seq<char>, Seq<char>), Seq<char>>;

/// `semver::Version::parse`; its outcome is named [`semver_parse`].
#[verifier::external_body]
fn parse_semver(s: &str) -> (r: Result<(u64, u64, u64, String, String), String>)
    ensures
        match r {
            Ok(v) => semver_parse(s@) == Ok::<(u64, u64, u64, Seq<char>, Seq<char>), Seq<char>>((v.0, v.1, v.2, v.3@, v.4@)),
            Err(e) => semver_parse(s@) == Err::<(u64, u64, u64, Seq<char>, Seq<char>), Seq<char>>(e@),
        },
{
    match semver::Version::parse(s) {
        Ok(v) => Ok((v.major, v.minor, v.patch, v.pre.as_str().to_owned(), v.build.as_str().to_owned())),
        Err(e) => Err(e.to_string()),
    }
}

/// The second piece of `s` split at `"`: the text after the first quote
/// up to the next quote or the end; nothing without a quote.
pub open spec fn quoted_part(s: Seq<char>) -> Option<Seq<char>> {
    match first_index_of(s, '"') {
        None => None,
        Some(i) => {
            let rest = s.skip(i + 1);
            match first_index_of(rest, '"') {
                None => Some(rest),
                Some(j) => Some(rest.take(j)),
            }
        },
    }
}

/// The version read from the output of `java -version`.
pub open spec fn version_from_output(s: Seq<char>) -> Result<(u64, u64, u64, Seq<char>, Seq<char>), Option<Seq<char>>> {
    match quoted_part(s) {
        None => Err(None),
        Some(q) => match semver_parse(q) {
            Ok(v) => Ok(v),
            Err(m) => Err(Some(m)),
        },
    }
}

impl Version {
    /// The version `major.minor.patch`, without pre-release or build.
    pub fn new(major: u64, minor: u64, patch: u64) -> (r: Version)
        ensures
            r.major == major,
            r.minor == minor,
            r.patch == patch,
            r.pre@ == Seq::<char>::empty(),
            r.build@ == Seq::<char>::empty(),
    {
        Version { major, minor, patch, pre: String::new(), build: String::new() }
    }

    /// Reads the version out of the output of `java -version`: the first
    /// quoted part, parsed as a semantic version.
    pub fn try_from(s: &str) -> (r: Result<Version, VersionError>)
        ensures
            match version_from_output(s@) {
                Ok(v) => r matches Ok(x) && x.major == v.0 && x.minor == v.1 && x.patch == v.2
                    && x.pre@ == v.3 && x.build@ == v.4,
                Err(None) => r == Err::<Version, VersionError>(VersionError::NoQuoted),
                Err(Some(m)) => r matches Err(VersionError::Parse(e)) && e@ == m,
            },
    {
        let quoted = match quoted_part_exec(s) {
            Some(q) => q,
            None => return Err(VersionError::NoQuoted),
        };
        match parse_semver(quoted.as_str()) {
            Ok((major, minor, patch, pre, build)) => Ok(Version { major, minor, patch, pre, build }),
            Err(e) => Err(VersionError::Parse(e)),
        }
    }

    /// Whether two versions are the same.
    pub fn same_as(&self, other: &Version) -> (r: bool)
        ensures
            r == (self.major == other.major && self.minor == other.minor && self.patch == other.patch
                && self.pre@ == other.pre@ && self.build@ == other.build@),
    {
        self.major == other.major && self.minor == other.minor && self.patch == other.patch
            && self.pre == other.pre && self.build == other.build
    }
}

/// The quoted part of `s`; see [`quoted_part`].
fn quoted_part_exec(s: &str) -> (r: Option<String>)
    ensures
        match quoted_part(s@) {
            None => r is None,
            Some(q) => r matches Some(x) && x@ == q,
        },
{
    let n = s.unicode_len();
    match find_char(s, '"') {
        None => None,
        Some(i) => {
            let rest = s.substring_char(i + 1, n);
            assert(rest@ =~= s@.skip(i + 1));
            match find_char(rest, '"') {
                None => Some(rest.to_owned()),
                Some(j) => {
                    let q = rest.substring_char(0, j);
                    assert(q@ =~= rest@.take(j as int));
                    Some(q.to_owned())
                },
            }
        },
    }
}

/// Where in a local java directory the java development kit lies.
pub fn jdk_dir(dir: &str) -> (r: String)
    ensures
        r@ == join_spec(dir@, "jdk-17.0.1"@),
{
    join(dir, "jdk-17.0.1")
}

/// The java executable of a java development kit for a platform.
pub fn java_bin(dir: &str, platform: Platform) -> (r: String)
    ensures
        r@ == join_spec(dir@, match platform {
            Platform::Windows => "bin/java.exe"@,
            Platform::Linux => "bin/java"@,
        }),
{
    match platform {
        Platform::Windows => join(dir, "bin/java.exe"),
        Platform::Linux => join(dir, "bin/java"),
    }
}

/// The download address of the latest java 17 development kit for an
/// operating system (`linux`, `macos` or `windows`) packed as `pack`
/// (`tar.gz` for linux and macos, `zip` for windows).
pub open spec fn download_url_spec(os: Seq<char>, pack: Seq<char>) -> Seq<char> {
    "https://download.oracle.com/java/17/latest/jdk-17_"@ + os + "-x64_bin."@ + pack
}

/// The download address of the latest java 17 development kit; see
/// [`download_url_spec`].
pub fn download_url(os: &str, pack: &str) -> (r: String)
    ensures
        r@ == download_url_spec(os@, pack@),
{
    let mut r = String::from_str("https://download.oracle.com/java/17/latest/jdk-17_");
    r.append(os);
    r.append("-x64_bin.");
    r.append(pack);
    r
}

/// The download address of the linux development kit.
pub fn linux_download_url() -> (r: String)
    ensures
        r@ == download_url_spec("linux"@, "tar.gz"@),
{
    download_url("linux", "tar.gz")
}

} // verus!
