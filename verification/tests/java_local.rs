use std::path::PathBuf;

use worldsync::localjava::{download_url, java_bin, jdk_dir, linux_download_url, Version, VersionError};
use worldsync::paths::{db_path, dump_path, join, server_path};
use worldsync::protocol::Platform;

#[test]
fn parse_version() {
    let input = "java version \"17.0.1\" 2021-10-19 LTS\nJava(TM) SE Runtime Environment (build 1
7.0.1+12-LTS-39)\nJava HotSpot(TM) 64-Bit Server VM (build 17.0.1+12-LTS-39, mixed mode, sharing)\n";
    let res = Version::try_from(input).unwrap();
    assert_eq!(res, Version::new(17, 0, 1));
}

#[test]
fn version_with_pre_release_and_build() {
    let v = Version::try_from("openjdk version \"17.0.2-ea+8\"").unwrap();
    assert_eq!((v.major, v.minor, v.patch), (17, 0, 2));
    assert_eq!(v.pre, "ea");
    assert_eq!(v.build, "8");
    assert!(!v.same_as(&Version::new(17, 0, 2)));
}

#[test]
fn output_without_quotes() {
    assert_eq!(Version::try_from("java version 17"), Err(VersionError::NoQuoted));
}

#[test]
fn unclosed_quote_takes_the_rest() {
    assert_eq!(Version::try_from("version \"1.2.3").unwrap(), Version::new(1, 2, 3));
}

#[test]
fn quoted_part_that_is_no_version() {
    let expected = semver::Version::parse("1.8").unwrap_err().to_string();
    assert_eq!(Version::try_from("java version \"1.8\""), Err(VersionError::Parse(expected)));
}

#[test]
fn java_locations() {
    assert_eq!(jdk_dir("java"), "java/jdk-17.0.1");
    assert_eq!(jdk_dir("java/"), "java/jdk-17.0.1");
    assert_eq!(java_bin("java/jdk-17.0.1", Platform::Linux), "java/jdk-17.0.1/bin/java");
    assert_eq!(java_bin("java/jdk-17.0.1", Platform::Windows), "java/jdk-17.0.1/bin/java.exe");
}

#[test]
fn download_addresses() {
    assert_eq!(
        download_url("windows", "zip"),
        "https://download.oracle.com/java/17/latest/jdk-17_windows-x64_bin.zip"
    );
    assert_eq!(
        linux_download_url(),
        "https://download.oracle.com/java/17/latest/jdk-17_linux-x64_bin.tar.gz"
    );
}

#[test]
fn joined_paths_match_std() {
    for (base, rel) in [("a", "b"), ("a/", "b"), ("", "b"), ("a/b", "c/d"), ("a//", "b"), ("a", "/b"), ("a/", "/x/y"), ("", "/"), ("a", "")] {
        let mut p = PathBuf::from(base);
        p.push(rel);
        assert_eq!(join(base, rel), p.to_str().unwrap());
    }
    assert_eq!(server_path(), "worldsync/mc_server");
    assert_eq!(db_path(), "worldsync/db");
    assert_eq!(dump_path(), "save_dump");
}
