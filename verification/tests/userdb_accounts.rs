use worldsync::protocol::{self, User};
use worldsync::userdb::{
    after_failed_swap, check_name_free, encode_pass, new_entry, override_step, validate_credentials, with_passhash, with_user,
    Error, Index, OverrideStep, UserEntry,
};

fn user(name: &str) -> User {
    User { username: name.to_string() }
}

fn entry(id: u64, name: &str, passhash: &str) -> UserEntry {
    UserEntry { id, user: user(name), passhash: passhash.to_string() }
}

#[test]
fn index_maps_names_to_ids() {
    let mut index = Index::from(vec![("alice".to_string(), 1), ("bob".to_string(), 2), ("alice".to_string(), 3)]);
    assert_eq!(index.get("alice"), Some(3));
    assert_eq!(index.get("bob"), Some(2));
    assert_eq!(index.get("carol"), None);
    assert!(index.contains("bob"));
    assert!(!index.contains("carol"));

    index.insert("carol".to_string(), 4);
    assert_eq!(index.get("carol"), Some(4));
    index.insert("bob".to_string(), 5);
    assert_eq!(index.get("bob"), Some(5));

    index.remove("bob");
    assert!(!index.contains("bob"));
    assert_eq!(index.get("alice"), Some(3));
    index.remove("nobody");
    assert_eq!(index.get("carol"), Some(4));
}

#[test]
fn failed_swap_on_removed_user() {
    let r = after_failed_swap(entry(1, "a", "h1"), None);
    assert!(matches!(r, Err(Error::UserRemoved)));
}

#[test]
fn failed_swap_on_changed_user() {
    let r = after_failed_swap(entry(1, "a", "h1"), Some(entry(1, "b", "h2")));
    assert!(matches!(r, Err(Error::Changed(ref e)) if e.user.username == "b" && e.passhash == "h2"));
}

#[test]
fn failed_swap_on_changed_password_retries_with_new_hash() {
    let r = after_failed_swap(entry(1, "a", "h1"), Some(entry(1, "a", "h2")));
    match r {
        Ok(e) => {
            assert_eq!(e.id, 1);
            assert_eq!(e.user.username, "a");
            assert_eq!(e.passhash, "h2");
        }
        Err(e) => panic!("unexpected {:?}", e),
    }
}

#[test]
fn password_hash_replaced() {
    let e = with_passhash(Some(entry(7, "a", "old")), &"new".to_string()).unwrap();
    assert_eq!((e.id, e.user.username.as_str(), e.passhash.as_str()), (7, "a", "new"));
    assert!(with_passhash(None, &"new".to_string()).is_none());
}

#[test]
fn errors_given_to_clients() {
    assert_eq!(Error::AlreadyExists.into_protocol(), protocol::Error::AlreadyExists);
    assert_eq!(Error::Db.into_protocol(), protocol::Error::Internal);
    assert_eq!(Error::Changed(entry(1, "x", "h")).into_protocol(), protocol::Error::UserChanged(user("x")));
    assert_eq!(Error::UserRemoved.into_protocol(), protocol::Error::UserRemoved);
    assert_eq!(Error::DoesNotExist.into_protocol(), protocol::Error::UserNotInDb);
    assert_eq!(Error::IncorrectPass.into_protocol(), protocol::Error::Unauthorized);
}

#[test]
fn password_opens_its_entry() {
    let e = new_entry(12, user("alice"), "correct horse");
    assert_eq!(e.id, 12);
    assert_eq!(e.user, user("alice"));
    assert!(e.passhash.starts_with("$argon2"));
    assert!(matches!(validate_credentials(Some(e.duplicate()), "correct horse"), Some(Ok(12))));
    assert!(matches!(validate_credentials(Some(e), "wrong"), Some(Err(Error::IncorrectPass))));
}

#[test]
fn no_entry_is_an_incorrect_password() {
    assert!(matches!(validate_credentials(None, "anything"), Some(Err(Error::IncorrectPass))));
}

#[test]
fn unreadable_hash_gives_nothing() {
    assert!(validate_credentials(Some(entry(1, "a", "not a hash")), "pw").is_none());
}

#[test]
fn salts_differ_between_encodings() {
    let a = encode_pass("secret");
    let b = encode_pass("secret");
    assert_ne!(a, b);
    assert!(argon2::verify_encoded(&a, b"secret").unwrap());
    assert!(argon2::verify_encoded(&b, b"secret").unwrap());
}

fn base64_value(c: u8) -> u32 {
    match c {
        b'A'..=b'Z' => (c - b'A') as u32,
        b'a'..=b'z' => (c - b'a') as u32 + 26,
        b'0'..=b'9' => (c - b'0') as u32 + 52,
        b'+' => 62,
        b'/' => 63,
        _ => panic!("not base64: {}", c),
    }
}

/// Decodes unpadded standard base64.
fn decode_base64(text: &str) -> Vec<u8> {
    let mut out = Vec::new();
    let mut acc = 0u32;
    let mut bits = 0;
    for c in text.bytes() {
        acc = (acc << 6) | base64_value(c);
        bits += 6;
        if bits >= 8 {
            bits -= 8;
            out.push((acc >> bits) as u8);
            acc &= (1 << bits) - 1;
        }
    }
    out
}

#[test]
fn salt_is_32_letters_and_digits() {
    let encoded = encode_pass("pw");
    let parts: Vec<&str> = encoded.split('$').collect();
    assert_eq!(parts.len(), 6, "{}", encoded);
    let salt = decode_base64(parts[4]);
    assert_eq!(salt.len(), 32);
    assert!(salt.iter().all(|b| b.is_ascii_alphanumeric()));
}

#[test]
fn existing_name_is_refused() {
    let mut index = Index::from(Vec::new());
    assert!(check_name_free(&index, "test").is_ok());
    index.insert("test".to_string(), 1);
    assert!(matches!(check_name_free(&index, "test"), Err(Error::AlreadyExists)));
    assert!(check_name_free(&index, "other").is_ok());
}

#[test]
fn renaming_moves_the_account() {
    let mut index = Index::from(vec![("alice".to_string(), 1), ("bob".to_string(), 2)]);
    index.rename("alice", "alicia".to_string(), 1);
    assert_eq!(index.get("alice"), None);
    assert_eq!(index.get("alicia"), Some(1));
    assert_eq!(index.get("bob"), Some(2));
}

#[test]
fn user_details_replaced() {
    let e = with_user(&entry(3, "a", "hash"), user("b"));
    assert_eq!((e.id, e.user.username.as_str(), e.passhash.as_str()), (3, "b", "hash"));
}

#[test]
fn overriding_goes_on_after_changes() {
    assert!(matches!(override_step(Ok(())), OverrideStep::Done));
    assert!(matches!(override_step(Err(Error::Changed(entry(1, "x", "h")))), OverrideStep::Retry(ref e) if e.user.username == "x"));
    assert!(matches!(override_step(Err(Error::UserRemoved)), OverrideStep::Fail(Error::UserRemoved)));
}
