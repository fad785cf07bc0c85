use worldsync::admin::{
    account_sent, after_override, password_sent, start_save, SaveAction, apply_name_input, apply_password_input, edit_choice, menu_choice, needs_override, picked_user,
    validate_changed_password, validate_changed_username, validate_new_username, AdminError, EditChoice, MenuChoice,
};
use worldsync::protocol::{Error, User};

#[test]
fn account_inputs_are_validated() {
    assert_eq!(validate_new_username("abc"), Ok(()));
    assert_eq!(validate_new_username("ab"), Err("usernames with less then three characters are not allowed"));
    assert_eq!(validate_changed_username(""), Ok(()));
    assert_eq!(validate_changed_username("ab"), Err("usernames with less then three characters are not allowed"));
    assert_eq!(validate_changed_password(""), Ok(()));
    assert_eq!(validate_changed_password("0123456789a"), Ok(()));
    assert_eq!(validate_changed_password("0123456789"), Err("password with less then 10 characters are not allowed"));
}

#[test]
fn override_restarts_from_the_changed_account() {
    let mut new_user = User { username: "edited".to_string() };
    assert!(after_override(Ok(()), &mut new_user));
    assert_eq!(new_user.username, "edited");
    let changed = Error::UserChanged(User { username: "current".to_string() });
    assert!(!after_override(Err(changed), &mut new_user));
    assert_eq!(new_user.username, "current");
}

#[test]
fn menu_entries() {
    assert_eq!(menu_choice(0), MenuChoice::Exit);
    assert_eq!(menu_choice(2), MenuChoice::ModifyUser);
    assert_eq!(menu_choice(5), MenuChoice::SetSave);
    assert_eq!(edit_choice(0), EditChoice::ChangeUsername);
    assert_eq!(edit_choice(3), EditChoice::SaveAndExit);
}

#[test]
fn picking_an_account() {
    assert!(matches!(picked_user(0, 0), Err(AdminError::NoUsers)));
    assert!(matches!(picked_user(3, 3), Err(AdminError::Canceld)));
    assert!(matches!(picked_user(3, 1), Ok(1)));
}

#[test]
fn empty_inputs_keep_what_was_there() {
    let mut user = User { username: "alice".to_string() };
    apply_name_input(&mut user, String::new());
    assert_eq!(user.username, "alice");
    apply_name_input(&mut user, "alicia".to_string());
    assert_eq!(user.username, "alicia");

    let mut pass = None;
    apply_password_input(&mut pass, String::new());
    assert_eq!(pass, None);
    apply_password_input(&mut pass, "a long password".to_string());
    assert_eq!(pass, Some("a long password".to_string()));
    apply_password_input(&mut pass, String::new());
    assert_eq!(pass, Some("a long password".to_string()));
}

#[test]
fn unchanged_accounts_need_no_request() {
    let a = User { username: "alice".to_string() };
    assert!(!needs_override(&a, &a.duplicate()));
    assert!(needs_override(&a, &User { username: "bob".to_string() }));
}

#[test]
fn saving_sends_the_password_then_the_account() {
    let user = User { username: "alice".to_string() };
    let renamed = User { username: "alicia".to_string() };
    assert!(matches!(start_save(Some("a long password".to_string()), &user, &renamed), SaveAction::SendPassword(ref p) if p == "a long password"));
    assert!(matches!(start_save(None, &user, &renamed), SaveAction::SendAccount));
    assert!(matches!(start_save(None, &user, &user.duplicate()), SaveAction::Finished(true)));
    assert!(matches!(password_sent(Ok(()), &user, &renamed), SaveAction::SendAccount));
    assert!(matches!(password_sent(Err(Error::UserRemoved), &user, &user.duplicate()), SaveAction::Finished(true)));
    let mut edited = renamed.duplicate();
    assert!(matches!(account_sent(Ok(()), &mut edited), SaveAction::Finished(true)));
    assert_eq!(edited.username, "alicia");
    let changed = Error::UserChanged(User { username: "al".to_string() });
    assert!(matches!(account_sent(Err(changed), &mut edited), SaveAction::Finished(false)));
    assert_eq!(edited.username, "al");
}
