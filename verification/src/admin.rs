//! Decisions of the server's administration tool: which menu entry was
//! picked, which inputs are accepted, and how edits of an account go on.

use vstd::prelude::*;
use crate::protocol::{self, User};

verus! {

/// What the administration tool can fail with.
#[derive(Debug)]
pub enum AdminError {
    Protocol(protocol::Error),
    NoUsers,
    Canceld,
}

/// The entries of the main menu, in their order.
#[derive(Debug, Clone, Copy, PartialEq, Eq)]
pub enum MenuChoice {
    Exit,
    AddUser,
    ModifyUser,
    RemoveUser,
    DumpSave,
    SetSave,
}

/// The main menu entry at position `selection`.
pub fn menu_choice(selection: usize) -> (r: MenuChoice)
    requires
        selection < 6,
    ensures
        r == match selection {
            0 => MenuChoice::Exit,
            1 => MenuChoice::AddUser,
            2 => MenuChoice::ModifyUser,
            3 => MenuChoice::RemoveUser,
            4 => MenuChoice::DumpSave,
            _ => MenuChoice::SetSave,
        },
{
    match selection {
        0 => MenuChoice::Exit,
        1 => MenuChoice::AddUser,
        2 => MenuChoice::ModifyUser,
        3 => MenuChoice::RemoveUser,
        4 => MenuChoice::DumpSave,
        _ => MenuChoice::SetSave,
    }
}

/// The entries of the menu for editing an account, in their order.
#[derive(Debug, Clone, Copy, PartialEq, Eq)]
pub enum EditChoice {
    ChangeUsername,
    ChangePassword,
    Abort,
    SaveAndExit,
}

/// The edit menu entry at position `selection`.
pub fn edit_choice(selection: usize) -> (r: EditChoice)
    requires
        selection < 4,
    ensures
        r == match selection {
            0 => EditChoice::ChangeUsername,
            1 => EditChoice::ChangePassword,
            2 => EditChoice::Abort,
            _ => EditChoice::SaveAndExit,
        },
{
    match selection {
        0 => EditChoice::ChangeUsername,
        1 => EditChoice::ChangePassword,
        2 => EditChoice::Abort,
        _ => EditChoice::SaveAndExit,
    }
}

/// The account picked from a list of `len` accounts shown with a cancel
/// entry after them: its position, no accounts to pick from, or cancelled.
pub fn picked_user(len: usize, selection: usize) -> (r: Result<usize, AdminError>)
    requires
        len > 0 ==> selection <= len,
    ensures
        r == (if len == 0 {
            Err(AdminError::NoUsers)
        } else if selection == len {
            Err(AdminError::Canceld)
        } else {
            Ok::<usize, AdminError>(selection)
        }),
{
    if len == 0 {
        return Err(AdminError::NoUsers);
    }
    if selection == len {
        return Err(AdminError::Canceld);
    }
    Ok(selection)
}

/// Accepts a user name of at least three bytes.
pub fn validate_new_username(input: &str) -> (r: Result<(), &'static str>)
    ensures
        r is Ok == (input.len() > 2),
        r matches Err(m) ==> m@ == "usernames with less then three characters are not allowed"@,
{
    if input.len() > 2 {
        Ok(())
    } else {
        Err("usernames with less then three characters are not allowed")
    }
}

/// Accepts a changed user name of at least three bytes, or nothing to keep
/// the name.
pub fn validate_changed_username(input: &str) -> (r: Result<(), &'static str>)
    ensures
        r is Ok == (input.len() > 2 || input.len() == 0),
        r matches Err(m) ==> m@ == "usernames with less then three characters are not allowed"@,
{
    if input.len() > 2 || input.len() == 0 {
        Ok(())
    } else {
        Err("usernames with less then three characters are not allowed")
    }
}

/// Accepts a changed password of more than ten bytes, or nothing to keep
/// the password.
pub fn validate_changed_password(input: &str) -> (r: Result<(), &'static str>)
    ensures
        r is Ok == (input.len() > 10 || input.len() == 0),
        r matches Err(m) ==> m@ == "password with less then 10 characters are not allowed"@,
{
    if input.len() > 10 || input.len() == 0 {
        Ok(())
    } else {
        Err("password with less then 10 characters are not allowed")
    }
}

/// Takes in a new name for the edited account; an empty input keeps the
/// name.
pub fn apply_name_input(user: &mut User, input: String)
    ensures
        final(user).username@ == (if input@.len() == 0 { old(user).username@ } else { input@ }),
{
    if input.unicode_len() != 0 {
        user.username = input;
    }
}

/// Takes in a new password for the edited account; an empty input keeps
/// what was entered before.
pub fn apply_password_input(pass: &mut Option<String>, input: String)
    ensures
        *final(pass) == (if input@.len() == 0 { *old(pass) } else { Some(input) }),
{
    if input.unicode_len() != 0 {
        *pass = Some(input);
    }
}

/// Whether the edited account differs from the stored one, so that the
/// server must be asked to change it.
pub fn needs_override(user: &User, new_user: &User) -> (r: bool)
    ensures
        r == (user.username@ != new_user.username@),
{
    !user.same_as(new_user)
}

/// Handles the server's answer to overriding an account: done when it
/// succeeded; when the account changed meanwhile, the edit starts again from
/// the account as it is now.
pub fn after_override(result: Result<(), protocol::Error>, new_user: &mut User) -> (done: bool)
    requires
        result is Ok || result matches Err(protocol::Error::UserChanged(_)),
    ensures
        match result {
            Ok(()) => done && *final(new_user) == *old(new_user),
            Err(protocol::Error::UserChanged(u)) => !done && *final(new_user) == u,
            _ => true,
        },
{
    match result {
        Ok(()) => true,
        Err(protocol::Error::UserChanged(current)) => {
            *new_user = current;
            false
        },
        Err(_) => true,
    }
}

/// What saving an edited account asks of the server next, or that saving
/// is over.
#[derive(Debug)]
pub enum SaveAction {
    /// Set this password for the account.
    SendPassword(String),
    /// Override the account with the edited details.
    SendAccount,
    /// Saving is over: leave the editor where true, edit again where false.
    Finished(bool),
}

/// The step after the password, if any, is settled: override the account
/// where its details were changed, else leave the editor.
pub open spec fn account_step(user: User, new_user: User) -> SaveAction {
    if user.username@ != new_user.username@ {
        SaveAction::SendAccount
    } else {
        SaveAction::Finished(true)
    }
}

/// The first step of saving an edited account: the new password, if one
/// was entered, goes first; then the account, if its details changed.
pub fn start_save(password: Option<String>, user: &User, new_user: &User) -> (r: SaveAction)
    ensures
        r == match password {
            Some(p) => SaveAction::SendPassword(p),
            None => account_step(*user, *new_user),
        },
{
    match password {
        Some(p) => SaveAction::SendPassword(p),
        None => {
            if needs_override(user, new_user) {
                SaveAction::SendAccount
            } else {
                SaveAction::Finished(true)
            }
        },
    }
}

/// The step after the server answered the new password; an account that
/// was removed meanwhile is only reported, and saving goes on.
pub fn password_sent(result: Result<(), protocol::Error>, user: &User, new_user: &User) -> (r: SaveAction)
    requires
        result is Ok || result matches Err(protocol::Error::UserRemoved),
    ensures
        r == account_step(*user, *new_user),
{
    if needs_override(user, new_user) {
        SaveAction::SendAccount
    } else {
        SaveAction::Finished(true)
    }
}

/// The step after the server answered the override: done when it
/// succeeded; when the account changed meanwhile, the edit starts again
/// from the account as it is now.
pub fn account_sent(result: Result<(), protocol::Error>, new_user: &mut User) -> (r: SaveAction)
    requires
        result is Ok || result matches Err(protocol::Error::UserChanged(_)),
    ensures
        match result {
            Ok(()) => r == SaveAction::Finished(true) && *final(new_user) == *old(new_user),
            Err(protocol::Error::UserChanged(u)) => r == SaveAction::Finished(false) && *final(new_user) == u,
            _ => true,
        },
{
    let done = after_override(result, new_user);
    SaveAction::Finished(done)
}

} // verus!
