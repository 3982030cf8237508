//! The boundary: what a caller outside gets to see of an outcome. Failures
//! are not told apart from absence here; that is left so on purpose.

use crate::auth::{AuthError, CredentialView, User};
use vstd::prelude::*;

verus! {

/// The account that a login shows: its id and the username asked for,
/// without hash and salt.
pub open spec fn session_of(id: int, username: Seq<char>) -> CredentialView {
    CredentialView { id, username, password_hash: Seq::empty(), salt: Seq::empty() }
}

/// The answer to a login: the account where the login gave an id, nothing
/// where it gave none or failed.
pub fn login(outcome: Result<Option<i32>, AuthError>, username: &str) -> (session: Option<User>)
    ensures
        session is Some <==> outcome matches Ok(Some(_)),
        session matches Some(account) ==> (outcome matches Ok(Some(id)) && account@ == session_of(
            id as int,
            username@,
        )),
{
    match outcome {
        Ok(Some(id)) => Some(
            User {
                id,
                username: username.to_owned(),
                password_hash: String::new(),
                salt: String::new(),
            },
        ),
        _ => None,
    }
}

/// The answer to a registration: the account where it went through, nothing
/// where it failed, whatever the reason.
pub fn register(outcome: Result<User, AuthError>) -> (account: Option<User>)
    ensures
        account is Some <==> outcome is Ok,
        account matches Some(a) ==> outcome == Ok::<User, AuthError>(a),
{
    match outcome {
        Ok(account) => Some(account),
        Err(_) => None,
    }
}

/// The answer to a listing of accounts: the accounts as they are, hash and
/// salt included; none where the listing failed.
pub fn get_auth_users(outcome: Result<Vec<User>, AuthError>) -> (accounts: Vec<User>)
    ensures
        outcome matches Ok(listed) ==> accounts == listed,
        outcome is Err ==> accounts@.len() == 0,
{
    match outcome {
        Ok(accounts) => accounts,
        Err(_) => Vec::new(),
    }
}

/// The answer to the creation of a node: the store's identifier of it, or
/// the empty string where none came back.
pub fn created(element: Option<String>) -> (id: String)
    ensures
        element matches Some(e) ==> id == e,
        element is None ==> id@.len() == 0,
{
    match element {
        Some(id) => id,
        None => String::new(),
    }
}

} // verus!
