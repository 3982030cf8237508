//! Credentials: what is stored of an account, and what the service makes of
//! the relational store's answers.

use crate::hashing::{accepts, argon2_hash, phc_parses, MAX_PASSWORD};
use crate::hashing::{fresh_salt, hash_password, parses, verify_password};
use vstd::prelude::*;

verus! {

/// The statement that creates the accounts table where it is missing.
pub const CREATE_TABLE: &'static str =
    "CREATE TABLE IF NOT EXISTS users (id SERIAL PRIMARY KEY, username TEXT UNIQUE NOT NULL, password_hash TEXT NOT NULL, salt TEXT NOT NULL)";

/// The statement that stores an account: username, hash, salt.
pub const INSERT_USER: &'static str =
    "INSERT INTO users (username, password_hash, salt) VALUES ($1, $2, $3)";

/// The statement that reads the account of a username.
pub const SELECT_USER: &'static str = "SELECT * FROM users WHERE username = $1";

/// The statement that reads every account.
pub const SELECT_USERS: &'static str = "SELECT * FROM users";

/// The statement that removes the account with an id.
pub const DELETE_USER: &'static str = "DELETE FROM users WHERE id = $1";

/// What an account is, as a value.
pub struct CredentialView {
    pub id: int,
    pub username: Seq<char>,
    pub password_hash: Seq<char>,
    pub salt: Seq<char>,
}

/// An account as the store holds it. The id is the store's.
pub struct User {
    pub id: i32,
    pub username: String,
    pub password_hash: String,
    pub salt: String,
}

impl View for User {
    type V = CredentialView;

    open spec fn view(&self) -> CredentialView {
        CredentialView {
            id: self.id as int,
            username: self.username@,
            password_hash: self.password_hash@,
            salt: self.salt@,
        }
    }
}

impl Clone for User {
    fn clone(&self) -> (copy: Self)
        ensures
            copy@ == self@,
    {
        User {
            id: self.id,
            username: self.username.clone(),
            password_hash: self.password_hash.clone(),
            salt: self.salt.clone(),
        }
    }
}

/// An account with its hash and salt blanked.
pub open spec fn scrubbed(account: CredentialView) -> CredentialView {
    CredentialView { password_hash: Seq::empty(), salt: Seq::empty(), ..account }
}

/// The values of a list of accounts.
pub open spec fn credential_views(accounts: Seq<User>) -> Seq<CredentialView> {
    Seq::new(accounts.len(), |i: int| accounts[i]@)
}

/// What went wrong in the relational store, as far as it matters here.
#[derive(Debug, Clone, Copy, PartialEq, Eq, Structural)]
pub enum Fault {
    /// A unique constraint refused the row.
    UniqueViolation,
    /// Anything else: the connection, the statement, a timeout.
    Other,
}

/// Why an operation on accounts failed.
#[derive(Debug, Clone, Copy, PartialEq, Eq, Structural)]
pub enum AuthError {
    /// The username is taken.
    DuplicateUsername,
    /// No account has the id.
    NotFound,
    /// The store failed.
    StorageError,
    /// The password could not be hashed.
    Hashing,
}

/// The id that a login yields: that of the account found, where the password
/// is accepted for its hash.
pub open spec fn login_of(found: Option<CredentialView>, password: Seq<char>) -> Option<int> {
    match found {
        Some(account) => if accepts(password, account.password_hash) {
            Some(account.id)
        } else {
            None
        },
        None => None,
    }
}

/// What the store's answer to the lookup of a username means for a login
/// with a password. A failure of the store is the only error.
pub open spec fn login_means(found: Result<Option<User>, Fault>, password: Seq<char>) -> Result<
    Option<i32>,
    AuthError,
> {
    match found {
        Ok(Some(row)) => if accepts(password, row@.password_hash) {
            Ok(Some(row.id))
        } else {
            Ok(None)
        },
        Ok(None) => Ok(None),
        Err(_) => Err(AuthError::StorageError),
    }
}

/// What the lookup of a username means for a login, given whether the
/// password was accepted for the row found.
pub open spec fn login_given_means(found: Result<Option<User>, Fault>, accepted: bool) -> Result<
    Option<i32>,
    AuthError,
> {
    match found {
        Ok(Some(row)) => if accepted {
            Ok(Some(row.id))
        } else {
            Ok(None)
        },
        Ok(None) => Ok(None),
        Err(_) => Err(AuthError::StorageError),
    }
}

/// What the store's answer to an insert means to the caller.
pub open spec fn insert_means(outcome: Result<(), Fault>) -> Result<(), AuthError> {
    match outcome {
        Ok(_) => Ok(()),
        Err(Fault::UniqueViolation) => Err(AuthError::DuplicateUsername),
        Err(Fault::Other) => Err(AuthError::StorageError),
    }
}

/// What the store's answer to a delete, the number of rows it removed, means
/// to the caller.
pub open spec fn delete_means(outcome: Result<u64, Fault>) -> Result<(), AuthError> {
    match outcome {
        Ok(affected) => if affected > 0 {
            Ok(())
        } else {
            Err(AuthError::NotFound)
        },
        Err(_) => Err(AuthError::StorageError),
    }
}

/// A login fails only where the store failed. On every other answer of the
/// store it yields an id or none, and none where the stored hash does not
/// parse as a hash string.
pub proof fn lemma_login_fails_only_with_the_store(
    found: Result<Option<User>, Fault>,
    password: Seq<char>,
)
    ensures
        found is Ok <==> login_means(found, password) is Ok,
        found is Err ==> login_means(found, password) == Err::<Option<i32>, AuthError>(
            AuthError::StorageError,
        ),
        (found matches Ok(Some(row)) && !phc_parses(row@.password_hash)) ==> login_means(
            found,
            password,
        ) == Ok::<Option<i32>, AuthError>(None),
{
}

/// The account service: what to store at a registration, and what each
/// answer of the store means.
#[derive(Debug)]
pub struct AuthService {}

impl AuthService {
    pub fn new() -> Self {
        AuthService {  }
    }

    /// The account to store under a username and a salt, given what the
    /// hasher made of the password: the hash where there is one; no account
    /// where the hasher gave none. The id is the store's to give and is zero
    /// here.
    pub fn account_from(username: &str, salt: String, hashed: Option<String>) -> (account: Result<
        User,
        AuthError,
    >)
        ensures
            account is Ok <==> hashed is Some,
            account matches Ok(a) ==> a@ == (CredentialView {
                id: 0,
                username: username@,
                password_hash: hashed->0@,
                salt: salt@,
            }),
            account matches Err(e) ==> e == AuthError::Hashing,
    {
        match hashed {
            Some(password_hash) => Ok(
                User { id: 0, username: username.to_owned(), password_hash, salt },
            ),
            None => Err(AuthError::Hashing),
        }
    }

    /// The account to store for a registration under a given salt: the
    /// username, the Argon2 hash of the password under the salt, the salt;
    /// the id is the store's to give and is zero here. The password is
    /// accepted for the hash.
    pub fn credentials(username: &str, password: &str, salt: String) -> (account: Result<
        User,
        AuthError,
    >)
        ensures
            account is Ok <==> argon2_hash(password@, salt@) is Some,
            account matches Ok(a) ==> a@ == (CredentialView {
                id: 0,
                username: username@,
                password_hash: argon2_hash(password@, salt@)->0,
                salt: salt@,
            }),
            account matches Ok(a) ==> accepts(password@, a@.password_hash),
            account matches Err(e) ==> e == AuthError::Hashing,
    {
        let hashed = hash_password(password, salt.as_str());
        Self::account_from(username, salt, hashed)
    }

    /// The account to store for a registration, under a fresh random salt.
    /// There is one for every password of at most `MAX_PASSWORD` characters.
    /// Whatever the salt, the hash stored is that of the password under it.
    pub fn new_credentials(username: &str, password: &str) -> (account: Result<User, AuthError>)
        ensures
            password@.len() <= MAX_PASSWORD ==> account is Ok,
            account matches Ok(a) ==> a@.id == 0 && a@.username == username@ && argon2_hash(
                password@,
                a@.salt,
            ) == Some(a@.password_hash),
            account matches Ok(a) ==> accepts(password@, a@.password_hash),
            account matches Err(e) ==> e == AuthError::Hashing,
    {
        Self::credentials(username, password, fresh_salt())
    }

    /// What the store's answer to the insert means: a refusal by the unique
    /// constraint is a taken username, any other failure the store's.
    pub fn inserted(outcome: Result<(), Fault>) -> (done: Result<(), AuthError>)
        ensures
            done == insert_means(outcome),
    {
        match outcome {
            Ok(_) => Ok(()),
            Err(Fault::UniqueViolation) => Err(AuthError::DuplicateUsername),
            Err(Fault::Other) => Err(AuthError::StorageError),
        }
    }

    /// The end of a registration: the row read back under the username, with
    /// hash and salt blanked. A failed read, or no row, is the store's
    /// failure.
    pub fn register_user(reread: Result<Option<User>, Fault>) -> (account: Result<User, AuthError>)
        ensures
            account is Ok <==> reread matches Ok(Some(_)),
            account matches Ok(a) ==> reread matches Ok(Some(row)) && a@ == scrubbed(row@),
            account matches Err(e) ==> e == AuthError::StorageError,
    {
        match reread {
            Ok(Some(row)) => Ok(
                User {
                    id: row.id,
                    username: row.username,
                    password_hash: String::new(),
                    salt: String::new(),
                },
            ),
            _ => Err(AuthError::StorageError),
        }
    }

    /// The outcome of a login, given whether the password was accepted for
    /// the row found: the row's id where it was; `None` where no row was
    /// found or the password was not accepted. Only a failure of the store is
    /// an error.
    pub fn login_given(found: Result<Option<User>, Fault>, accepted: bool) -> (id: Result<
        Option<i32>,
        AuthError,
    >)
        ensures
            id == login_given_means(found, accepted),
    {
        match found {
            Ok(Some(row)) => {
                if accepted {
                    Ok(Some(row.id))
                } else {
                    Ok(None)
                }
            },
            Ok(None) => Ok(None),
            Err(_) => Err(AuthError::StorageError),
        }
    }

    /// The id of the account found under the username where the password is
    /// accepted for its hash; `None` where no account was found, the stored
    /// hash does not parse, or the password is not accepted, which a caller
    /// cannot tell apart. Only a failure of the store is an error.
    pub fn login(found: Result<Option<User>, Fault>, password: &str) -> (id: Result<
        Option<i32>,
        AuthError,
    >)
        ensures
            id == login_means(found, password@),
    {
        let accepted = match &found {
            Ok(Some(row)) => parses(row.password_hash.as_str()) && verify_password(
                password,
                row.password_hash.as_str(),
            ),
            _ => false,
        };
        Self::login_given(found, accepted)
    }

    /// Every account as the store gave it, hash and salt included: whoever
    /// hands the list on has to blank them.
    pub fn get_all_users(fetched: Result<Vec<User>, Fault>) -> (accounts: Result<
        Vec<User>,
        AuthError,
    >)
        ensures
            accounts is Ok <==> fetched is Ok,
            accounts matches Ok(a) ==> fetched matches Ok(f) && a@ == f@,
            accounts matches Err(e) ==> e == AuthError::StorageError,
    {
        match fetched {
            Ok(rows) => Ok(rows),
            Err(_) => Err(AuthError::StorageError),
        }
    }

    /// What the store's answer to the delete means: no row affected is an
    /// unknown id.
    pub fn deregister(outcome: Result<u64, Fault>) -> (done: Result<(), AuthError>)
        ensures
            done == delete_means(outcome),
    {
        match outcome {
            Ok(affected) => {
                if affected > 0 {
                    Ok(())
                } else {
                    Err(AuthError::NotFound)
                }
            },
            Err(_) => Err(AuthError::StorageError),
        }
    }
}

} // verus!
