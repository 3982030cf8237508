use bookshelf::accounts::Accounts;
use bookshelf::auth::{AuthError, AuthService, Fault, User};

fn account(id: i32, username: &str, hash: &str) -> User {
    User {
        id,
        username: username.to_string(),
        password_hash: hash.to_string(),
        salt: "c2FsdHNhbHRzYWx0".to_string(),
    }
}

#[test]
fn credentials_hold_the_argon2_hash_under_the_salt() {
    let a = AuthService::credentials("ann", "correct horse", "c2FsdHNhbHRzYWx0".to_string())
        .unwrap();
    assert_eq!(a.id, 0);
    assert_eq!(a.username, "ann");
    assert_eq!(a.salt, "c2FsdHNhbHRzYWx0");
    assert!(a.password_hash.starts_with("$argon2id$v=19$m=19456,t=2,p=1$c2FsdHNhbHRzYWx0$"));
    assert_ne!(a.password_hash, "correct horse");
    let again = AuthService::credentials("ann", "correct horse", "c2FsdHNhbHRzYWx0".to_string())
        .unwrap();
    assert_eq!(again.password_hash, a.password_hash);
    let other = AuthService::credentials("ann", "correct horsf", "c2FsdHNhbHRzYWx0".to_string())
        .unwrap();
    assert_ne!(other.password_hash, a.password_hash);
}

#[test]
fn a_bad_salt_is_a_hashing_error() {
    let short = AuthService::credentials("ann", "pw", "abc".to_string());
    assert_eq!(short.err(), Some(AuthError::Hashing));
    let odd = AuthService::credentials("ann", "pw", "not a salt!!".to_string());
    assert_eq!(odd.err(), Some(AuthError::Hashing));
}

#[test]
fn fresh_credentials_have_fresh_salts() {
    let a = AuthService::new_credentials("ann", "pw").unwrap();
    let b = AuthService::new_credentials("ann", "pw").unwrap();
    assert_eq!(a.id, 0);
    assert_eq!(a.username, "ann");
    assert_eq!(a.salt.len(), 22);
    assert_ne!(a.salt, b.salt);
    assert_ne!(a.password_hash, b.password_hash);
    assert!(a.password_hash.contains(&a.salt));
}

#[test]
fn login_gives_the_id_for_the_right_password_only() {
    let stored = AuthService::credentials("ann", "s3cret", "c2FsdHNhbHRzYWx0".to_string()).unwrap();
    let row = account(7, "ann", &stored.password_hash);
    assert_eq!(AuthService::login(Ok(Some(row.clone())), "s3cret"), Ok(Some(7)));
    assert_eq!(AuthService::login(Ok(Some(row.clone())), "s3cre"), Ok(None));
    assert_eq!(AuthService::login(Ok(Some(row)), ""), Ok(None));
}

#[test]
fn login_without_an_account_is_no_match() {
    assert_eq!(AuthService::login(Ok(None), "s3cret"), Ok(None));
}

#[test]
fn login_with_an_unreadable_hash_is_no_match() {
    let row = account(7, "ann", "s3cret");
    assert_eq!(AuthService::login(Ok(Some(row)), "s3cret"), Ok(None));
    let empty = account(7, "ann", "");
    assert_eq!(AuthService::login(Ok(Some(empty)), ""), Ok(None));
}

#[test]
fn login_fails_only_where_the_store_fails() {
    assert_eq!(AuthService::login(Err(Fault::Other), "pw"), Err(AuthError::StorageError));
    assert_eq!(
        AuthService::login(Err(Fault::UniqueViolation), "pw"),
        Err(AuthError::StorageError)
    );
}

#[test]
fn an_insert_refused_as_duplicate_is_a_taken_username() {
    assert_eq!(AuthService::inserted(Ok(())), Ok(()));
    assert_eq!(
        AuthService::inserted(Err(Fault::UniqueViolation)),
        Err(AuthError::DuplicateUsername)
    );
    assert_eq!(AuthService::inserted(Err(Fault::Other)), Err(AuthError::StorageError));
}

#[test]
fn a_registration_answers_without_hash_and_salt() {
    let row = account(3, "ann", "$argon2id$v=19$whatever");
    let answer = AuthService::register_user(Ok(Some(row))).unwrap();
    assert_eq!(answer.id, 3);
    assert_eq!(answer.username, "ann");
    assert_eq!(answer.password_hash, "");
    assert_eq!(answer.salt, "");
}

#[test]
fn a_registration_that_cannot_be_read_back_fails() {
    assert_eq!(AuthService::register_user(Ok(None)).err(), Some(AuthError::StorageError));
    assert_eq!(
        AuthService::register_user(Err(Fault::Other)).err(),
        Some(AuthError::StorageError)
    );
}

#[test]
fn a_delete_that_removed_nothing_is_not_found() {
    assert_eq!(AuthService::deregister(Ok(0)), Err(AuthError::NotFound));
    assert_eq!(AuthService::deregister(Ok(1)), Ok(()));
    assert_eq!(AuthService::deregister(Ok(3)), Ok(()));
    assert_eq!(AuthService::deregister(Err(Fault::Other)), Err(AuthError::StorageError));
}

#[test]
fn the_list_keeps_hash_and_salt() {
    let rows = vec![account(1, "ann", "h1"), account(2, "bob", "h2")];
    let listed = AuthService::get_all_users(Ok(rows)).unwrap();
    assert_eq!(listed.len(), 2);
    assert_eq!(listed[0].password_hash, "h1");
    assert_eq!(listed[1].username, "bob");
    assert_eq!(listed[1].salt, "c2FsdHNhbHRzYWx0");
    assert_eq!(
        AuthService::get_all_users(Err(Fault::Other)).err(),
        Some(AuthError::StorageError)
    );
}

#[test]
fn a_username_is_stored_once() {
    let mut table = Accounts::new();
    assert_eq!(table.insert("ann", "h1", "s1"), Ok(()));
    let second = table.insert("ann", "h2", "s2");
    assert_eq!(second, Err(Fault::UniqueViolation));
    assert_eq!(AuthService::inserted(second), Err(AuthError::DuplicateUsername));
    let rows = table.all();
    assert_eq!(rows.iter().filter(|r| r.username == "ann").count(), 1);
    assert_eq!(rows[0].password_hash, "h1");
    assert_eq!(rows[0].salt, "s1");
}

#[test]
fn ids_rise_from_one() {
    let mut table = Accounts::new();
    table.insert("ann", "h1", "s1").unwrap();
    table.insert("bob", "h2", "s2").unwrap();
    assert_eq!(table.find("ann").unwrap().id, 1);
    assert_eq!(table.find("bob").unwrap().id, 2);
    assert!(table.find("cy").is_none());
    table.delete(2);
    table.insert("cy", "h3", "s3").unwrap();
    assert_eq!(table.find("cy").unwrap().id, 3);
}

#[test]
fn deleting_an_unknown_id_is_not_found() {
    let mut table = Accounts::new();
    table.insert("ann", "h1", "s1").unwrap();
    let affected = table.delete(5);
    assert_eq!(affected, 0);
    assert_eq!(AuthService::deregister(Ok(affected)), Err(AuthError::NotFound));
    assert_eq!(table.all().len(), 1);
}

#[test]
fn deleting_a_known_id_removes_the_account() {
    let mut table = Accounts::new();
    table.insert("ann", "h1", "s1").unwrap();
    table.insert("bob", "h2", "s2").unwrap();
    let affected = table.delete(1);
    assert_eq!(affected, 1);
    assert_eq!(AuthService::deregister(Ok(affected)), Ok(()));
    assert!(table.find("ann").is_none());
    assert!(table.all().iter().all(|r| r.id != 1));
    assert_eq!(table.delete(1), 0);
    assert_eq!(table.insert("ann", "h3", "s3"), Ok(()));
}

#[test]
fn register_then_login() {
    let mut table = Accounts::new();
    let fresh = AuthService::new_credentials("ann", "s3cret").unwrap();
    let outcome = table.insert(&fresh.username, &fresh.password_hash, &fresh.salt);
    assert_eq!(AuthService::inserted(outcome), Ok(()));
    let answer = AuthService::register_user(Ok(table.find("ann"))).unwrap();
    assert_eq!((answer.id, answer.username.as_str()), (1, "ann"));
    assert_eq!(answer.password_hash, "");
    assert_eq!(AuthService::login(Ok(table.find("ann")), "s3cret"), Ok(Some(1)));
    assert_eq!(AuthService::login(Ok(table.find("ann")), "S3cret"), Ok(None));
    assert_eq!(AuthService::login(Ok(table.find("bob")), "s3cret"), Ok(None));
    // a second registration under the name fails, and the first password stays
    let again = AuthService::new_credentials("ann", "other").unwrap();
    let outcome = table.insert(&again.username, &again.password_hash, &again.salt);
    assert_eq!(AuthService::inserted(outcome), Err(AuthError::DuplicateUsername));
    assert_eq!(AuthService::login(Ok(table.find("ann")), "s3cret"), Ok(Some(1)));
    assert_eq!(AuthService::login(Ok(table.find("ann")), "other"), Ok(None));
}

#[test]
fn a_login_shows_the_account_without_hash_and_salt() {
    let shown = bookshelf::facade::login(Ok(Some(7)), "ann").unwrap();
    assert_eq!((shown.id, shown.username.as_str()), (7, "ann"));
    assert_eq!(shown.password_hash, "");
    assert_eq!(shown.salt, "");
    assert!(bookshelf::facade::login(Ok(None), "ann").is_none());
    assert!(bookshelf::facade::login(Err(AuthError::StorageError), "ann").is_none());
}

#[test]
fn a_failed_registration_shows_nothing() {
    let shown = bookshelf::facade::register(Ok(account(3, "ann", ""))).unwrap();
    assert_eq!((shown.id, shown.username.as_str()), (3, "ann"));
    assert!(bookshelf::facade::register(Err(AuthError::DuplicateUsername)).is_none());
    assert!(bookshelf::facade::register(Err(AuthError::StorageError)).is_none());
    assert!(bookshelf::facade::register(Err(AuthError::Hashing)).is_none());
}

#[test]
fn a_failed_listing_shows_no_account() {
    let listed = bookshelf::facade::get_auth_users(Ok(vec![account(1, "ann", "h1")]));
    assert_eq!(listed.len(), 1);
    assert_eq!(listed[0].password_hash, "h1");
    assert!(bookshelf::facade::get_auth_users(Err(AuthError::StorageError)).is_empty());
}

#[test]
fn a_node_that_was_not_created_has_the_empty_identifier() {
    assert_eq!(bookshelf::facade::created(Some("4:abc:17".to_string())), "4:abc:17");
    assert_eq!(bookshelf::facade::created(None), "");
}

#[test]
fn an_account_is_made_of_what_the_hasher_gave() {
    let a = AuthService::account_from("ann", "salt".to_string(), Some("hash".to_string())).unwrap();
    assert_eq!(a.id, 0);
    assert_eq!(a.username, "ann");
    assert_eq!(a.password_hash, "hash");
    assert_eq!(a.salt, "salt");
    let none = AuthService::account_from("ann", "salt".to_string(), None);
    assert_eq!(none.err(), Some(AuthError::Hashing));
}

#[test]
fn a_login_follows_the_verifiers_answer() {
    let row = account(7, "ann", "anything");
    assert_eq!(AuthService::login_given(Ok(Some(row.clone())), true), Ok(Some(7)));
    assert_eq!(AuthService::login_given(Ok(Some(row)), false), Ok(None));
    assert_eq!(AuthService::login_given(Ok(None), true), Ok(None));
    assert_eq!(AuthService::login_given(Ok(None), false), Ok(None));
    assert_eq!(AuthService::login_given(Err(Fault::Other), true), Err(AuthError::StorageError));
}

#[test]
fn a_login_with_a_hash_that_does_not_parse_returns_no_match() {
    for stored in ["", "not-a-hash", "$", "$argon2id$", "$argon2id$v=19$m=19456,t=2,p=1$"] {
        let row = account(7, "ann", stored);
        assert_eq!(AuthService::login(Ok(Some(row)), "s3cret"), Ok(None));
    }
}

fn account_with(id: i32, username: &str, hash: &str, salt: &str) -> User {
    User {
        id,
        username: username.to_string(),
        password_hash: hash.to_string(),
        salt: salt.to_string(),
    }
}

#[test]
fn fresh_credentials_are_made_for_any_password() {
    let long = "p\u{e4}ssw\u{f6}rd ".repeat(500);
    for password in ["", "a", "correct horse battery staple", long.as_str()] {
        let a = AuthService::new_credentials("ann", password).unwrap();
        assert_eq!(a.username, "ann");
        assert!(a.password_hash.starts_with("$argon2id$v=19$m=19456,t=2,p=1$"));
        let row = account_with(1, "ann", &a.password_hash, &a.salt);
        assert_eq!(AuthService::login(Ok(Some(row)), password), Ok(Some(1)));
    }
}
