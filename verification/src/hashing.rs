//! Password hashing, done by Argon2 with its default parameters.

use argon2::password_hash::rand_core::OsRng;
use argon2::password_hash::SaltString;
use argon2::{Argon2, PasswordHash, PasswordHasher, PasswordVerifier};
use vstd::prelude::*;

verus! {

/// The hash string that Argon2 derives from a password and a salt, where it
/// derives one.
pub uninterp spec fn argon2_hash(password: Seq<char>, salt: Seq<char>) -> Option<Seq<char>>;

/// Whether a string parses as a hash string.
pub uninterp spec fn phc_parses(hash: Seq<char>) -> bool;

/// Whether Argon2 accepts a password for a hash string that parses.
pub uninterp spec fn argon2_verifies(password: Seq<char>, hash: Seq<char>) -> bool;

/// A password is accepted for a stored string: the string parses as a hash
/// string, and Argon2 accepts the password for it.
pub open spec fn accepts(password: Seq<char>, hash: Seq<char>) -> bool {
    phc_parses(hash) && argon2_verifies(password, hash)
}

/// The longest password, in characters, that the hasher takes whatever the
/// characters are: four bytes each stay within its limit of `0xFFFF_FFFF`
/// bytes.
pub const MAX_PASSWORD: usize = 0x3fff_ffff;

/// `SaltString::generate` on the system's random source: a fresh salt, as
/// text. No two calls need agree. Whatever is drawn, it is sixteen bytes
/// written as twenty-two characters of the salt alphabet, which the hasher
/// takes: under it the hasher refuses no password but one too long.
#[verifier::external_body]
pub(crate) fn fresh_salt() -> (salt: String)
    ensures
        forall|password: Seq<char>|
            password.len() <= MAX_PASSWORD ==> #[trigger] argon2_hash(password, salt@) is Some,
{
    SaltString::generate(&mut OsRng).as_str().to_owned()
}

/// `PasswordHasher::hash_password` of `Argon2::default()`: the hash string
/// for the password under the salt, `None` where the salt is not one or the
/// hasher refuses. The same password and salt give the same string. The
/// string is written in the form that the parser reads, and the verifier,
/// which hashes again with the parameters and the salt in the string, accepts
/// the password for it.
#[verifier::external_body]
pub(crate) fn hash_password(password: &str, salt: &str) -> (hash: Option<String>)
    ensures
        hash is Some <==> argon2_hash(password@, salt@) is Some,
        hash matches Some(h) ==> argon2_hash(password@, salt@) == Some(h@),
        hash matches Some(h) ==> phc_parses(h@) && argon2_verifies(password@, h@),
{
    match SaltString::from_b64(salt) {
        Ok(salt) => match Argon2::default().hash_password(password.as_bytes(), &salt) {
            Ok(hash) => Some(hash.to_string()),
            Err(_) => None,
        },
        Err(_) => None,
    }
}

/// `PasswordHash::new`: whether the string parses as a hash string.
#[verifier::external_body]
pub(crate) fn parses(hash: &str) -> (ok: bool)
    ensures
        ok == phc_parses(hash@),
{
    PasswordHash::new(hash).is_ok()
}

/// `PasswordVerifier::verify_password` of `Argon2::default()` on the parsed
/// hash string: whether the password is accepted.
#[verifier::external_body]
pub(crate) fn verify_password(password: &str, hash: &str) -> (accepted: bool)
    requires
        phc_parses(hash@),
    ensures
        accepted == argon2_verifies(password@, hash@),
{
    match PasswordHash::new(hash) {
        Ok(parsed) => Argon2::default().verify_password(password.as_bytes(), &parsed).is_ok(),
        Err(_) => false,
    }
}

} // verus!
