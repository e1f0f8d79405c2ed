//! Credential hashing and verification, carried out by the bcrypt crate.
//! Accounts store a salted one-way hash of the submitted password, never the
//! submitted value itself, and login compares through the same scheme.
use vstd::prelude::*;

verus! {

#[verifier::external_type_specification]
#[verifier::external_body]
pub struct ExBcryptError(bcrypt::BcryptError);

/// What `bcrypt::verify` decides for a submitted password and a stored hash:
/// `Some(b)` when the stored hash parses and the comparison yields `b`,
/// `None` when the stored hash is malformed. The outcome is a function of
/// the two arguments alone.
pub uninterp spec fn bcrypt_verify_of(password: Seq<char>, hash: Seq<char>) -> Option<bool>;

/// Relies on bcrypt::hash: on success it returns a freshly salted hash of
/// the submitted password, which bcrypt::verify accepts for that same
/// password. The salt is drawn from the operating system, so nothing more is
/// promised of the hash itself.
#[verifier::external_body]
pub(crate) fn hash_password(password: &str) -> (r: Result<String, bcrypt::BcryptError>)
    ensures
        r is Ok ==> bcrypt_verify_of(password@, r.unwrap()@) == Some(true),
{
    bcrypt::hash(password, bcrypt::DEFAULT_COST)
}

/// Relies on bcrypt::verify: deterministic in the password and the hash; it
/// errors exactly when the stored hash cannot be parsed as a bcrypt hash.
#[verifier::external_body]
pub(crate) fn verify_password(password: &str, hash: &str) -> (r: Result<
    bool,
    bcrypt::BcryptError,
>)
    ensures
        match r {
            Ok(b) => bcrypt_verify_of(password@, hash@) == Some(b),
            Err(_) => bcrypt_verify_of(password@, hash@) is None,
        },
{
    bcrypt::verify(password, hash)
}

} // verus!
