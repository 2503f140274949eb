//! Authentication and the fail-closed handling of permission checks. A
//! login is verified against the stored hash; a missing account and a wrong
//! password are indistinguishable in the result. A permission check that
//! could not be run is an error of its own kind and never counts as
//! approval.

use vstd::prelude::*;

use crate::user::User;

verus! {

/// What went wrong around authentication: the store could not be read, or
/// the hashing work could not be dispatched. Neither means that a password
/// was wrong.
#[derive(Clone, Copy, PartialEq, Eq, Structural, Debug)]
pub enum Error {
    Store,
    TaskJoin,
}

/// Whether the password matches the hash, as bcrypt decides it. The
/// decision recomputes the hash from the password and the salt embedded in
/// the hash text, so it depends on the two arguments alone.
pub uninterp spec fn bcrypt_ok(password: Seq<char>, hash: Seq<char>) -> bool;

/// Whether bcrypt can read the hash text at all: sixty ASCII bytes in the
/// expected shape, with a cost in the allowed range. Verification runs
/// exactly on such hashes, whatever the password.
pub uninterp spec fn bcrypt_parseable(hash: Seq<char>) -> bool;

/// Relies on bcrypt::verify: the cost and salt are read back out of the
/// hash text, so the result is a function of password and hash alone, and
/// the call runs iff the hash text parses — the password cannot cause the
/// error. A malformed hash is an error, never a panic.
#[verifier::external_body]
pub fn bcrypt_verify(password: &str, hash: &str) -> (r: Result<bool, Error>)
    ensures
        r matches Ok(b) ==> b == bcrypt_ok(password@, hash@),
        (r is Ok) == bcrypt_parseable(hash@),
{
    match bcrypt::verify(password, hash) {
        Ok(b) => Ok(b),
        Err(_) => Err(Error::Store),
    }
}

/// Relies on bcrypt::hash: a fresh random salt is drawn, the returned hash
/// text parses, and verifying it against the same password succeeds; a
/// cost outside 4..=31 is an error, never a panic.
#[verifier::external_body]
pub fn bcrypt_hash(password: &str, cost: u32) -> (r: Result<String, Error>)
    ensures
        r matches Ok(h) ==> bcrypt_ok(password@, h@) && bcrypt_parseable(h@),
{
    match bcrypt::hash(password, cost) {
        Ok(h) => Ok(h),
        Err(_) => Err(Error::Store),
    }
}

/// What an authentication attempt decided, given the user row the store
/// found for the email (if any) and whether the password verified: the
/// user, exactly when both are there. A missing account and a failed
/// verification end the same way.
pub fn decide_authentication(user: Option<User>, verified: bool) -> (r: Option<User>)
    ensures
        match user {
            Some(u) => r == if verified {
                Some(u)
            } else {
                None::<User>
            },
            None => r is None,
        },
{
    match user {
        Some(u) => {
            if verified {
                Some(u)
            } else {
                None
            }
        },
        None => None,
    }
}

/// Authenticates a login against the user row the store found for the
/// email: the user comes back exactly when a row was found, its stored
/// hash parses, and bcrypt accepts the password against it. An unreadable
/// hash counts as a failed login, never as a success, and the result does
/// not say whether the account existed.
pub fn authenticate(user: Option<User>, password: &str) -> (r: Option<User>)
    ensures
        r matches Some(u) ==> user == Some(u) && bcrypt_ok(password@, u.password@),
        user matches Some(u) && bcrypt_parseable(u.password@) && bcrypt_ok(
            password@,
            u.password@,
        ) ==> r == user,
        user matches Some(u) && !bcrypt_parseable(u.password@) ==> r is None,
        user is None ==> r is None,
        r is None || r == user,
{
    match user {
        Some(u) => {
            let verified = match bcrypt_verify(password, u.password.as_str()) {
                Ok(b) => b,
                Err(_) => false,
            };
            decide_authentication(Some(u), verified)
        },
        None => None,
    }
}

/// What a handler does with a permission check: run the guarded operation,
/// refuse it, or surface that the check itself could not be run.
#[derive(Clone, Copy, PartialEq, Eq, Structural, Debug)]
pub enum AccessDecision {
    Allow,
    Deny,
    Fail,
}

/// Turns a fallible permission check into a decision, failing closed: only
/// a check that ran and returned true allows the operation, a check that
/// ran and returned false denies it, and a check that could not be run is
/// surfaced as its own outcome — never folded into either answer.
pub fn gate(check: Result<bool, Error>) -> (r: AccessDecision)
    ensures
        r == AccessDecision::Allow <==> check == Ok::<bool, Error>(true),
        r == AccessDecision::Deny <==> check == Ok::<bool, Error>(false),
        r == AccessDecision::Fail <==> check is Err,
{
    match check {
        Ok(true) => AccessDecision::Allow,
        Ok(false) => AccessDecision::Deny,
        Err(_) => AccessDecision::Fail,
    }
}

} // verus!
