//! The records as the stores hold them.

use vstd::prelude::*;
use crate::directory::{IpAddress, ServerId, Timestamp};
use crate::protocol::UserId;

verus! {

/// A user as stored.
#[derive(Debug, PartialEq, Eq)]
pub struct User {
    pub id: UserId,
    pub username: String,
    pub email: String,
    pub password_hash: String,
}

/// A user about to be stored.
#[derive(Debug, PartialEq, Eq)]
pub struct NewUser {
    pub username: String,
    pub email: String,
    pub password_hash: String,
}

/// A chat message as a session server stores it.
#[derive(Debug, PartialEq, Eq)]
pub struct MessageRow {
    pub user_id: UserId,
    pub content: String,
    pub sent_at: Timestamp,
}

/// A player as a session server stores it.
#[derive(Debug, PartialEq, Eq)]
pub struct UserRow {
    pub client_id: i32,
    pub user_id: UserId,
    pub last_ping: Timestamp,
}

/// An advertisement as stored: the port as the store's integer type.
#[derive(Debug, PartialEq, Eq)]
pub struct Server {
    pub id: ServerId,
    pub name: String,
    pub addr: IpAddress,
    pub port: i32,
    pub last_ping: Timestamp,
}

/// What `bcrypt::verify` returns for a password and a stored hash:
/// whether they match, or `None` where the hash cannot be read.
pub uninterp spec fn bcrypt_verified(password: Seq<char>, hash: Seq<char>) -> Option<bool>;

/// Calls `bcrypt::verify`. The result is taken to depend on the password
/// and the hash alone; an error becomes `None`.
#[verifier::external_body]
fn bcrypt_verify(password: &str, hash: &str) -> (r: Option<bool>)
    ensures
        r == bcrypt_verified(password@, hash@),
{
    bcrypt::verify(password, hash).ok()
}

/// Calls `bcrypt::hash` at the default cost; an error becomes `None`.
/// The salt is random, so which hash comes back is left open. What is
/// claimed is that `bcrypt::verify` accepts the password against it:
/// `verify` reads cost and salt back out of the hash and repeats the
/// computation that `hash` made.
#[verifier::external_body]
fn bcrypt_hash(password: &str) -> (r: Option<String>)
    ensures
        r matches Some(hash) ==> bcrypt_verified(password@, hash@) == Some(true),
{
    bcrypt::hash(password, bcrypt::DEFAULT_COST).ok()
}

/// Whether a verification admits the user: only a clear yes does.
pub open spec fn spec_accepted(outcome: Option<bool>) -> bool {
    outcome == Some(true)
}

/// Whether a verification admits the user: only a clear yes does.
#[verifier::when_used_as_spec(spec_accepted)]
pub fn accepted(outcome: Option<bool>) -> (b: bool)
    ensures
        b == spec_accepted(outcome),
{
    match outcome {
        Some(b) => b,
        None => false,
    }
}

impl User {
    /// Whether `password` is the password whose hash is stored.
    pub fn verify_password(&self, password: &str) -> (b: bool)
        ensures
            b == spec_accepted(bcrypt_verified(password@, self.password_hash@)),
    {
        accepted(bcrypt_verify(password, self.password_hash.as_str()))
    }
}

impl NewUser {
    /// The record to store for a sign-up whose password hashes to
    /// `password_hash`.
    pub fn with_hash(value: crate::models::api::NewUser, password_hash: String) -> (n: NewUser)
        ensures
            n == (NewUser { username: value.username, email: value.email, password_hash }),
    {
        NewUser { username: value.username, email: value.email, password_hash }
    }

    /// The record to store for a sign-up: name and address as given, and
    /// in place of the password a hash against which that password, once
    /// stored, is verified. `None` where hashing fails.
    pub fn from_api(value: crate::models::api::NewUser) -> (r: Option<NewUser>)
        ensures
            r matches Some(n) ==> n.username == value.username && n.email == value.email
                && bcrypt_verified(value.password@, n.password_hash@) == Some(true),
    {
        match bcrypt_hash(value.password.as_str()) {
            Some(password_hash) => Some(NewUser::with_hash(value, password_hash)),
            None => None,
        }
    }
}

} // verus!
