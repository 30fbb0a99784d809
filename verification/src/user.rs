//! User records, and the hashing and checking of their passwords.

use vstd::prelude::*;
use vstd::utf8::encode_utf8;
use crate::error::ApiError;
use crate::password::{argon2_verdict, check, checked, opens, seal, sealed};
use crate::sources::{clock_time, drawn_id, now_micros, random_bytes, random_uuid};

verus! {

/// What a client sends to create or change an account.
#[derive(Debug, PartialEq, Eq)]
pub struct UserMessage {
    pub email: String,
    pub password: String,
}

/// An account. `password` holds the plaintext only between `User::new` and
/// the hashing that follows it; every stored record holds the hash.
/// Times are microseconds since the start of 1970, UTC.
#[derive(Debug, PartialEq, Eq)]
pub struct User {
    pub id: u128,
    pub email: String,
    pub password: String,
    pub created_at: i64,
    pub updated_at: Option<i64>,
}

/// A `UserMessage` as mathematics.
pub struct UserMessageView {
    pub email: Seq<char>,
    pub password: Seq<char>,
}

/// A `User` as mathematics.
pub struct UserView {
    pub id: u128,
    pub email: Seq<char>,
    pub password: Seq<char>,
    pub created_at: i64,
    pub updated_at: Option<i64>,
}

impl View for UserMessage {
    type V = UserMessageView;

    open spec fn view(&self) -> UserMessageView {
        UserMessageView { email: self.email@, password: self.password@ }
    }
}

impl View for User {
    type V = UserView;

    open spec fn view(&self) -> UserView {
        UserView {
            id: self.id,
            email: self.email@,
            password: self.password@,
            created_at: self.created_at,
            updated_at: self.updated_at,
        }
    }
}

impl Clone for UserMessage {
    fn clone(&self) -> (copy: Self)
        ensures
            copy@ == self@,
    {
        UserMessage { email: self.email.clone(), password: self.password.clone() }
    }
}

impl Clone for User {
    fn clone(&self) -> (copy: Self)
        ensures
            copy@ == self@,
    {
        User {
            id: self.id,
            email: self.email.clone(),
            password: self.password.clone(),
            created_at: self.created_at,
            updated_at: self.updated_at,
        }
    }
}

/// The record that a message becomes, before its password is hashed.
pub open spec fn fresh_user(message: UserMessageView, id: u128, now: i64) -> UserView {
    UserView {
        id,
        email: message.email,
        password: message.password,
        created_at: now,
        updated_at: None,
    }
}

/// What hashing the password under `salt` makes of a record, and what it
/// reports: the hash in place of the plaintext, or an internal failure and
/// the record as it was.
pub open spec fn hashed(user: UserView, salt: Seq<u8>) -> (Result<(), ApiError>, UserView) {
    match sealed(user.password, salt) {
        Some(hash) => (Ok(()), UserView { password: hash, ..user }),
        None => (Err(ApiError::Internal), user),
    }
}

impl User {
    /// The record for `message`, with the identifier and creation time given.
    pub fn new(message: UserMessage, id: u128, now: i64) -> (user: User)
        ensures
            user@ == fresh_user(message@, id, now),
    {
        User { id, email: message.email, password: message.password, created_at: now, updated_at: None }
    }

    /// The record for `message`, with a fresh random identifier and the
    /// clock's time.
    pub fn from(message: UserMessage) -> (user: User)
        ensures
            user@ == fresh_user(message@, user.id, user.created_at),
            drawn_id(user.id),
            clock_time(user.created_at),
    {
        let id = random_uuid();
        let now = now_micros();
        User::new(message, id, now)
    }

    /// Replaces the plaintext in `password` by its hash under `salt`. On
    /// failure the record is left as it was. After success the old
    /// plaintext opens the stored hash, and the stored hash is not the
    /// plaintext.
    pub fn hash_password_with(&mut self, salt: &[u8; 32]) -> (res: Result<(), ApiError>)
        ensures
            (res, final(self)@) == hashed(old(self)@, salt@),
            res is Ok ==> opens(final(self)@.password, encode_utf8(old(self)@.password)),
            res is Ok ==> final(self)@.password != old(self)@.password,
    {
        match seal(&self.password, salt) {
            Ok(hash) => {
                self.password = hash;
                Ok(())
            },
            Err(e) => Err(e),
        }
    }

    /// Replaces the plaintext in `password` by its hash under a fresh
    /// random salt of 32 bytes. On failure the record is left as it was.
    /// After success the old plaintext opens the stored hash, and the
    /// stored hash is not the plaintext.
    pub fn hash_passsword(&mut self) -> (res: Result<(), ApiError>)
        ensures
            exists|salt: Seq<u8>| salt.len() == 32 && #[trigger] hashed(old(self)@, salt) == (res, final(self)@),
            res is Ok ==> opens(final(self)@.password, encode_utf8(old(self)@.password)),
            res is Ok ==> final(self)@.password != old(self)@.password,
    {
        let salt = random_bytes();
        self.hash_password_with(&salt)
    }

    /// Whether `password` opens this record's stored hash. A stored text
    /// that is no hash at all is an internal failure, not a "no".
    pub fn verify_password(&self, password: &[u8]) -> (res: Result<bool, ApiError>)
        ensures
            res == checked(argon2_verdict(self@.password, password@)),
    {
        check(&self.password, password)
    }
}

} // verus!
