//! Domain data: user identifiers, e-mail addresses, credentials and the
//! persisted user record.

use vstd::prelude::*;

verus! {

/// Opaque unique identifier of a user record: a 128-bit random value.
#[derive(Clone, Copy, PartialEq, Eq, Structural, Debug)]
pub struct UserId(pub u128);

impl View for UserId {
    type V = u128;

    open spec fn view(&self) -> u128 {
        self.0
    }
}

/// Login lookup key, unique per user.
#[derive(Clone, Debug)]
pub struct Email(pub String);

impl View for Email {
    type V = Seq<char>;

    open spec fn view(&self) -> Seq<char> {
        self.0@
    }
}

/// A plaintext secret. It exists only transiently during login and
/// registration; reading it out is an explicit, named act.
pub struct Password {
    secret: String,
}

impl Password {
    pub closed spec fn view(&self) -> Seq<char> {
        self.secret@
    }

    pub fn new(secret: String) -> (r: Password)
        ensures
            r@ == secret@,
    {
        Password { secret }
    }

    /// Read the secret out, for the hashing call only.
    pub fn expose(&self) -> (r: &String)
        ensures
            r@ == self@,
    {
        &self.secret
    }
}

/// The one-way, salted digest of a `Password`; persisted, never shown.
pub struct PasswordHash {
    secret: String,
}

impl PasswordHash {
    pub closed spec fn view(&self) -> Seq<char> {
        self.secret@
    }

    pub fn new(secret: String) -> (r: PasswordHash)
        ensures
            r@ == secret@,
    {
        PasswordHash { secret }
    }

    /// Read the digest out, for the verification call only.
    pub fn expose(&self) -> (r: &String)
        ensures
            r@ == self@,
    {
        &self.secret
    }

    pub fn duplicate(&self) -> (r: PasswordHash)
        ensures
            r@ == self@,
    {
        PasswordHash { secret: self.secret.clone() }
    }
}

/// Mathematical image of a `User`.
#[verifier::ext_equal]
pub ghost struct UserModel {
    pub id: u128,
    pub email: Seq<char>,
    pub password_hash: Seq<char>,
    pub created_at: int,
}

/// A persisted user record. Created on registration, read-only afterwards,
/// removed on account deletion.
pub struct User {
    pub id: UserId,
    pub email: Email,
    pub password_hash: PasswordHash,
    pub created_at: i64,
}

impl View for User {
    type V = UserModel;

    open spec fn view(&self) -> UserModel {
        UserModel {
            id: self.id@,
            email: self.email@,
            password_hash: self.password_hash@,
            created_at: self.created_at as int,
        }
    }
}

impl User {
    pub fn duplicate(&self) -> (r: User)
        ensures
            r@ == self@,
    {
        let r = User {
            id: self.id,
            email: Email(self.email.0.clone()),
            password_hash: self.password_hash.duplicate(),
            created_at: self.created_at,
        };
        assert(r@ =~= self@);
        r
    }
}

} // verus!
