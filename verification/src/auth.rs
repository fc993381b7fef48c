//! The authentication service: registration, login, token validation
//! and account deletion, orchestrated over the injected clock, random
//! source, password hasher, token service and user store.

use vstd::prelude::*;

use crate::claims::{Claims, Validated};
use crate::db::{find_by_email, find_by_id, without_id, Db};
use crate::errors::{ApiError, DbError, JwtError};
use crate::hasher::Hasher;
use crate::jwt::{mint_outcome, validate_post, Jwt, JwtService};
use crate::model::{Email, Password, User, UserId, UserModel};
use crate::random::Random;
use crate::time::Time;

verus! {

/// Whether the presented credentials are rejected against the given
/// store contents: the email is unknown, or the password does not match
/// the stored digest. The two cases are deliberately not distinguished,
/// so that failures are indistinguishable to the caller.
pub open spec fn credentials_rejected<H: Hasher>(
    users: Seq<UserModel>,
    hasher: H,
    email: Seq<char>,
    password: Seq<char>,
) -> bool {
    match find_by_email(users, email) {
        None => true,
        Some(u) => !hasher.hash_rel(password, u.password_hash),
    }
}

/// Orchestrates the domain operations; depends on its collaborators as
/// capabilities, not concrete types.
pub struct AuthService<T: Time, R: Random, H: Hasher, D: Db> {
    pub time: T,
    pub random: R,
    pub hasher: H,
    pub jwt: JwtService<T, R>,
    pub db: D,
}

impl<T: Time, R: Random, H: Hasher, D: Db> AuthService<T, R, H, D> {
    pub fn new(time: T, random: R, hasher: H, jwt: JwtService<T, R>, db: D) -> (r: AuthService<
        T,
        R,
        H,
        D,
    >)
        ensures
            r.time == time,
            r.random == random,
            r.hasher == hasher,
            r.jwt == jwt,
            r.db == db,
    {
        AuthService { time, random, hasher, jwt, db }
    }

    /// Authenticate by email and password and mint a token. An unknown
    /// email and a wrong password yield the identical `Auth` outcome.
    pub fn login(&mut self, email: Email, password: Password) -> (r: Result<Jwt, ApiError>)
        ensures
            final(self).db == old(self).db,
            final(self).hasher == old(self).hasher,
            final(self).time == old(self).time,
            final(self).random == old(self).random,
            credentials_rejected(old(self).db.users(), old(self).hasher, email@, password@) ==> r
                == Err::<Jwt, ApiError>(ApiError::Auth) && final(self).jwt == old(self).jwt,
            !credentials_rejected(old(self).db.users(), old(self).hasher, email@, password@)
                ==> match r {
                Ok(t) => mint_outcome(
                    old(self).jwt,
                    final(self).jwt,
                    find_by_email(old(self).db.users(), email@).unwrap(),
                    Ok::<Jwt, JwtError>(t),
                ),
                Err(e) => e == ApiError::Unknown && mint_outcome(
                    old(self).jwt,
                    final(self).jwt,
                    find_by_email(old(self).db.users(), email@).unwrap(),
                    Err::<Jwt, JwtError>(JwtError::Unknown),
                ),
            },
    {
        let user = match self.db.user_by_email(&email) {
            Some(u) => u,
            None => {
                return Err(ApiError::Auth);
            },
        };
        if self.hasher.verify(&password, &user.password_hash) {
            match self.jwt.create_jwt(user) {
                Ok(t) => Ok(t),
                Err(_) => Err(ApiError::Unknown),
            }
        } else {
            Err(ApiError::Auth)
        }
    }

    /// Register a fresh account: draw an id, hash the password, persist
    /// the record, then mint a token for it. A store conflict surfaces
    /// as `AlreadyInUse`; infrastructure failures as `Unknown`; never
    /// `Auth`.
    pub fn create_user(&mut self, email: Email, password: Password) -> (r: Result<Jwt, ApiError>)
        ensures
            final(self).time == old(self).time,
            final(self).hasher == old(self).hasher,
            find_by_email(old(self).db.users(), email@) is Some ==> r is Err,
            r == Err::<Jwt, ApiError>(ApiError::AlreadyInUse) ==> final(self).db.users() == old(
                self,
            ).db.users(),
            r == Err::<Jwt, ApiError>(ApiError::Unknown) ==> exists|uid: u128|
                {
                    &&& R::step(old(self).random, uid, final(self).random)
                    &&& (final(self).db.users() == old(self).db.users() || exists|
                        h: Seq<char>,
                        now1: i64,
                    |
                        {
                            &&& old(self).time.time_ok(now1)
                            &&& old(self).hasher.hash_rel(password@, h)
                            &&& ({
                                let um = UserModel {
                                    id: uid,
                                    email: email@,
                                    password_hash: h,
                                    created_at: now1 as int,
                                };
                                &&& final(self).db.users() == old(self).db.users().push(um)
                                &&& mint_outcome(
                                    old(self).jwt,
                                    final(self).jwt,
                                    um,
                                    Err::<Jwt, JwtError>(JwtError::Unknown),
                                )
                            })
                        })
                },
            match r {
                Ok(t) => exists|uid: u128, h: Seq<char>, now1: i64|
                    {
                        &&& R::step(old(self).random, uid, final(self).random)
                        &&& old(self).time.time_ok(now1)
                        &&& old(self).hasher.hash_rel(password@, h)
                        &&& find_by_email(old(self).db.users(), email@) is None
                        &&& find_by_id(old(self).db.users(), uid) is None
                        &&& ({
                            let um = UserModel {
                                id: uid,
                                email: email@,
                                password_hash: h,
                                created_at: now1 as int,
                            };
                            &&& final(self).db.users() == old(self).db.users().push(um)
                            &&& mint_outcome(
                                old(self).jwt,
                                final(self).jwt,
                                um,
                                Ok::<Jwt, JwtError>(t),
                            )
                        })
                    },
                Err(e) => e != ApiError::Auth && (e == ApiError::AlreadyInUse ==> exists|uid: u128|
                    {
                        &&& R::step(old(self).random, uid, final(self).random)
                        &&& (find_by_email(old(self).db.users(), email@) is Some || find_by_id(
                            old(self).db.users(),
                            uid,
                        ) is Some)
                    }),
            },
    {
        let ghost em = email@;
        let id = self.random.user_id();
        let created_at = self.time.now();
        let password_hash = match self.hasher.hash(&password) {
            Ok(h) => h,
            Err(_) => {
                proof {
                    assert(R::step(old(self).random, id@, self.random));
                }
                return Err(ApiError::Unknown);
            },
        };
        let ghost h = password_hash@;
        let user = User { id, email, password_hash, created_at };
        let token_user = user.duplicate();
        let ghost um = user@;
        match self.db.create_user(user) {
            Ok(()) => {},
            Err(DbError::AlreadyExists) => {
                proof {
                    assert(R::step(old(self).random, id@, self.random));
                }
                return Err(ApiError::AlreadyInUse);
            },
            Err(DbError::Other) => {
                proof {
                    assert(R::step(old(self).random, id@, self.random));
                }
                return Err(ApiError::Unknown);
            },
        }
        let r = match self.jwt.create_jwt(token_user) {
            Ok(t) => Ok(t),
            Err(_) => Err(ApiError::Unknown),
        };
        proof {
            assert(um =~= (UserModel {
                id: id@,
                email: em,
                password_hash: h,
                created_at: created_at as int,
            }));
            assert(R::step(old(self).random, id@, self.random));
            assert(old(self).time.time_ok(created_at));
            assert(old(self).hasher.hash_rel(password@, h));
        }
        r
    }

    /// Resolve a presented token to a trusted claim set.
    pub fn validate_jwt(&self, jwt: &Jwt) -> (r: Result<Claims<Validated>, JwtError>)
        ensures
            exists|now: i64|
                self.jwt.time.time_ok(now) && validate_post(
                    jwt@,
                    self.jwt.config.jwt.key@,
                    r,
                    now as int,
                ),
    {
        self.jwt.validate(jwt)
    }

    /// Look a user up by id, read-through to the store.
    pub fn user_with_id(&self, user_id: UserId) -> (r: Result<Option<User>, ApiError>)
        ensures
            r matches Ok(o) && (match o {
                Some(u) => find_by_id(self.db.users(), user_id@) == Some(u@),
                None => find_by_id(self.db.users(), user_id@) is None,
            }),
    {
        Ok(self.db.user_by_id(user_id))
    }

    /// Look a user up by email, read-through to the store.
    pub fn user_with_email(&self, email: &Email) -> (r: Result<Option<User>, ApiError>)
        ensures
            r matches Ok(o) && (match o {
                Some(u) => find_by_email(self.db.users(), email@) == Some(u@),
                None => find_by_email(self.db.users(), email@) is None,
            }),
    {
        Ok(self.db.user_by_email(email))
    }

    /// Remove the account a trusted claim set speaks for. Takes the
    /// validated type, never a raw token, so the validation gate cannot
    /// be skipped.
    pub fn delete_user(&mut self, claims: &Claims<Validated>) -> (r: Result<(), ApiError>)
        ensures
            final(self).time == old(self).time,
            final(self).hasher == old(self).hasher,
            final(self).jwt == old(self).jwt,
            final(self).random == old(self).random,
            r is Ok ==> final(self).db.users() == without_id(
                old(self).db.users(),
                claims@.subject,
            ),
            r is Err ==> r == Err::<(), ApiError>(ApiError::Unknown) && final(self).db.users()
                == old(self).db.users(),
    {
        match self.db.delete_user(claims.subject) {
            Ok(()) => Ok(()),
            Err(_) => Err(ApiError::Unknown),
        }
    }
}

} // verus!
