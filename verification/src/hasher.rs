//! The password-hashing seam: one-way, salted, adaptive hashing with a
//! configurable work factor.

use vstd::prelude::*;

use crate::errors::HashError;
use crate::model::{Password, PasswordHash};

verus! {

/// Whether `hash` is a digest of `password` under bcrypt: the result of
/// recomputing the digest with the salt and cost embedded in `hash` and
/// comparing, false on malformed `hash`. A pure function of its two
/// arguments; the salt drawn inside `bcrypt::hash` is part of its output,
/// so this relation is all that relates two calls.
pub uninterp spec fn hash_matches(password: Seq<char>, hash: Seq<char>) -> bool;

/// Relies on bcrypt::hash: a returned digest embeds its salt and cost and
/// re-verifies against the same password, i.e. bcrypt::verify accepts it.
#[verifier::external_body]
fn bcrypt_hash(password: &String, cost: u32) -> (r: Result<String, HashError>)
    ensures
        r matches Ok(h) ==> hash_matches(password@, h@),
{
    match bcrypt::hash(password.as_str(), cost) {
        Ok(h) => Ok(h),
        Err(_) => Err(HashError),
    }
}

/// Relies on bcrypt::verify: recomputes the digest from the salt and cost
/// embedded in `hash` and compares in constant time; a pure function of
/// `password` and `hash`. Malformed `hash` input yields an error there,
/// folded to false here, as the login path requires.
#[verifier::external_body]
fn bcrypt_verify(password: &String, hash: &String) -> (r: bool)
    ensures
        r == hash_matches(password@, hash@),
{
    matches!(bcrypt::verify(password.as_str(), hash.as_str()), Ok(true))
}

/// One-way, salted hashing of credentials.
pub trait Hasher {
    /// The digest relation this hasher decides: `verify` returns exactly
    /// this, and every digest produced by `hash` satisfies it.
    spec fn hash_rel(&self, password: Seq<char>, hash: Seq<char>) -> bool;

    fn hash(&self, password: &Password) -> (r: Result<PasswordHash, HashError>)
        ensures
            r matches Ok(h) ==> self.hash_rel(password@, h@),
    ;

    fn verify(&self, password: &Password, hash: &PasswordHash) -> (r: bool)
        ensures
            r == self.hash_rel(password@, hash@),
    ;
}

/// The production hasher, backed by bcrypt with a configurable cost.
#[derive(Clone, Copy, Debug)]
pub struct BcryptHasher {
    pub cost: u32,
}

/// bcrypt's default work factor.
pub const DEFAULT_COST: u32 = 12;

impl BcryptHasher {
    pub fn new() -> (r: BcryptHasher)
        ensures
            r.cost == DEFAULT_COST,
    {
        BcryptHasher { cost: DEFAULT_COST }
    }

    /// A hasher with a chosen work factor; the backend accepts costs
    /// from 4 to 31 and rejects others when hashing.
    pub fn with_cost(cost: u32) -> (r: BcryptHasher)
        ensures
            r.cost == cost,
    {
        BcryptHasher { cost }
    }
}

impl Hasher for BcryptHasher {
    open spec fn hash_rel(&self, password: Seq<char>, hash: Seq<char>) -> bool {
        hash_matches(password, hash)
    }

    fn hash(&self, password: &Password) -> (r: Result<PasswordHash, HashError>)
        ensures
            r matches Ok(h) ==> self.hash_rel(password@, h@),
    {
        match bcrypt_hash(password.expose(), self.cost) {
            Ok(h) => Ok(PasswordHash::new(h)),
            Err(e) => Err(e),
        }
    }

    fn verify(&self, password: &Password, hash: &PasswordHash) -> (r: bool)
        ensures
            r == self.hash_rel(password@, hash@),
    {
        bcrypt_verify(password.expose(), hash.expose())
    }
}

} // verus!
