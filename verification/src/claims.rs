//! The token payload and its compile-time trust marker.
//!
//! `Claims<Unvalidated>` may come from parsing arbitrary bytes and carries
//! no guarantee. `Claims<Validated>` is produced only by `Claims::new`
//! (claims we mint ourselves) and by the validation pipeline, through
//! `insecure_assert_valid`, after the signature and time checks have passed.

use vstd::prelude::*;

use crate::errors::JwtError;
use crate::model::{Email, User, UserId, UserModel};

verus! {

/// Trust marker: the claims have passed the validation gate. Sealed: a
/// value exists only inside this module, so no other code can stamp a
/// claim set as validated.
#[derive(Debug)]
pub struct Validated {
    seal: (),
}

/// Trust marker: the claims come from untrusted input. Sealed like
/// `Validated`, so untrusted claim sets arise only through `assemble`.
#[derive(Debug)]
pub struct Unvalidated {
    seal: (),
}

/// Mathematical image of a claim set; the trust marker is not part of it.
#[verifier::ext_equal]
pub ghost struct ClaimsModel {
    pub issuer: Seq<char>,
    pub subject: u128,
    pub expiration: int,
    pub not_before: int,
    pub issued_at: int,
    pub jwt_id: Seq<char>,
    pub email: Seq<char>,
}

impl ClaimsModel {
    /// The timestamps fit the machine representation.
    pub open spec fn wf(&self) -> bool {
        &&& i64::MIN <= self.expiration <= i64::MAX
        &&& i64::MIN <= self.not_before <= i64::MAX
        &&& i64::MIN <= self.issued_at <= i64::MAX
    }
}

/// The claims a freshly minted token carries for `user` at instant `now`.
pub open spec fn minted(
    user: UserModel,
    ttl: int,
    now: int,
    jwt_id: Seq<char>,
    issuer: Seq<char>,
) -> ClaimsModel {
    ClaimsModel {
        issuer,
        subject: user.id,
        expiration: now + ttl,
        not_before: now,
        issued_at: now,
        jwt_id,
        email: user.email,
    }
}

/// The semantic (time) verdict on a claim set at instant `now`: too early
/// strictly before `not_before`, too late strictly after `expiration`,
/// both bounds inclusive on success.
pub open spec fn time_outcome(c: ClaimsModel, now: int) -> Result<ClaimsModel, JwtError> {
    if now < c.not_before {
        Err(JwtError::TooEarly)
    } else if now > c.expiration {
        Err(JwtError::TooLate)
    } else {
        Ok(c)
    }
}

/// The token payload, parameterized over its trust marker.
pub struct Claims<V> {
    pub trust: V,
    pub issuer: String,
    pub subject: UserId,
    pub expiration: i64,
    pub not_before: i64,
    pub issued_at: i64,
    pub jwt_id: String,
    pub email: Email,
}

impl<V> View for Claims<V> {
    type V = ClaimsModel;

    open spec fn view(&self) -> ClaimsModel {
        ClaimsModel {
            issuer: self.issuer@,
            subject: self.subject@,
            expiration: self.expiration as int,
            not_before: self.not_before as int,
            issued_at: self.issued_at as int,
            jwt_id: self.jwt_id@,
            email: self.email@,
        }
    }
}

impl Claims<Validated> {
    /// Build the claims for a fresh token. They are `Validated` from the
    /// start, since we always trust what we mint ourselves.
    pub fn new(user: User, ttl: i64, now: i64, jwt_id: String, issuer: String) -> (r:
        Claims<Validated>)
        requires
            i64::MIN <= now + ttl <= i64::MAX,
        ensures
            r@ == minted(user@, ttl as int, now as int, jwt_id@, issuer@),
    {
        let r = Claims {
            trust: Validated { seal: () },
            issuer,
            subject: user.id,
            expiration: now + ttl,
            not_before: now,
            issued_at: now,
            jwt_id,
            email: user.email,
        };
        assert(r@ =~= minted(user@, ttl as int, now as int, r.jwt_id@, r.issuer@));
        r
    }
}

impl Claims<Unvalidated> {
    /// Assemble an untrusted claim set from parsed fields.
    pub fn assemble(
        issuer: String,
        subject: UserId,
        expiration: i64,
        not_before: i64,
        issued_at: i64,
        jwt_id: String,
        email: Email,
    ) -> (r: Claims<Unvalidated>)
        ensures
            r@ == (ClaimsModel {
                issuer: issuer@,
                subject: subject@,
                expiration: expiration as int,
                not_before: not_before as int,
                issued_at: issued_at as int,
                jwt_id: jwt_id@,
                email: email@,
            }),
    {
        let r = Claims {
            trust: Unvalidated { seal: () },
            issuer,
            subject,
            expiration,
            not_before,
            issued_at,
            jwt_id,
            email,
        };
        assert(r@ =~= (ClaimsModel {
            issuer: r.issuer@,
            subject: r.subject@,
            expiration: r.expiration as int,
            not_before: r.not_before as int,
            issued_at: r.issued_at as int,
            jwt_id: r.jwt_id@,
            email: r.email@,
        }));
        r
    }

    /// Assert that these claims are valid.
    ///
    /// This is the sole sanctioned upgrade to `Claims<Validated>`; it is
    /// meant to be called only after the signature and the time window of
    /// the token have been checked, as `check_time` does. It is public,
    /// so calling it anywhere else forges trust: treat every call outside
    /// the validation pipeline as a defect.
    pub fn insecure_assert_valid(self) -> (r: Claims<Validated>)
        ensures
            r@ == self@,
    {
        let Claims { trust: _, issuer, subject, expiration, not_before, issued_at, jwt_id, email }
            = self;
        let r = Claims {
            trust: Validated { seal: () },
            issuer,
            subject,
            expiration,
            not_before,
            issued_at,
            jwt_id,
            email,
        };
        assert(r@ =~= (ClaimsModel {
            issuer: r.issuer@,
            subject: r.subject@,
            expiration: r.expiration as int,
            not_before: r.not_before as int,
            issued_at: r.issued_at as int,
            jwt_id: r.jwt_id@,
            email: r.email@,
        }));
        r
    }

    /// Apply the semantic time checks at instant `now`, upgrading the
    /// claims on success. The signature must have been checked before.
    pub fn check_time(self, now: i64) -> (r: Result<Claims<Validated>, JwtError>)
        ensures
            time_outcome(self@, now as int) is Ok ==> r is Ok,
            r matches Ok(c) ==> time_outcome(self@, now as int) == Ok::<ClaimsModel, JwtError>(c@)
                && c@ == self@,
            time_outcome(self@, now as int) matches Err(e) ==> r == Err::<
                Claims<Validated>,
                JwtError,
            >(e),
    {
        if now < self.not_before {
            Err(JwtError::TooEarly)
        } else if now > self.expiration {
            Err(JwtError::TooLate)
        } else {
            Ok(self.insecure_assert_valid())
        }
    }
}

} // verus!
