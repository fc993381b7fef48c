//! Laws of the library, stated and proved over the same spec functions
//! that its contracts use.

use vstd::prelude::*;

use crate::auth::credentials_rejected;
use crate::b64::b64url_of;
use crate::claims::{minted, time_outcome, Claims, ClaimsModel, Validated};
use crate::db::{
    find_by_email, find_by_id, find_email_from, lemma_email_witness, lemma_id_witness,
    lemma_without_id_membership, lemma_without_id_no_id, unique_users, without_id,
};
use crate::errors::JwtError;
use crate::hasher::Hasher;
use crate::jwt::{
    dot_free, framed, header_bytes, matches_outcome, msg_of, payload_bytes, token_of,
    validate_post, well_framed,
};
use crate::model::UserModel;
use crate::sig::sig_of;

verus! {

/// Round trip: the claims minted for a user pass the semantic checks at
/// their own issuance instant (the lifetime being nonnegative) and carry
/// the user's identifier and email unchanged.
pub proof fn lemma_mint_round_trip(
    u: UserModel,
    ttl: int,
    now: int,
    jwt_id: Seq<char>,
    issuer: Seq<char>,
)
    requires
        0 <= ttl,
    ensures
        ({
            let c = minted(u, ttl, now, jwt_id, issuer);
            &&& time_outcome(c, now) == Ok::<ClaimsModel, JwtError>(c)
            &&& c.subject == u.id
            &&& c.email == u.email
        }),
{
}

/// Round trip through the wire: validating the very token of a claim
/// set answers with the semantic verdict on that claim set — inside the
/// validity window, with the claims themselves, field for field.
pub proof fn lemma_validate_inverts_token(
    c: ClaimsModel,
    key: Seq<u8>,
    r: Result<Claims<Validated>, JwtError>,
    now: int,
)
    requires
        c.wf(),
        well_framed(c, key),
        validate_post(token_of(c, key), key, r, now),
    ensures
        matches_outcome(r, c, now),
{
}

/// Expiry boundary: a claim set that expired one second ago is rejected
/// as `TooLate`; one expiring exactly now is still accepted.
pub proof fn lemma_expiry_boundary(c: ClaimsModel, now: int)
    requires
        c.not_before <= now,
    ensures
        c.expiration == now - 1 ==> time_outcome(c, now) == Err::<ClaimsModel, JwtError>(
            JwtError::TooLate,
        ),
        c.expiration == now ==> time_outcome(c, now) == Ok::<ClaimsModel, JwtError>(c),
{
}

/// Not-before boundary: a claim set that becomes valid one second from
/// now is rejected as `TooEarly`; one valid exactly from now is accepted.
pub proof fn lemma_not_before_boundary(c: ClaimsModel, now: int)
    requires
        now <= c.expiration,
    ensures
        c.not_before == now + 1 ==> time_outcome(c, now) == Err::<ClaimsModel, JwtError>(
            JwtError::TooEarly,
        ),
        c.not_before == now ==> time_outcome(c, now) == Ok::<ClaimsModel, JwtError>(c),
{
}

/// Tamper detection: a token whose signature segment is anything other
/// than the true signature of its message — any corrupted signature
/// that still holds no separator byte — is rejected as `InvalidSig`,
/// never with a time-based error.
pub proof fn lemma_tampered_signature(
    c: ClaimsModel,
    key: Seq<u8>,
    s2: Seq<u8>,
    r: Result<Claims<Validated>, JwtError>,
    now: int,
)
    requires
        c.wf(),
        well_framed(c, key),
        dot_free(s2),
        s2 != sig_of(msg_of(c), key),
        validate_post(
            framed(b64url_of(header_bytes()), b64url_of(payload_bytes(c)), s2),
            key,
            r,
            now,
        ),
    ensures
        r == Err::<Claims<Validated>, JwtError>(JwtError::InvalidSig),
{
}

/// Login indistinguishability: an unknown email and a known email with
/// a wrong password are rejected by one and the same condition, so
/// `login` answers both with the identical outcome value.
pub proof fn lemma_login_indistinguishable<H: Hasher>(
    users: Seq<UserModel>,
    hasher: H,
    e1: Seq<char>,
    p1: Seq<char>,
    e2: Seq<char>,
    p2: Seq<char>,
)
    requires
        find_by_email(users, e1) is None,
        find_by_email(users, e2) matches Some(u) && !hasher.hash_rel(p2, u.password_hash),
    ensures
        credentials_rejected(users, hasher, e1, p1),
        credentials_rejected(users, hasher, e2, p2),
{
}

/// A lookup behind `push` finds a record with the pushed email.
proof fn lemma_find_from_push(s: Seq<UserModel>, u: UserModel, e: Seq<char>, i: int)
    requires
        0 <= i <= s.len(),
        e == u.email,
    ensures
        find_email_from(s.push(u), e, i) is Some,
    decreases s.len() - i,
{
    let t = s.push(u);
    if i == s.len() {
        assert(t[i] == u);
    } else {
        if t[i].email == e {
        } else {
            lemma_find_from_push(s, u, e, i + 1);
        }
    }
}

/// Conflict handling: once a record with an email is stored, lookup by
/// that email finds a record, so the store contract refuses a second
/// registration under it and leaves the contents unchanged.
pub proof fn lemma_email_conflict(users: Seq<UserModel>, u: UserModel)
    ensures
        find_by_email(users.push(u), u.email) is Some,
{
    lemma_find_from_push(users, u, u.email, 0);
}

/// Deletion clears the subject: after removing an id from the store, a
/// lookup by that id finds nothing; deleting again changes nothing more.
pub proof fn lemma_delete_clears_id(users: Seq<UserModel>, id: u128)
    ensures
        find_by_id(without_id(users, id), id) is None,
{
    lemma_without_id_no_id(users, id);
    if find_by_id(without_id(users, id), id) is Some {
        lemma_id_witness(without_id(users, id), id, 0);
        let j = choose|j: int|
            0 <= j < without_id(users, id).len() && without_id(users, id)[j].id == id;
        assert(false);
    }
}

/// With unique emails in the store, deleting a user's id also clears
/// the lookup under their email: the record found under it is the only
/// one carrying it, and it is removed.
pub proof fn lemma_delete_clears_email(users: Seq<UserModel>, u: UserModel)
    requires
        unique_users(users),
        find_by_email(users, u.email) == Some(u),
    ensures
        find_by_email(without_id(users, u.id), u.email) is None,
{
    lemma_email_witness(users, u.email, 0);
    let j0 = choose|j: int|
        0 <= j < users.len() && users[j].email == u.email && find_email_from(users, u.email, 0)
            == Some(users[j]);
    assert(users[j0] == u);
    assert forall|i: int| 0 <= i < users.len() && users[i].email == u.email implies users[i].id
        == u.id by {
        if i != j0 {
            assert(false);
        }
    }
    let w = without_id(users, u.id);
    assert forall|k: int| 0 <= k < w.len() implies w[k].email != u.email by {
        assert(w.contains(w[k]));
        lemma_without_id_membership(users, u.id, w[k]);
        let i = choose|i: int| 0 <= i < users.len() && users[i] == w[k];
        assert(users[i] == w[k]);
    }
    if find_by_email(w, u.email) is Some {
        lemma_email_witness(w, u.email, 0);
        let k = choose|k: int|
            0 <= k < w.len() && w[k].email == u.email && find_email_from(w, u.email, 0) == Some(
                w[k],
            );
        assert(false);
    }
}

} // verus!
