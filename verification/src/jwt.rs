//! The token service: serializing a claim set into a signed three-part
//! token, and validating a presented token back into a trusted claim set.
//!
//! A token is `base64url(header) . base64url(payload) . signature`. The
//! framing — splitting on the dots, assembling the signed message,
//! ordering the signature check before the semantic checks — is verified
//! here; hashing, base64 and JSON serialization are trusted leaves.

use vstd::prelude::*;

use crate::b64::{b64_decode, b64_encode, b64url_of};
use crate::claims::{minted, time_outcome, Claims, ClaimsModel, Unvalidated, Validated};
use crate::config::Config;
use crate::errors::JwtError;
use crate::ids::{uuid_format, uuid_parse, uuid_parse_result, uuid_str_of};
use crate::jsonobj::{
    ints_in_range, json_from_bytes, json_get_i64, json_get_str, json_insert_i64, json_insert_str,
    json_map_new, json_to_bytes, json_strs, json_ints, no_ints, no_strs, parsed_ints, parsed_strs,
    parses_to_object,
};
use crate::model::{Email, User, UserId};
use crate::random::Random;
use crate::sig::{hmac_sign, hmac_verify, sig_of};
use crate::time::Time;

verus! {

/// A signed bearer token: an opaque secret byte string, redacted in any
/// diagnostics; it is read out only at the transport edge.
pub struct Jwt {
    raw: Vec<u8>,
}

impl View for Jwt {
    type V = Seq<u8>;

    closed spec fn view(&self) -> Seq<u8> {
        self.raw@
    }
}

impl Jwt {
    pub fn from_bytes(raw: Vec<u8>) -> (r: Jwt)
        ensures
            r@ == raw@,
    {
        Jwt { raw }
    }

    /// Read the token out, at the transport edge only.
    pub fn expose(&self) -> (r: &Vec<u8>)
        ensures
            r@ == self@,
    {
        &self.raw
    }
}

/// No byte of `s` is the `.` separator.
pub open spec fn dot_free(s: Seq<u8>) -> bool {
    forall|i: int| 0 <= i < s.len() ==> s[i] != 46u8
}

/// Three segments joined by the `.` separator.
pub open spec fn framed(a: Seq<u8>, b: Seq<u8>, c: Seq<u8>) -> Seq<u8> {
    a + seq![46u8] + b + seq![46u8] + c
}

/// The string-valued payload entries of a claim set, under the short
/// registered names.
pub open spec fn strs_of(c: ClaimsModel) -> Map<Seq<char>, Seq<char>> {
    no_strs().insert("iss"@, c.issuer).insert("sub"@, uuid_str_of(c.subject)).insert(
        "jti"@,
        c.jwt_id,
    ).insert("email"@, c.email)
}

/// The integer-valued payload entries of a claim set.
pub open spec fn ints_of(c: ClaimsModel) -> Map<Seq<char>, int> {
    no_ints().insert("exp"@, c.expiration).insert("nbf"@, c.not_before).insert(
        "iat"@,
        c.issued_at,
    )
}

/// The entries of the fixed token header.
pub open spec fn header_strs() -> Map<Seq<char>, Seq<char>> {
    no_strs().insert("alg"@, "HS256"@).insert("typ"@, "JWT"@)
}

/// The serialized fixed header.
pub open spec fn header_bytes() -> Seq<u8> {
    crate::jsonobj::json_bytes_of(header_strs(), no_ints())
}

/// The serialized payload of a claim set.
pub open spec fn payload_bytes(c: ClaimsModel) -> Seq<u8> {
    crate::jsonobj::json_bytes_of(strs_of(c), ints_of(c))
}

/// The signed message: the first two token segments.
pub open spec fn msg_of(c: ClaimsModel) -> Seq<u8> {
    b64url_of(header_bytes()) + seq![46u8] + b64url_of(payload_bytes(c))
}

/// The complete token carrying a claim set under a key.
pub open spec fn token_of(c: ClaimsModel, key: Seq<u8>) -> Seq<u8> {
    framed(b64url_of(header_bytes()), b64url_of(payload_bytes(c)), sig_of(msg_of(c), key))
}

/// The three segments of a token of `c` are free of separators; this
/// holds of every minted token, and makes the framing unambiguous.
pub open spec fn well_framed(c: ClaimsModel, key: Seq<u8>) -> bool {
    &&& dot_free(b64url_of(header_bytes()))
    &&& dot_free(b64url_of(payload_bytes(c)))
    &&& dot_free(sig_of(msg_of(c), key))
}

/// In a well-framed token the separators stand exactly at the two joints.
proof fn lemma_framed_dots(a: Seq<u8>, b: Seq<u8>, c: Seq<u8>)
    requires
        dot_free(a),
        dot_free(b),
        dot_free(c),
    ensures
        framed(a, b, c).len() == a.len() + b.len() + c.len() + 2,
        forall|j: int|
            0 <= j < framed(a, b, c).len() ==> (framed(a, b, c)[j] == 46u8 <==> (j == a.len() || j
                == a.len() + b.len() + 1)),
{
    let t = framed(a, b, c);
    assert forall|j: int| 0 <= j < t.len() implies (t[j] == 46u8 <==> (j == a.len() || j == a.len()
        + b.len() + 1)) by {
        if j < a.len() {
            assert(t[j] == a[j]);
        } else if j == a.len() {
            assert(t[j] == 46u8);
        } else if j < a.len() + 1 + b.len() {
            assert(t[j] == b[j - a.len() - 1]);
        } else if j == a.len() + b.len() + 1 {
            assert(t[j] == 46u8);
        } else {
            assert(t[j] == c[j - a.len() - b.len() - 2]);
        }
    }
}

/// A well-framed token splits into its three segments in only one way.
proof fn lemma_framed_unique(a: Seq<u8>, b: Seq<u8>, c: Seq<u8>, x: Seq<u8>, y: Seq<u8>, z: Seq<u8>)
    requires
        dot_free(a),
        dot_free(b),
        dot_free(c),
        dot_free(x),
        dot_free(y),
        dot_free(z),
        framed(a, b, c) == framed(x, y, z),
    ensures
        a == x,
        b == y,
        c == z,
{
    let t = framed(a, b, c);
    lemma_framed_dots(a, b, c);
    lemma_framed_dots(x, y, z);
    assert(t[x.len() as int] == 46u8);
    assert(t[a.len() as int] == 46u8);
    if a.len() != x.len() {
        assert(x.len() == a.len() + b.len() + 1);
        assert(a.len() == x.len() + y.len() + 1);
        assert(false);
    }
    assert(t[x.len() + y.len() + 1int] == 46u8);
    assert(x.len() + y.len() + 1 == a.len() || x.len() + y.len() + 1 == a.len() + b.len() + 1);
    assert(b.len() == y.len());
    assert(c.len() == z.len());
    assert(a =~= x) by {
        assert forall|j: int| 0 <= j < a.len() implies a[j] == x[j] by {
            assert(a[j] == t[j]);
            assert(x[j] == t[j]);
        }
    }
    assert(b =~= y) by {
        assert forall|j: int| 0 <= j < b.len() implies b[j] == y[j] by {
            assert(b[j] == t[a.len() + 1 + j]);
            assert(y[j] == t[x.len() + 1 + j]);
        }
    }
    assert(c =~= z) by {
        assert forall|j: int| 0 <= j < c.len() implies c[j] == z[j] by {
            assert(c[j] == t[a.len() + b.len() + 2 + j]);
            assert(z[j] == t[x.len() + y.len() + 2 + j]);
        }
    }
}

/// A byte string with three separator positions is no framing of
/// separator-free segments.
proof fn lemma_three_dots(t: Seq<u8>, q1: int, q2: int, q3: int)
    requires
        0 <= q1 < q2 < q3 < t.len(),
        t[q1] == 46u8,
        t[q2] == 46u8,
        t[q3] == 46u8,
    ensures
        forall|a: Seq<u8>, b: Seq<u8>, c: Seq<u8>|
            #![trigger framed(a, b, c)]
            dot_free(a) && dot_free(b) && dot_free(c) ==> t != framed(a, b, c),
{
    assert forall|a: Seq<u8>, b: Seq<u8>, c: Seq<u8>|
        #![trigger framed(a, b, c)]
        dot_free(a) && dot_free(b) && dot_free(c) implies t != framed(a, b, c) by {
        if t == framed(a, b, c) {
            lemma_framed_dots(a, b, c);
            assert(q1 == a.len() || q1 == a.len() + b.len() + 1);
            assert(q2 == a.len() || q2 == a.len() + b.len() + 1);
            assert(q3 == a.len() || q3 == a.len() + b.len() + 1);
            assert(false);
        }
    }
}

/// Append the bytes of `src` to `dst`.
fn append_bytes(dst: &mut Vec<u8>, src: &Vec<u8>)
    ensures
        final(dst)@ == old(dst)@ + src@,
{
    let n = src.len();
    let mut i: usize = 0;
    while i < n
        invariant
            n == src@.len(),
            0 <= i <= n,
            dst@ == old(dst)@ + src@.take(i as int),
        decreases n - i,
    {
        dst.push(src[i]);
        assert(dst@ =~= old(dst)@ + src@.take(i + 1));
        i = i + 1;
    }
    assert(dst@ =~= old(dst)@ + src@);
}

/// Copy the byte range `[lo, hi)` of `t`.
fn sub_bytes(t: &Vec<u8>, lo: usize, hi: usize) -> (r: Vec<u8>)
    requires
        lo <= hi <= t@.len(),
    ensures
        r@ == t@.subrange(lo as int, hi as int),
{
    let mut r: Vec<u8> = Vec::new();
    let mut i: usize = lo;
    while i < hi
        invariant
            lo <= i <= hi <= t@.len(),
            r@ == t@.subrange(lo as int, i as int),
        decreases hi - i,
    {
        r.push(t[i]);
        assert(r@ =~= t@.subrange(lo as int, i + 1));
        i = i + 1;
    }
    r
}

/// Split a token at its separators: exactly two `.` bytes, in segments
/// around them. Anything else is malformed.
fn split_token(t: &Vec<u8>) -> (r: Option<(Vec<u8>, Vec<u8>, Vec<u8>)>)
    ensures
        match r {
            Some(parts) => t@ == framed(parts.0@, parts.1@, parts.2@) && dot_free(parts.0@)
                && dot_free(parts.1@) && dot_free(parts.2@),
            None => forall|a: Seq<u8>, b: Seq<u8>, c: Seq<u8>|
                #![trigger framed(a, b, c)]
                dot_free(a) && dot_free(b) && dot_free(c) ==> t@ != framed(a, b, c),
        },
{
    let n = t.len();
    let mut p1: usize = 0;
    let mut p2: usize = 0;
    let mut cnt: usize = 0;
    let mut i: usize = 0;
    while i < n
        invariant
            n == t@.len(),
            0 <= i <= n,
            cnt <= 2,
            cnt >= 1 ==> p1 < i && t@[p1 as int] == 46u8,
            cnt >= 2 ==> p1 < p2 < i && t@[p2 as int] == 46u8,
            forall|j: int|
                0 <= j < i ==> (t@[j] == 46u8 <==> ((cnt >= 1 && j == p1) || (cnt >= 2 && j
                    == p2))),
        decreases n - i,
    {
        if t[i] == 46u8 {
            if cnt == 0 {
                p1 = i;
                cnt = 1;
            } else if cnt == 1 {
                p2 = i;
                cnt = 2;
            } else {
                proof {
                    lemma_three_dots(t@, p1 as int, p2 as int, i as int);
                }
                return None;
            }
        }
        i = i + 1;
    }
    if cnt == 0 {
        proof {
            assert forall|a: Seq<u8>, b: Seq<u8>, c: Seq<u8>|
                #![trigger framed(a, b, c)]
                dot_free(a) && dot_free(b) && dot_free(c) implies t@ != framed(a, b, c) by {
                if t@ == framed(a, b, c) {
                    lemma_framed_dots(a, b, c);
                    assert(t@[a.len() as int] == 46u8);
                }
            }
        }
        return None;
    }
    if cnt == 1 {
        proof {
            assert forall|a: Seq<u8>, b: Seq<u8>, c: Seq<u8>|
                #![trigger framed(a, b, c)]
                dot_free(a) && dot_free(b) && dot_free(c) implies t@ != framed(a, b, c) by {
                if t@ == framed(a, b, c) {
                    lemma_framed_dots(a, b, c);
                    assert(t@[a.len() as int] == 46u8);
                    assert(t@[a.len() + b.len() + 1int] == 46u8);
                    assert(a.len() == p1 && a.len() + b.len() + 1 == p1);
                    assert(false);
                }
            }
        }
        return None;
    }
    let a = sub_bytes(t, 0, p1);
    let b = sub_bytes(t, p1 + 1, p2);
    let c = sub_bytes(t, p2 + 1, n);
    proof {
        assert(t@ =~= framed(a@, b@, c@));
    }
    Some((a, b, c))
}

/// The payload field names are pairwise distinct.
proof fn lemma_distinct_keys()
    ensures
        "iss"@ != "sub"@,
        "iss"@ != "jti"@,
        "iss"@ != "email"@,
        "sub"@ != "jti"@,
        "sub"@ != "email"@,
        "jti"@ != "email"@,
        "exp"@ != "nbf"@,
        "exp"@ != "iat"@,
        "nbf"@ != "iat"@,
        "exp"@ != "iss"@,
        "exp"@ != "sub"@,
        "exp"@ != "jti"@,
        "exp"@ != "email"@,
        "nbf"@ != "iss"@,
        "nbf"@ != "sub"@,
        "nbf"@ != "jti"@,
        "nbf"@ != "email"@,
        "iat"@ != "iss"@,
        "iat"@ != "sub"@,
        "iat"@ != "jti"@,
        "iat"@ != "email"@,
{
    reveal_strlit("iss");
    reveal_strlit("sub");
    reveal_strlit("jti");
    reveal_strlit("email");
    reveal_strlit("exp");
    reveal_strlit("nbf");
    reveal_strlit("iat");
    assert("iss"@ != "sub"@) by { assert("iss"@[0] != "sub"@[0]); }
    assert("iss"@ != "jti"@) by { assert("iss"@[0] != "jti"@[0]); }
    assert("iss"@ != "email"@) by { assert("iss"@[0] != "email"@[0]); }
    assert("sub"@ != "jti"@) by { assert("sub"@[0] != "jti"@[0]); }
    assert("sub"@ != "email"@) by { assert("sub"@[0] != "email"@[0]); }
    assert("jti"@ != "email"@) by { assert("jti"@[0] != "email"@[0]); }
    assert("exp"@ != "nbf"@) by { assert("exp"@[0] != "nbf"@[0]); }
    assert("exp"@ != "iat"@) by { assert("exp"@[0] != "iat"@[0]); }
    assert("nbf"@ != "iat"@) by { assert("nbf"@[0] != "iat"@[0]); }
    assert("exp"@ != "iss"@) by { assert("exp"@[0] != "iss"@[0]); }
    assert("exp"@ != "sub"@) by { assert("exp"@[0] != "sub"@[0]); }
    assert("exp"@ != "jti"@) by { assert("exp"@[0] != "jti"@[0]); }
    assert("exp"@ != "email"@) by { assert("exp"@[1] != "email"@[1]); }
    assert("nbf"@ != "iss"@) by { assert("nbf"@[0] != "iss"@[0]); }
    assert("nbf"@ != "sub"@) by { assert("nbf"@[0] != "sub"@[0]); }
    assert("nbf"@ != "jti"@) by { assert("nbf"@[0] != "jti"@[0]); }
    assert("nbf"@ != "email"@) by { assert("nbf"@[0] != "email"@[0]); }
    assert("iat"@ != "iss"@) by { assert("iat"@[1] != "iss"@[1]); }
    assert("iat"@ != "sub"@) by { assert("iat"@[0] != "sub"@[0]); }
    assert("iat"@ != "jti"@) by { assert("iat"@[0] != "jti"@[0]); }
    assert("iat"@ != "email"@) by { assert("iat"@[0] != "email"@[0]); }
}

/// Serialize the fixed header.
fn build_header() -> (r: Vec<u8>)
    ensures
        r@ == header_bytes(),
{
    let mut m = json_map_new();
    let alg_v: String = "HS256".to_owned();
    let typ_v: String = "JWT".to_owned();
    json_insert_str(&mut m, "alg", &alg_v);
    json_insert_str(&mut m, "typ", &typ_v);
    proof {
        assert(json_strs(m) =~= header_strs());
        assert(json_ints(m) =~= no_ints());
    }
    json_to_bytes(&m)
}

/// Serialize the payload of a claim set.
fn build_payload(c: &Claims<Validated>) -> (r: Vec<u8>)
    ensures
        r@ == payload_bytes(c@),
{
    let sub = uuid_format(c.subject.0);
    let mut m = json_map_new();
    json_insert_str(&mut m, "iss", &c.issuer);
    json_insert_str(&mut m, "sub", &sub);
    json_insert_str(&mut m, "jti", &c.jwt_id);
    json_insert_str(&mut m, "email", &c.email.0);
    json_insert_i64(&mut m, "exp", c.expiration);
    json_insert_i64(&mut m, "nbf", c.not_before);
    json_insert_i64(&mut m, "iat", c.issued_at);
    proof {
        lemma_distinct_keys();
        assert(json_strs(m) =~= strs_of(c@));
        assert(json_ints(m) =~= ints_of(c@));
    }
    json_to_bytes(&m)
}

/// What one minting call does: the clock is read, one identifier is
/// drawn, and on success the returned token is exactly the token of the
/// claims minted from those; the only failure is an expiration that
/// overflows the timestamp range.
pub open spec fn mint_outcome<T: Time, R: Random>(
    pre: JwtService<T, R>,
    post: JwtService<T, R>,
    u: crate::model::UserModel,
    r: Result<Jwt, JwtError>,
) -> bool {
    &&& post.time == pre.time
    &&& post.config == pre.config
    &&& exists|now: i64, rv: u128|
        {
            &&& pre.time.time_ok(now)
            &&& R::step(pre.random, rv, post.random)
            &&& match r {
                Ok(t) => ({
                    let cm = minted(
                        u,
                        pre.config.jwt.ttl_seconds as int,
                        now as int,
                        uuid_str_of(rv),
                        pre.config.hostname@,
                    );
                    &&& i64::MIN <= now + pre.config.jwt.ttl_seconds <= i64::MAX
                    &&& t@ == token_of(cm, pre.config.jwt.key@)
                    &&& cm.wf()
                    &&& well_framed(cm, pre.config.jwt.key@)
                }),
                Err(e) => e == JwtError::Unknown && !(i64::MIN <= now
                    + pre.config.jwt.ttl_seconds <= i64::MAX),
            }
        }
}

/// The claim set a payload object yields, if any: the four string
/// fields and the three timestamps present with the right kinds, the
/// subject in an identifier's textual form.
pub open spec fn claims_of_obj(
    strs: Map<Seq<char>, Seq<char>>,
    ints: Map<Seq<char>, int>,
) -> Option<ClaimsModel> {
    if strs.contains_key("iss"@) && strs.contains_key("sub"@) && strs.contains_key("jti"@)
        && strs.contains_key("email"@) && ints.contains_key("exp"@) && i64::MIN <= ints["exp"@]
        <= i64::MAX && ints.contains_key("nbf"@) && i64::MIN <= ints["nbf"@] <= i64::MAX
        && ints.contains_key("iat"@) && i64::MIN <= ints["iat"@] <= i64::MAX && uuid_parse_result(
        strs["sub"@],
    ) is Some {
        Some(
            ClaimsModel {
                issuer: strs["iss"@],
                subject: uuid_parse_result(strs["sub"@]).unwrap(),
                expiration: ints["exp"@],
                not_before: ints["nbf"@],
                issued_at: ints["iat"@],
                jwt_id: strs["jti"@],
                email: strs["email"@],
            },
        )
    } else {
        None
    }
}

/// The verdict on the bytes of a correctly signed payload segment: no
/// object or no claim set is the generic malformation; a claim set is
/// judged by the time checks.
pub open spec fn payload_verdict(bs: Seq<u8>) -> Option<ClaimsModel> {
    if parses_to_object(bs) {
        claims_of_obj(parsed_strs(bs), parsed_ints(bs))
    } else {
        None
    }
}

/// The semantic verdict carried over to the exec result.
pub open spec fn matches_outcome(
    r: Result<Claims<Validated>, JwtError>,
    c: ClaimsModel,
    now: int,
) -> bool {
    match time_outcome(c, now) {
        Ok(cm) => r matches Ok(rc) && rc@ == cm,
        Err(e) => r == Err::<Claims<Validated>, JwtError>(e),
    }
}

/// Everything validation promises at instant `now`: a well-framed token
/// of some claim set is answered exactly by the semantic verdict on that
/// claim set; claims are only ever returned inside their validity
/// window; any three-part token whose signature segment is not the true
/// signature of its message is rejected as `InvalidSig`, never with a
/// semantic error; a token that is no three-part framing at all, or one
/// correctly signed whose payload segment decodes to nothing, is the
/// generic `Unknown` malformation; a trusted claim set is only ever
/// returned for a token correctly signed under the key; and on a
/// correctly signed token the answer is the verdict on its payload
/// bytes, so the whole result is a function of the token bytes, the key
/// and the clock reading alone.
pub open spec fn validate_post(
    token: Seq<u8>,
    key: Seq<u8>,
    r: Result<Claims<Validated>, JwtError>,
    now: int,
) -> bool {
    &&& forall|c: ClaimsModel|
        #![trigger token_of(c, key)]
        c.wf() && well_framed(c, key) && token == token_of(c, key) ==> matches_outcome(r, c, now)
    &&& (r matches Ok(rc) ==> rc@.not_before <= now <= rc@.expiration)
    &&& forall|a: Seq<u8>, b: Seq<u8>, s: Seq<u8>|
        #![trigger framed(a, b, s)]
        dot_free(a) && dot_free(b) && dot_free(s) && token == framed(a, b, s) && s != sig_of(
            a + seq![46u8] + b,
            key,
        ) ==> r == Err::<Claims<Validated>, JwtError>(JwtError::InvalidSig)
    &&& ((forall|a: Seq<u8>, b: Seq<u8>, s: Seq<u8>|
        #![trigger framed(a, b, s)]
        dot_free(a) && dot_free(b) && dot_free(s) ==> token != framed(a, b, s)) ==> r == Err::<
        Claims<Validated>,
        JwtError,
    >(JwtError::Unknown))
    &&& forall|a: Seq<u8>, b: Seq<u8>, s: Seq<u8>|
        #![trigger framed(a, b, s)]
        dot_free(a) && dot_free(b) && dot_free(s) && token == framed(a, b, s) && s == sig_of(
            a + seq![46u8] + b,
            key,
        ) && (forall|bs: Seq<u8>| b != b64url_of(bs)) ==> r == Err::<
        Claims<Validated>,
        JwtError,
    >(JwtError::Unknown)
    &&& (r is Ok ==> exists|a: Seq<u8>, b: Seq<u8>|
        #![trigger framed(a, b, sig_of(a + seq![46u8] + b, key))]
        dot_free(a) && dot_free(b) && token == framed(a, b, sig_of(a + seq![46u8] + b, key)))
    &&& forall|a: Seq<u8>, b: Seq<u8>, s: Seq<u8>, bs: Seq<u8>|
        #![trigger framed(a, b, s), b64url_of(bs)]
        dot_free(a) && dot_free(b) && dot_free(s) && token == framed(a, b, s) && s == sig_of(
            a + seq![46u8] + b,
            key,
        ) && b == b64url_of(bs) ==> (match payload_verdict(bs) {
            Some(c) => matches_outcome(r, c, now),
            None => r == Err::<Claims<Validated>, JwtError>(JwtError::Unknown),
        })
}

/// A token that is no framing of separator-free segments satisfies the
/// validation contract with the `Unknown` outcome.
proof fn lemma_post_unframed(
    token: Seq<u8>,
    key: Seq<u8>,
    r: Result<Claims<Validated>, JwtError>,
    now: int,
)
    requires
        r == Err::<Claims<Validated>, JwtError>(JwtError::Unknown),
        forall|a: Seq<u8>, b: Seq<u8>, c: Seq<u8>|
            #![trigger framed(a, b, c)]
            dot_free(a) && dot_free(b) && dot_free(c) ==> token != framed(a, b, c),
    ensures
        validate_post(token, key, r, now),
{
    assert forall|c: ClaimsModel|
        #![trigger token_of(c, key)]
        c.wf() && well_framed(c, key) && token == token_of(c, key) implies matches_outcome(
        r,
        c,
        now,
    ) by {
        assert(token != framed(
            b64url_of(header_bytes()),
            b64url_of(payload_bytes(c)),
            sig_of(msg_of(c), key),
        ));
    }
    assert forall|a: Seq<u8>, b: Seq<u8>, s: Seq<u8>|
        #![trigger framed(a, b, s)]
        dot_free(a) && dot_free(b) && dot_free(s) && token == framed(a, b, s) && s != sig_of(
        a + seq![46u8] + b,
        key,
    ) implies r == Err::<Claims<Validated>, JwtError>(JwtError::InvalidSig) by {
        assert(token != framed(a, b, s));
    }
    assert forall|a: Seq<u8>, b: Seq<u8>, s: Seq<u8>|
        #![trigger framed(a, b, s)]
        dot_free(a) && dot_free(b) && dot_free(s) && token == framed(a, b, s) && s == sig_of(
        a + seq![46u8] + b,
        key,
    ) && (forall|bs: Seq<u8>| b != b64url_of(bs)) implies r == Err::<
        Claims<Validated>,
        JwtError,
    >(JwtError::Unknown) by {
        assert(token != framed(a, b, s));
    }
    assert forall|a: Seq<u8>, b: Seq<u8>, s: Seq<u8>, bs: Seq<u8>|
        #![trigger framed(a, b, s), b64url_of(bs)]
        dot_free(a) && dot_free(b) && dot_free(s) && token == framed(a, b, s) && s == sig_of(
        a + seq![46u8] + b,
        key,
    ) && b == b64url_of(bs) implies (match payload_verdict(bs) {
        Some(c) => matches_outcome(r, c, now),
        None => r == Err::<Claims<Validated>, JwtError>(JwtError::Unknown),
    }) by {
        assert(token != framed(a, b, s));
    }
}

/// The one way a well-framed token splits is into its canonical parts.
proof fn lemma_parts_canonical(c: ClaimsModel, key: Seq<u8>, a: Seq<u8>, b: Seq<u8>, s: Seq<u8>)
    requires
        well_framed(c, key),
        dot_free(a),
        dot_free(b),
        dot_free(s),
        framed(a, b, s) == token_of(c, key),
    ensures
        a == b64url_of(header_bytes()),
        b == b64url_of(payload_bytes(c)),
        s == sig_of(msg_of(c), key),
        a + seq![46u8] + b == msg_of(c),
{
    lemma_framed_unique(
        a,
        b,
        s,
        b64url_of(header_bytes()),
        b64url_of(payload_bytes(c)),
        sig_of(msg_of(c), key),
    );
    assert(a + seq![46u8] + b =~= msg_of(c));
}

/// Parse the seven claim fields out of a payload object. On the image of
/// a well-formed claim set this recovers exactly that claim set.
fn parse_claims(obj: &serde_json::Map<String, serde_json::Value>) -> (r: Option<
    Claims<Unvalidated>,
>)
    ensures
        forall|c: ClaimsModel|
            #![trigger strs_of(c)]
            c.wf() && json_strs(*obj) == strs_of(c) && json_ints(*obj) == ints_of(c) ==> (r matches
                Some(cl) && cl@ == c),
        match r {
            Some(cl) => claims_of_obj(json_strs(*obj), json_ints(*obj)) == Some(cl@),
            None => claims_of_obj(json_strs(*obj), json_ints(*obj)) is None,
        },
{
    proof {
        lemma_distinct_keys();
    }
    let iss = match json_get_str(obj, "iss") {
        Some(s) => s,
        None => {
            return None;
        },
    };
    let sub_s = match json_get_str(obj, "sub") {
        Some(s) => s,
        None => {
            return None;
        },
    };
    let jti = match json_get_str(obj, "jti") {
        Some(s) => s,
        None => {
            return None;
        },
    };
    let email = match json_get_str(obj, "email") {
        Some(s) => s,
        None => {
            return None;
        },
    };
    let exp = match json_get_i64(obj, "exp") {
        Some(v) => v,
        None => {
            return None;
        },
    };
    let nbf = match json_get_i64(obj, "nbf") {
        Some(v) => v,
        None => {
            return None;
        },
    };
    let iat = match json_get_i64(obj, "iat") {
        Some(v) => v,
        None => {
            return None;
        },
    };
    let sub = match uuid_parse(&sub_s) {
        Ok(v) => v,
        Err(_) => {
            return None;
        },
    };
    let cl = Claims::assemble(iss, UserId(sub), exp, nbf, iat, jti, Email(email));
    proof {
        assert forall|c: ClaimsModel|
            #![trigger strs_of(c)]
            c.wf() && json_strs(*obj) == strs_of(c) && json_ints(*obj) == ints_of(c) implies cl@
            =~= c by {}
        let strs = json_strs(*obj);
        let ints = json_ints(*obj);
        assert(claims_of_obj(strs, ints) is Some);
        assert(claims_of_obj(strs, ints).unwrap() =~= cl@);
        assert(claims_of_obj(strs, ints) == Some(cl@));
    }
    Some(cl)
}

/// Encodes a claim set into a signed token and decodes and validates a
/// presented token back into a trusted claim set. Holds the signing key,
/// the issuer string, the clock, the randomness source and the
/// configured time-to-live.
pub struct JwtService<T: Time, R: Random> {
    pub time: T,
    pub random: R,
    pub config: Config,
}

impl<T: Time, R: Random> JwtService<T, R> {
    pub fn new(time: T, random: R, config: Config) -> (r: JwtService<T, R>)
        ensures
            r.time == time,
            r.random == random,
            r.config == config,
    {
        JwtService { time, random, config }
    }

    /// Serialize and sign a trusted claim set.
    fn sign_claims(&self, c: &Claims<Validated>) -> (r: Jwt)
        ensures
            r@ == token_of(c@, self.config.jwt.key@),
            well_framed(c@, self.config.jwt.key@),
    {
        let header = build_header();
        let payload = build_payload(c);
        let h64 = b64_encode(&header);
        let p64 = b64_encode(&payload);
        let mut msg = h64;
        msg.push(46u8);
        append_bytes(&mut msg, &p64);
        proof {
            assert(msg@ =~= msg_of(c@));
        }
        let sig = hmac_sign(&msg, self.config.jwt.key.secret_bytes());
        let mut token = msg;
        token.push(46u8);
        append_bytes(&mut token, &sig);
        proof {
            assert(token@ =~= token_of(c@, self.config.jwt.key@));
        }
        Jwt::from_bytes(token)
    }

    /// Mint a token for `user`: claims with `issued_at = not_before =
    /// now`, `expiration = now + ttl`, a fresh token id and the
    /// configured issuer, serialized and signed.
    pub fn create_jwt(&mut self, user: User) -> (r: Result<Jwt, JwtError>)
        ensures
            mint_outcome(*old(self), *final(self), user@, r),
    {
        let jwt_id_raw = self.random.uuid();
        let now = self.time.now();
        let ttl = self.config.jwt.ttl();
        match now.checked_add(ttl) {
            Some(_) => {
                let jwt_id = uuid_format(jwt_id_raw);
                let issuer = self.config.hostname.clone();
                let claims = Claims::new(user, ttl, now, jwt_id, issuer);
                let token = self.sign_claims(&claims);
                proof {
                    assert(old(self).time.time_ok(now));
                    assert(R::step(old(self).random, jwt_id_raw, self.random));
                }
                Ok(token)
            },
            None => {
                proof {
                    assert(old(self).time.time_ok(now));
                    assert(R::step(old(self).random, jwt_id_raw, self.random));
                }
                Err(JwtError::Unknown)
            },
        }
    }

    /// Validate a token against the key at the given instant: signature
    /// first, on the raw bytes, then the time checks through the
    /// injected clock, in that order. Any malformation that precedes the
    /// signature check, and any that follows it, collapses to `Unknown`;
    /// a failed signature is `InvalidSig`.
    pub fn validate_at(&self, jwt: &Jwt, now: i64) -> (r: Result<Claims<Validated>, JwtError>)
        ensures
            validate_post(jwt@, self.config.jwt.key@, r, now as int),
    {
        let ghost key = self.config.jwt.key@;
        let ghost tok = jwt@;
        let parts = match split_token(jwt.expose()) {
            Some(p) => p,
            None => {
                proof {
                    lemma_post_unframed(
                        tok,
                        key,
                        Err::<Claims<Validated>, JwtError>(JwtError::Unknown),
                        now as int,
                    );
                }
                return Err(JwtError::Unknown);
            },
        };
        let (seg_a, seg_b, seg_sig) = parts;
        let ghost sa = seg_a@;
        let ghost sb = seg_b@;
        let ghost ss = seg_sig@;
        let mut msg = seg_a;
        msg.push(46u8);
        append_bytes(&mut msg, &seg_b);
        proof {
            assert(msg@ == sa + seq![46u8] + sb) by {
                assert(msg@ =~= sa + seq![46u8] + sb);
            }
        }
        let ok = hmac_verify(&seg_sig, &msg, self.config.jwt.key.secret_bytes());
        if !ok {
            proof {
                assert forall|c: ClaimsModel|
                    #![trigger token_of(c, key)]
                    c.wf() && well_framed(c, key) && tok == token_of(c, key) implies
                    matches_outcome(
                    Err::<Claims<Validated>, JwtError>(JwtError::InvalidSig),
                    c,
                    now as int,
                ) by {
                    lemma_parts_canonical(c, key, sa, sb, ss);
                    assert(false);
                }
                lemma_clause_unframed(
                    tok,
                    Err::<Claims<Validated>, JwtError>(JwtError::InvalidSig),
                    sa,
                    sb,
                    ss,
                );
                assert forall|a: Seq<u8>, b: Seq<u8>, s: Seq<u8>|
                    #![trigger framed(a, b, s)]
                    dot_free(a) && dot_free(b) && dot_free(s) && tok == framed(a, b, s) && s
                    == sig_of(a + seq![46u8] + b, key) && (forall|bs: Seq<u8>|
                    b != b64url_of(bs)) implies Err::<Claims<Validated>, JwtError>(
                    JwtError::InvalidSig,
                ) == Err::<Claims<Validated>, JwtError>(JwtError::Unknown) by {
                    lemma_framed_unique(sa, sb, ss, a, b, s);
                    assert(ss == sig_of(sa + seq![46u8] + sb, key));
                    assert(false);
                }
                assert forall|a: Seq<u8>, b: Seq<u8>, s: Seq<u8>, bs: Seq<u8>|
                    #![trigger framed(a, b, s), b64url_of(bs)]
                    dot_free(a) && dot_free(b) && dot_free(s) && tok == framed(a, b, s) && s
                    == sig_of(a + seq![46u8] + b, key) && b == b64url_of(bs) implies (match
                payload_verdict(bs) {
                    Some(c) => matches_outcome(
                        Err::<Claims<Validated>, JwtError>(JwtError::InvalidSig),
                        c,
                        now as int,
                    ),
                    None => Err::<Claims<Validated>, JwtError>(JwtError::InvalidSig) == Err::<
                        Claims<Validated>,
                        JwtError,
                    >(JwtError::Unknown),
                }) by {
                    lemma_framed_unique(sa, sb, ss, a, b, s);
                    assert(ss == sig_of(sa + seq![46u8] + sb, key));
                    assert(false);
                }
            }
            return Err(JwtError::InvalidSig);
        }
        let payload = match b64_decode(&seg_b) {
            Ok(p) => p,
            Err(_) => {
                proof {
                    assert forall|c: ClaimsModel|
                        #![trigger token_of(c, key)]
                        c.wf() && well_framed(c, key) && tok == token_of(c, key) implies
                        matches_outcome(
                        Err::<Claims<Validated>, JwtError>(JwtError::Unknown),
                        c,
                        now as int,
                    ) by {
                        lemma_parts_canonical(c, key, sa, sb, ss);
                        assert(sb != b64url_of(payload_bytes(c)));
                        assert(false);
                    }
                    lemma_clause_wrong_sig(
                        tok,
                        key,
                        Err::<Claims<Validated>, JwtError>(JwtError::Unknown),
                        sa,
                        sb,
                        ss,
                    );
                    assert forall|a: Seq<u8>, b: Seq<u8>, s: Seq<u8>, bs: Seq<u8>|
                        #![trigger framed(a, b, s), b64url_of(bs)]
                        dot_free(a) && dot_free(b) && dot_free(s) && tok == framed(a, b, s) && s
                        == sig_of(a + seq![46u8] + b, key) && b == b64url_of(bs) implies (match
                    payload_verdict(bs) {
                        Some(c) => matches_outcome(
                            Err::<Claims<Validated>, JwtError>(JwtError::Unknown),
                            c,
                            now as int,
                        ),
                        None => true,
                    }) by {
                        lemma_framed_unique(sa, sb, ss, a, b, s);
                        assert(sb != b64url_of(bs));
                        assert(false);
                    }
                }
                return Err(JwtError::Unknown);
            },
        };
        let obj = match json_from_bytes(&payload) {
            Ok(m) => m,
            Err(_) => {
                proof {
                    assert forall|c: ClaimsModel|
                        #![trigger token_of(c, key)]
                        c.wf() && well_framed(c, key) && tok == token_of(c, key) implies
                        matches_outcome(
                        Err::<Claims<Validated>, JwtError>(JwtError::Unknown),
                        c,
                        now as int,
                    ) by {
                        lemma_parts_canonical(c, key, sa, sb, ss);
                        assert(payload@ == payload_bytes(c));
                        assert(ints_in_range(ints_of(c)));
                        assert(false);
                    }
                    lemma_clause_wrong_sig(
                        tok,
                        key,
                        Err::<Claims<Validated>, JwtError>(JwtError::Unknown),
                        sa,
                        sb,
                        ss,
                    );
                    assert forall|a: Seq<u8>, b: Seq<u8>, s: Seq<u8>, bs: Seq<u8>|
                        #![trigger framed(a, b, s), b64url_of(bs)]
                        dot_free(a) && dot_free(b) && dot_free(s) && tok == framed(a, b, s) && s
                        == sig_of(a + seq![46u8] + b, key) && b == b64url_of(bs) implies (match
                    payload_verdict(bs) {
                        Some(c) => matches_outcome(
                            Err::<Claims<Validated>, JwtError>(JwtError::Unknown),
                            c,
                            now as int,
                        ),
                        None => true,
                    }) by {
                        lemma_framed_unique(sa, sb, ss, a, b, s);
                        assert(payload@ == bs);
                        assert(!parses_to_object(bs));
                    }
                }
                return Err(JwtError::Unknown);
            },
        };
        let claims = match parse_claims(&obj) {
            Some(cl) => cl,
            None => {
                proof {
                    assert forall|c: ClaimsModel|
                        #![trigger token_of(c, key)]
                        c.wf() && well_framed(c, key) && tok == token_of(c, key) implies
                        matches_outcome(
                        Err::<Claims<Validated>, JwtError>(JwtError::Unknown),
                        c,
                        now as int,
                    ) by {
                        lemma_parts_canonical(c, key, sa, sb, ss);
                        assert(payload@ == payload_bytes(c));
                        assert(ints_in_range(ints_of(c)));
                        assert(json_strs(obj) == strs_of(c) && json_ints(obj) == ints_of(c));
                        assert(false);
                    }
                    lemma_clause_wrong_sig(
                        tok,
                        key,
                        Err::<Claims<Validated>, JwtError>(JwtError::Unknown),
                        sa,
                        sb,
                        ss,
                    );
                    assert forall|a: Seq<u8>, b: Seq<u8>, s: Seq<u8>, bs: Seq<u8>|
                        #![trigger framed(a, b, s), b64url_of(bs)]
                        dot_free(a) && dot_free(b) && dot_free(s) && tok == framed(a, b, s) && s
                        == sig_of(a + seq![46u8] + b, key) && b == b64url_of(bs) implies (match
                    payload_verdict(bs) {
                        Some(c) => matches_outcome(
                            Err::<Claims<Validated>, JwtError>(JwtError::Unknown),
                            c,
                            now as int,
                        ),
                        None => true,
                    }) by {
                        lemma_framed_unique(sa, sb, ss, a, b, s);
                        assert(payload@ == bs);
                        assert(payload_verdict(bs) is None);
                    }
                }
                return Err(JwtError::Unknown);
            },
        };
        let r = claims.check_time(now);
        proof {
            assert forall|c: ClaimsModel|
                #![trigger token_of(c, key)]
                c.wf() && well_framed(c, key) && tok == token_of(c, key) implies matches_outcome(
                r,
                c,
                now as int,
            ) by {
                lemma_parts_canonical(c, key, sa, sb, ss);
                assert(payload@ == payload_bytes(c));
                assert(ints_in_range(ints_of(c)));
                assert(json_strs(obj) == strs_of(c) && json_ints(obj) == ints_of(c));
                assert(claims@ == c);
            }
            lemma_clause_wrong_sig(tok, key, r, sa, sb, ss);
            lemma_clause_unframed(tok, r, sa, sb, ss);
            lemma_clause_payload(tok, key, r, sa, sb, ss, payload@);
            if r is Ok {
                assert(tok == framed(sa, sb, sig_of(sa + seq![46u8] + sb, key)));
            }
            assert forall|a: Seq<u8>, b: Seq<u8>, s: Seq<u8>, bs: Seq<u8>|
                #![trigger framed(a, b, s), b64url_of(bs)]
                dot_free(a) && dot_free(b) && dot_free(s) && tok == framed(a, b, s) && s == sig_of(
                a + seq![46u8] + b,
                key,
            ) && b == b64url_of(bs) implies (match payload_verdict(bs) {
                Some(c) => matches_outcome(r, c, now as int),
                None => r == Err::<Claims<Validated>, JwtError>(JwtError::Unknown),
            }) by {
                lemma_framed_unique(sa, sb, ss, a, b, s);
                assert(payload@ == bs);
                assert(payload_verdict(bs) == Some(claims@));
                assert(matches_outcome(r, claims@, now as int));
            }
        }
        r
    }

    /// Validate a token at the injected clock's current reading.
    pub fn validate(&self, jwt: &Jwt) -> (r: Result<Claims<Validated>, JwtError>)
        ensures
            exists|now: i64|
                self.time.time_ok(now) && validate_post(
                    jwt@,
                    self.config.jwt.key@,
                    r,
                    now as int,
                ),
    {
        let now = self.time.now();
        let r = self.validate_at(jwt, now);
        r
    }
}

/// With the token's one framing and its true signature in hand, the
/// clause that rejects every framing with a wrong signature is settled,
/// whatever the outcome.
proof fn lemma_clause_wrong_sig(
    token: Seq<u8>,
    key: Seq<u8>,
    r: Result<Claims<Validated>, JwtError>,
    sa: Seq<u8>,
    sb: Seq<u8>,
    ss: Seq<u8>,
)
    requires
        dot_free(sa),
        dot_free(sb),
        dot_free(ss),
        token == framed(sa, sb, ss),
        ss == sig_of(sa + seq![46u8] + sb, key),
    ensures
        forall|a: Seq<u8>, b: Seq<u8>, s: Seq<u8>|
            #![trigger framed(a, b, s)]
            dot_free(a) && dot_free(b) && dot_free(s) && token == framed(a, b, s) && s != sig_of(
                a + seq![46u8] + b,
                key,
            ) ==> r == Err::<Claims<Validated>, JwtError>(JwtError::InvalidSig),
{
    assert forall|a: Seq<u8>, b: Seq<u8>, s: Seq<u8>|
        #![trigger framed(a, b, s)]
        dot_free(a) && dot_free(b) && dot_free(s) && token == framed(a, b, s) && s != sig_of(
        a + seq![46u8] + b,
        key,
    ) implies r == Err::<Claims<Validated>, JwtError>(JwtError::InvalidSig) by {
        lemma_framed_unique(sa, sb, ss, a, b, s);
        assert(false);
    }
}

/// With a framing of the token in hand, the clause for unframed tokens
/// is settled, whatever the outcome.
proof fn lemma_clause_unframed(
    token: Seq<u8>,
    r: Result<Claims<Validated>, JwtError>,
    sa: Seq<u8>,
    sb: Seq<u8>,
    ss: Seq<u8>,
)
    requires
        dot_free(sa),
        dot_free(sb),
        dot_free(ss),
        token == framed(sa, sb, ss),
    ensures
        (forall|a: Seq<u8>, b: Seq<u8>, s: Seq<u8>|
            #![trigger framed(a, b, s)]
            dot_free(a) && dot_free(b) && dot_free(s) ==> token != framed(a, b, s)) ==> r == Err::<
            Claims<Validated>,
            JwtError,
        >(JwtError::Unknown),
{
    if forall|a: Seq<u8>, b: Seq<u8>, s: Seq<u8>|
        #![trigger framed(a, b, s)]
        dot_free(a) && dot_free(b) && dot_free(s) ==> token != framed(a, b, s) {
        assert(token != framed(sa, sb, ss));
    }
}

/// With a decodable payload segment in hand, the clause for correctly
/// signed tokens with undecodable payloads is settled, whatever the
/// outcome.
proof fn lemma_clause_payload(
    token: Seq<u8>,
    key: Seq<u8>,
    r: Result<Claims<Validated>, JwtError>,
    sa: Seq<u8>,
    sb: Seq<u8>,
    ss: Seq<u8>,
    bs: Seq<u8>,
)
    requires
        dot_free(sa),
        dot_free(sb),
        dot_free(ss),
        token == framed(sa, sb, ss),
        sb == b64url_of(bs),
    ensures
        forall|a: Seq<u8>, b: Seq<u8>, s: Seq<u8>|
            #![trigger framed(a, b, s)]
            dot_free(a) && dot_free(b) && dot_free(s) && token == framed(a, b, s) && s == sig_of(
                a + seq![46u8] + b,
                key,
            ) && (forall|bs2: Seq<u8>| b != b64url_of(bs2)) ==> r == Err::<
                Claims<Validated>,
                JwtError,
            >(JwtError::Unknown),
{
    assert forall|a: Seq<u8>, b: Seq<u8>, s: Seq<u8>|
        #![trigger framed(a, b, s)]
        dot_free(a) && dot_free(b) && dot_free(s) && token == framed(a, b, s) && s == sig_of(
        a + seq![46u8] + b,
        key,
    ) && (forall|bs2: Seq<u8>| b != b64url_of(bs2)) implies r == Err::<
        Claims<Validated>,
        JwtError,
    >(JwtError::Unknown) by {
        lemma_framed_unique(sa, sb, ss, a, b, s);
        assert(b == b64url_of(bs));
        assert(false);
    }
}

} // verus!
