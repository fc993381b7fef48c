//! Trusted boundary to jsonwebtoken's signing primitives: HMAC-SHA256
//! over the token's `header.payload` bytes, with the signature carried
//! as URL-safe unpadded base64.

use vstd::prelude::*;

verus! {

/// The base64url signature computed for `message` under HMAC-SHA256 with
/// the symmetric `key`.
pub uninterp spec fn sig_of(message: Seq<u8>, key: Seq<u8>) -> Seq<u8>;

/// Relies on jsonwebtoken::crypto::sign with Algorithm::HS256 and
/// EncodingKey::from_secret: HMAC signing never fails, its output is a
/// function of message and key alone, and it is base64url text, which
/// contains no `.` byte.
#[verifier::external_body]
pub(crate) fn hmac_sign(message: &Vec<u8>, key: &Vec<u8>) -> (r: Vec<u8>)
    ensures
        r@ == sig_of(message@, key@),
        forall|i: int| 0 <= i < r@.len() ==> r@[i] != 46u8,
{
    let k = jsonwebtoken::EncodingKey::from_secret(key.as_slice());
    let s = jsonwebtoken::crypto::sign(message.as_slice(), &k, jsonwebtoken::Algorithm::HS256);
    s.expect("HMAC signing cannot fail").into_bytes()
}

/// Relies on jsonwebtoken::crypto::verify with Algorithm::HS256 and
/// DecodingKey::from_secret: for HMAC it recomputes the signature of
/// `message` and compares it byte for byte with `sig`, so the answer is
/// exactly whether `sig` is that signature. A `sig` that is not UTF-8
/// cannot be base64url text, hence is not the signature.
#[verifier::external_body]
pub(crate) fn hmac_verify(sig: &Vec<u8>, message: &Vec<u8>, key: &Vec<u8>) -> (r: bool)
    ensures
        r == (sig@ == sig_of(message@, key@)),
{
    let s = match std::str::from_utf8(sig.as_slice()) {
        Ok(s) => s,
        Err(_) => {
            return false;
        },
    };
    let k = jsonwebtoken::DecodingKey::from_secret(key.as_slice());
    let v = jsonwebtoken::crypto::verify(s, message.as_slice(), &k, jsonwebtoken::Algorithm::HS256);
    matches!(v, Ok(true))
}

} // verus!
