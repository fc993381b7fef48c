//! Trusted boundary to base64: URL-safe, unpadded encoding of token
//! segments, as the three-part wire format requires.

use base64::Engine;
use vstd::prelude::*;

verus! {

/// The URL-safe unpadded base64 image of a byte sequence.
pub uninterp spec fn b64url_of(bytes: Seq<u8>) -> Seq<u8>;

/// Relies on base64's `URL_SAFE_NO_PAD` engine, `encode`: the output is a
/// function of the input bytes alone, drawn from the URL-safe alphabet,
/// which contains no `.` byte.
#[verifier::external_body]
pub(crate) fn b64_encode(bytes: &Vec<u8>) -> (r: Vec<u8>)
    ensures
        r@ == b64url_of(bytes@),
        forall|i: int| 0 <= i < r@.len() ==> r@[i] != 46u8,
{
    base64::engine::general_purpose::URL_SAFE_NO_PAD.encode(bytes).into_bytes()
}

/// Relies on base64's `URL_SAFE_NO_PAD` engine, `decode`: decoding is
/// strict (no padding accepted, no spare trailing bits), so it accepts
/// exactly the encoder's outputs and inverts them.
#[verifier::external_body]
pub(crate) fn b64_decode(s: &Vec<u8>) -> (r: Result<Vec<u8>, ()>)
    ensures
        match r {
            Ok(d) => s@ == b64url_of(d@) && (forall|bs: Seq<u8>| s@ == b64url_of(bs) ==> d@
                == bs),
            Err(_) => forall|bs: Seq<u8>| s@ != b64url_of(bs),
        },
{
    match base64::engine::general_purpose::URL_SAFE_NO_PAD.decode(s.as_slice()) {
        Ok(v) => Ok(v),
        Err(_) => Err(()),
    }
}

} // verus!
