//! Trusted boundary to uuid: the textual, hyphenated form in which a
//! 128-bit identifier travels inside a token's `sub` and `jti` fields.

use vstd::prelude::*;

verus! {

/// The hyphenated textual form of a 128-bit identifier.
pub uninterp spec fn uuid_str_of(v: u128) -> Seq<char>;

/// Relies on uuid::Uuid::from_u128 and the Display form: the hyphenated
/// text, a function of the 128 bits alone.
#[verifier::external_body]
pub(crate) fn uuid_format(v: u128) -> (r: String)
    ensures
        r@ == uuid_str_of(v),
{
    uuid::Uuid::from_u128(v).hyphenated().to_string()
}

/// What uuid::Uuid::parse_str makes of a string: the 128 bits if it is
/// an identifier's textual form, nothing otherwise. A function of the
/// characters alone.
pub uninterp spec fn uuid_parse_result(s: Seq<char>) -> Option<u128>;

/// Relies on uuid::Uuid::parse_str and as_u128: parsing is a function of
/// the characters alone, and the hyphenated form of an identifier is
/// accepted and parses back to the same 128 bits.
#[verifier::external_body]
pub(crate) fn uuid_parse(s: &String) -> (r: Result<u128, ()>)
    ensures
        match r {
            Ok(v) => uuid_parse_result(s@) == Some(v) && (forall|w: u128|
                s@ == uuid_str_of(w) ==> v == w),
            Err(_) => uuid_parse_result(s@) is None && (forall|w: u128| s@ != uuid_str_of(w)),
        },
{
    match uuid::Uuid::parse_str(s.as_str()) {
        Ok(u) => Ok(u.as_u128()),
        Err(_) => Err(()),
    }
}

} // verus!
