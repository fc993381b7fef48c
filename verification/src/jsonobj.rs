//! Trusted boundary to serde_json: the token's header and payload are
//! JSON objects whose entries are strings and integer timestamps. The
//! object is modelled by two projections, its string-valued and its
//! integer-valued entries; serialization is a function of those entries.

use vstd::prelude::*;

verus! {

#[verifier::external_type_specification]
#[verifier::external_body]
pub struct ExJsonValue(serde_json::Value);

#[verifier::external_type_specification]
#[verifier::external_body]
#[verifier::reject_recursive_types(K)]
#[verifier::reject_recursive_types(V)]
pub struct ExJsonMap<K, V>(serde_json::Map<K, V>);

/// The string-valued entries of a JSON object.
pub uninterp spec fn json_strs(m: serde_json::Map<String, serde_json::Value>) -> Map<
    Seq<char>,
    Seq<char>,
>;

/// The integer-valued entries of a JSON object.
pub uninterp spec fn json_ints(m: serde_json::Map<String, serde_json::Value>) -> Map<
    Seq<char>,
    int,
>;

/// Whether every entry of the object is a string or an integer in `i64`
/// range, so that the two projections describe it completely.
pub uninterp spec fn json_scalar(m: serde_json::Map<String, serde_json::Value>) -> bool;

/// The serialization of a JSON object with exactly the given entries.
pub uninterp spec fn json_bytes_of(strs: Map<Seq<char>, Seq<char>>, ints: Map<Seq<char>, int>) -> Seq<
    u8,
>;

/// An object model with no string entries.
pub open spec fn no_strs() -> Map<Seq<char>, Seq<char>> {
    Map::empty()
}

/// An object model with no integer entries.
pub open spec fn no_ints() -> Map<Seq<char>, int> {
    Map::empty()
}

/// Whether serde_json parses the bytes as a JSON object.
pub uninterp spec fn parses_to_object(bytes: Seq<u8>) -> bool;

/// The string-valued entries of the object the bytes parse to.
pub uninterp spec fn parsed_strs(bytes: Seq<u8>) -> Map<Seq<char>, Seq<char>>;

/// The integer-valued entries of the object the bytes parse to.
pub uninterp spec fn parsed_ints(bytes: Seq<u8>) -> Map<Seq<char>, int>;

/// Every integer entry fits an `i64`.
pub open spec fn ints_in_range(ints: Map<Seq<char>, int>) -> bool {
    forall|k: Seq<char>| ints.contains_key(k) ==> i64::MIN <= ints[k] <= i64::MAX
}

/// Relies on serde_json::Map::new: the fresh object has no entries.
#[verifier::external_body]
pub(crate) fn json_map_new() -> (r: serde_json::Map<String, serde_json::Value>)
    ensures
        json_strs(r) == no_strs(),
        json_ints(r) == no_ints(),
        json_scalar(r),
{
    serde_json::Map::new()
}

/// Relies on serde_json::Map::insert: a string value is bound to the key,
/// replacing any previous binding.
#[verifier::external_body]
pub(crate) fn json_insert_str(
    m: &mut serde_json::Map<String, serde_json::Value>,
    k: &str,
    v: &String,
)
    ensures
        json_strs(*final(m)) == json_strs(*old(m)).insert(k@, v@),
        json_ints(*final(m)) == json_ints(*old(m)).remove(k@),
        json_scalar(*old(m)) ==> json_scalar(*final(m)),
{
    m.insert(k.to_string(), serde_json::Value::String(v.clone()));
}

/// Relies on serde_json::Map::insert: an integer value is bound to the
/// key, replacing any previous binding.
#[verifier::external_body]
pub(crate) fn json_insert_i64(m: &mut serde_json::Map<String, serde_json::Value>, k: &str, v: i64)
    ensures
        json_ints(*final(m)) == json_ints(*old(m)).insert(k@, v as int),
        json_strs(*final(m)) == json_strs(*old(m)).remove(k@),
        json_scalar(*old(m)) ==> json_scalar(*final(m)),
{
    m.insert(k.to_string(), serde_json::Value::Number(serde_json::Number::from(v)));
}

/// Relies on serde_json::to_vec: without the order-preserving feature the
/// object holds its entries in a sorted map, so on objects of scalar
/// entries the serialization is a function of the entries alone, and it
/// cannot fail on them.
#[verifier::external_body]
pub(crate) fn json_to_bytes(m: &serde_json::Map<String, serde_json::Value>) -> (r: Vec<u8>)
    requires
        json_scalar(*m),
    ensures
        r@ == json_bytes_of(json_strs(*m), json_ints(*m)),
{
    serde_json::to_vec(m).expect("serializing a map of scalars cannot fail")
}

/// Relies on serde_json::from_slice and the Value::Object variant:
/// parsing is a function of the bytes alone; the serialization of an
/// object of scalar entries parses back to an object with exactly the
/// same entries.
#[verifier::external_body]
pub(crate) fn json_from_bytes(bytes: &Vec<u8>) -> (r: Result<serde_json::Map<String, serde_json::Value>, ()>)
    ensures
        match r {
            Ok(m) => parses_to_object(bytes@) && json_strs(m) == parsed_strs(bytes@)
                && json_ints(m) == parsed_ints(bytes@) && (forall|
                s: Map<Seq<char>, Seq<char>>,
                i: Map<Seq<char>, int>,
            |
                ints_in_range(i) && bytes@ == json_bytes_of(s, i) ==> json_strs(m) == s
                    && json_ints(m) == i),
            Err(_) => !parses_to_object(bytes@) && (forall|
                s: Map<Seq<char>, Seq<char>>,
                i: Map<Seq<char>, int>,
            |
                ints_in_range(i) ==> bytes@ != json_bytes_of(s, i)),
        },
{
    match serde_json::from_slice::<serde_json::Value>(bytes.as_slice()) {
        Ok(serde_json::Value::Object(m)) => Ok(m),
        _ => Err(()),
    }
}

/// Relies on serde_json::Map::get and Value::as_str: a string-valued
/// entry is returned as is; anything else yields nothing.
#[verifier::external_body]
pub(crate) fn json_get_str(m: &serde_json::Map<String, serde_json::Value>, k: &str) -> (r: Option<String>)
    ensures
        match r {
            Some(v) => json_strs(*m).contains_key(k@) && v@ == json_strs(*m)[k@],
            None => !json_strs(*m).contains_key(k@),
        },
{
    match m.get(k) {
        Some(serde_json::Value::String(s)) => Some(s.clone()),
        _ => None,
    }
}

/// Relies on serde_json::Map::get and Value::as_i64: an integer entry in
/// `i64` range is returned as is; anything else yields nothing.
#[verifier::external_body]
pub(crate) fn json_get_i64(m: &serde_json::Map<String, serde_json::Value>, k: &str) -> (r: Option<i64>)
    ensures
        match r {
            Some(v) => json_ints(*m).contains_key(k@) && v as int == json_ints(*m)[k@],
            None => !(json_ints(*m).contains_key(k@) && i64::MIN <= json_ints(*m)[k@]
                <= i64::MAX),
        },
{
    match m.get(k) {
        Some(v) => v.as_i64(),
        None => None,
    }
}

} // verus!
