//! The boundary to `serde_json`: a mathematical model of a JSON document, and
//! the calls into the parser and the printer, each with the contract that the
//! rest of the crate relies on. Nothing in this file is proved.

use vstd::prelude::*;

verus! {

/// `serde_json::Value`, a parsed JSON document; nothing of its inside is
/// visible to the proofs.
#[verifier::external_type_specification]
#[verifier::external_body]
pub struct ExJsonValue(serde_json::Value);

/// `serde_json::Map`, the members of a JSON object; nothing of its inside is
/// visible to the proofs.
#[verifier::external_type_specification]
#[verifier::external_body]
#[verifier::reject_recursive_types(K)]
#[verifier::reject_recursive_types(V)]
pub struct ExJsonMap<K, V>(serde_json::Map<K, V>);

/// `serde_json::Error`, which says why a text was not read or a value not
/// written. The crate only notes that there was one.
#[verifier::external_type_specification]
#[verifier::external_body]
pub struct ExJsonError(serde_json::Error);

/// A JSON number, in the three forms in which `serde_json` keeps one.
pub ghost enum JsonNumber {
    /// A non-negative integer.
    Unsigned(u64),
    /// A negative integer.
    Negative(i64),
    /// Any other number, by the bit pattern of its double.
    Real(u64),
}

/// A JSON document.
pub ghost enum Json {
    Null,
    Bool(bool),
    Number(JsonNumber),
    Text(Seq<char>),
    Array(Seq<Json>),
    Object(Map<Seq<char>, Json>),
}

/// The document that a `serde_json::Value` holds.
pub uninterp spec fn json_of(v: serde_json::Value) -> Json;

/// The members that a `serde_json::Map` holds, each by its name.
pub uninterp spec fn members_of(m: serde_json::Map<String, serde_json::Value>) -> Map<
    Seq<char>,
    Json,
>;

/// An object's members where it has none.
pub open spec fn no_members() -> Map<Seq<char>, Json> {
    Map::empty()
}

/// What `serde_json::from_slice` reads from these bytes: the document, or
/// nothing where the bytes are not one JSON text.
pub uninterp spec fn json_parse(bytes: Seq<u8>) -> Option<Json>;

/// What `serde_json::to_vec` writes for this document, or nothing where it fails.
pub uninterp spec fn json_bytes(doc: Json) -> Option<Seq<u8>>;

/// What a `serde_json::Value` with this document displays as: its compact text.
pub uninterp spec fn json_text(doc: Json) -> Seq<char>;

/// `a` comes before `b` in the order of `String`: character by character, by
/// code point, a proper prefix first.
pub open spec fn text_lt(a: Seq<char>, b: Seq<char>) -> bool
    decreases a.len(),
{
    if b.len() == 0 {
        false
    } else if a.len() == 0 {
        true
    } else if a[0] != b[0] {
        (a[0] as u32) < (b[0] as u32)
    } else {
        text_lt(a.drop_first(), b.drop_first())
    }
}

/// Calls `serde_json::from_slice` for a `Value`. The contract names what it
/// returns `json_parse`: a function of the bytes alone.
#[verifier::external_body]
pub(crate) fn parse(bytes: &[u8]) -> (r: Result<serde_json::Value, serde_json::Error>)
    ensures
        r is Ok <==> json_parse(bytes@) is Some,
        r is Ok ==> json_of(r->Ok_0) == json_parse(bytes@)->0,
{
    serde_json::from_slice::<serde_json::Value>(bytes)
}

/// Calls `serde_json::to_vec` on a `Value`. The contract names what it returns
/// `json_bytes`: a function of the document alone.
#[verifier::external_body]
pub(crate) fn print(v: &serde_json::Value) -> (r: Result<Vec<u8>, serde_json::Error>)
    ensures
        r is Ok <==> json_bytes(json_of(*v)) is Some,
        r is Ok ==> r->Ok_0@ == json_bytes(json_of(*v))->0,
{
    serde_json::to_vec(v)
}

/// Calls `to_string` on a `Value`, which goes through its `Display`: the
/// compact text of the document, named `json_text`.
#[verifier::external_body]
pub(crate) fn text(v: &serde_json::Value) -> (r: String)
    ensures
        r@ == json_text(json_of(*v)),
{
    v.to_string()
}

/// Calls `Value::get` with a name: the member of that name where the value is
/// an object that has one, else nothing.
#[verifier::external_body]
pub(crate) fn member<'a>(v: &'a serde_json::Value, name: &str) -> (r: Option<
    &'a serde_json::Value,
>)
    ensures
        r is Some <==> (json_of(*v) is Object && json_of(*v)->Object_0.contains_key(name@)),
        r is Some ==> json_of(*r->0) == json_of(*v)->Object_0[name@],
{
    v.get(name)
}

/// Calls `Value::as_u64`: the number where the value is a non-negative
/// integer, else nothing.
#[verifier::external_body]
pub(crate) fn as_unsigned(v: &serde_json::Value) -> (r: Option<u64>)
    ensures
        r == (match json_of(*v) {
            Json::Number(JsonNumber::Unsigned(n)) => Some(n),
            _ => None,
        }),
{
    v.as_u64()
}

/// Calls `Value::as_str`: the text where the value is a string, else nothing.
#[verifier::external_body]
pub(crate) fn as_text<'a>(v: &'a serde_json::Value) -> (r: Option<&'a str>)
    ensures
        r is Some <==> json_of(*v) is Text,
        r is Some ==> r->0@ == json_of(*v)->Text_0,
{
    v.as_str()
}

/// Calls `Value::as_object`: the map where the value is an object, else nothing.
#[verifier::external_body]
pub(crate) fn as_object<'a>(v: &'a serde_json::Value) -> (r: Option<
    &'a serde_json::Map<String, serde_json::Value>,
>)
    ensures
        r is Some <==> json_of(*v) is Object,
        r is Some ==> members_of(*r->0) == json_of(*v)->Object_0,
{
    v.as_object()
}

/// Calls `Map::iter` and collects what it yields: every member once, in the
/// order of the names. (Without the feature `preserve_order`, which this crate
/// does not switch on, the map is a `BTreeMap` with `String` keys.)
#[verifier::external_body]
pub(crate) fn members<'a>(m: &'a serde_json::Map<String, serde_json::Value>) -> (r: Vec<
    (&'a String, &'a serde_json::Value),
>)
    ensures
        forall|i: int|
            0 <= i < r@.len() ==> members_of(*m).contains_key(#[trigger] r@[i].0@) && members_of(
                *m,
            )[r@[i].0@] == json_of(*r@[i].1),
        forall|name: Seq<char>| #[trigger]
            members_of(*m).contains_key(name) ==> exists|i: int|
                0 <= i < r@.len() && #[trigger] r@[i].0@ == name,
        forall|i: int, j: int|
            0 <= i < j < r@.len() ==> text_lt(#[trigger] r@[i].0@, #[trigger] r@[j].0@),
{
    m.iter().collect()
}

/// Calls `Map::new`: a map without members.
#[verifier::external_body]
pub(crate) fn new_object() -> (m: serde_json::Map<String, serde_json::Value>)
    ensures
        members_of(m) == no_members(),
{
    serde_json::Map::new()
}

/// Calls `Map::insert`: the member of that name is now `v`, the others are as
/// they were; the member that was replaced, if there was one, is returned.
#[verifier::external_body]
pub(crate) fn set_member(
    m: &mut serde_json::Map<String, serde_json::Value>,
    name: String,
    v: serde_json::Value,
) -> (r: Option<serde_json::Value>)
    ensures
        members_of(*final(m)) == members_of(*old(m)).insert(name@, json_of(v)),
        r is Some <==> members_of(*old(m)).contains_key(name@),
        r is Some ==> json_of(r->0) == members_of(*old(m))[name@],
{
    m.insert(name, v)
}

/// Builds `Value::Object` around a map.
#[verifier::external_body]
pub(crate) fn object(m: serde_json::Map<String, serde_json::Value>) -> (v: serde_json::Value)
    ensures
        json_of(v) == Json::Object(members_of(m)),
{
    serde_json::Value::Object(m)
}

/// Builds `Value::String` around a text.
#[verifier::external_body]
pub(crate) fn string(s: String) -> (v: serde_json::Value)
    ensures
        json_of(v) == Json::Text(s@),
{
    serde_json::Value::String(s)
}

} // verus!
