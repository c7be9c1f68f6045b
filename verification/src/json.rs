use vstd::prelude::*;

verus! {

/// Free-form JSON payloads (catalog metadata, diagnostics details, event data)
/// are carried through the library unchanged; nothing here reads inside them.
#[verifier::external_type_specification]
#[verifier::external_body]
pub struct ExJsonValue(serde_json::Value);

/// `<serde_json::Value as Clone>::clone`: the derived clone copies the value
/// structurally, so the copy equals the value it was made from.
#[verifier::external_body]
pub(crate) fn clone_json(value: &serde_json::Value) -> (copy: serde_json::Value)
    ensures
        copy == *value,
{
    value.clone()
}

/// `serde_json::Value::Null`, the value that a missing metadata field takes.
#[verifier::external_body]
pub(crate) fn json_null() -> (value: serde_json::Value) {
    serde_json::Value::Null
}

/// The JSON object that `json_object` makes of its members.
pub uninterp spec fn json_object_of(
    numbers: Seq<(Seq<char>, i64)>,
    texts: Seq<(Seq<char>, Seq<char>)>,
    flags: Seq<(Seq<char>, bool)>,
) -> serde_json::Value;

/// A JSON object with one member per pair: the numbers, texts and flags
/// made `serde_json::Value`s by `Value::from`, all collected by
/// `serde_json::Map::from_iter` (a later pair with the same key replaces an
/// earlier one).  The object is a function of the pairs alone, named
/// `json_object_of`; its layout is not stated beyond that.
#[verifier::external_body]
pub(crate) fn json_object(
    numbers: Vec<(String, i64)>,
    texts: Vec<(String, String)>,
    flags: Vec<(String, bool)>,
) -> (value: serde_json::Value)
    ensures
        value == json_object_of(
            numbers@.map_values(|m: (String, i64)| (m.0@, m.1)),
            texts@.map_values(|m: (String, String)| (m.0@, m.1@)),
            flags@.map_values(|m: (String, bool)| (m.0@, m.1)),
        ),
{
    let numbers = numbers.into_iter().map(|(key, n)| (key, serde_json::Value::from(n)));
    let texts = texts.into_iter().map(|(key, t)| (key, serde_json::Value::from(t)));
    let flags = flags.into_iter().map(|(key, f)| (key, serde_json::Value::from(f)));
    serde_json::Value::Object(serde_json::Map::from_iter(numbers.chain(texts).chain(flags)))
}

} // verus!
