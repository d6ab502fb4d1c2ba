//! Step payloads: JSON values that the engine carries between steps
//! without looking inside them.
use vstd::prelude::*;

verus! {

#[verifier::external_type_specification]
#[verifier::external_body]
pub struct ExJsonValue(serde_json::Value);

/// Relies on the derived `Clone` of `serde_json::Value`, a plain data enum:
/// the copy holds the same JSON value.
pub assume_specification[ <serde_json::Value as Clone>::clone ](v: &serde_json::Value) -> (r:
    serde_json::Value)
    ensures
        r == *v,
;

/// The JSON string holding `s`.
pub uninterp spec fn json_string(s: Seq<char>) -> serde_json::Value;

/// The JSON object whose members are `entries`, in the order given.
pub uninterp spec fn json_object(entries: Seq<(Seq<char>, serde_json::Value)>) -> serde_json::Value;

/// Relies on `From<&str> for serde_json::Value`: the JSON string holding
/// `text`, a function of the text alone.
#[verifier::external_body]
pub(crate) fn string_value(text: &str) -> (r: serde_json::Value)
    ensures
        r == json_string(text@),
{
    serde_json::Value::from(text)
}

/// Relies on `FromIterator<(String, Value)> for serde_json::Value`: the
/// object collected from `entries`, a function of the entries alone.
#[verifier::external_body]
pub(crate) fn object_value(entries: Vec<(String, serde_json::Value)>) -> (r: serde_json::Value)
    ensures
        r == json_object(entries@.map_values(|e: (String, serde_json::Value)| (e.0@, e.1))),
{
    serde_json::Value::from_iter(entries)
}

/// Relies on `serde_json::Value::default`, which is `null`.
#[verifier::external_body]
pub(crate) fn null_value() -> serde_json::Value {
    serde_json::Value::default()
}

/// The object with the single member `key` holding `value`.
pub fn single_member(key: &str, value: serde_json::Value) -> (r: serde_json::Value)
    ensures
        r == json_object(seq![(key@, value)]),
{
    let mut entries: Vec<(String, serde_json::Value)> = Vec::new();
    entries.push((key.to_owned(), value));
    proof {
        assert(entries@.map_values(|e: (String, serde_json::Value)| (e.0@, e.1)) =~= seq![(key@, value)]);
    }
    object_value(entries)
}

/// The object with no member.
pub fn empty_object() -> (r: serde_json::Value)
    ensures
        r == json_object(Seq::empty()),
{
    let entries: Vec<(String, serde_json::Value)> = Vec::new();
    proof {
        assert(entries@.map_values(|e: (String, serde_json::Value)| (e.0@, e.1)) =~= Seq::empty());
    }
    object_value(entries)
}

/// The schema of an object with one member `field` of JSON type `ty`:
/// `{"type": "object", "properties": {field: {"type": ty}}}`.
pub open spec fn field_schema(field: Seq<char>, ty: Seq<char>) -> serde_json::Value {
    json_object(
        seq![
            ("type"@, json_string("object"@)),
            ("properties"@, json_object(seq![(field, json_object(seq![("type"@, json_string(ty))]))])),
        ],
    )
}

/// The schema of an object with one member `field` of JSON type `ty`.
pub fn object_schema(field: &str, ty: &str) -> (r: serde_json::Value)
    ensures
        r == field_schema(field@, ty@),
{
    let member_type = single_member("type", string_value(ty));
    let properties = single_member(field, member_type);
    let mut entries: Vec<(String, serde_json::Value)> = Vec::new();
    entries.push(("type".to_owned(), string_value("object")));
    entries.push(("properties".to_owned(), properties));
    proof {
        assert(entries@.map_values(|e: (String, serde_json::Value)| (e.0@, e.1)) =~= seq![
            ("type"@, json_string("object"@)),
            ("properties"@, properties),
        ]);
    }
    object_value(entries)
}

} // verus!
