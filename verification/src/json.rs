//! JSON values, which `serde_json` parses, prints and holds.

use vstd::prelude::*;

verus! {

/// The JSON value type of `serde_json`.
#[verifier::external_type_specification]
#[verifier::external_body]
pub struct ExValue(serde_json::Value);

/// The members of a JSON object whose value is a string, each with that string.
/// A value that is no object has none.
pub uninterp spec fn string_members(v: serde_json::Value) -> Map<Seq<char>, Seq<char>>;

/// The text that `serde_json::to_string` makes of a JSON value, or the message
/// with which it fails.
pub uninterp spec fn json_text(v: serde_json::Value) -> Result<Seq<char>, Seq<char>>;

/// `Clone` of `serde_json::Value`: the copy is the same JSON value.
pub assume_specification[ <serde_json::Value as Clone>::clone ](v: &serde_json::Value) -> (r:
    serde_json::Value)
    ensures
        r == *v,
;

/// `serde_json::Value::get` and `as_str`: the string that an object holds under
/// a name. There is none where the value is no object, has no such member, or
/// holds something else than a string there.
#[verifier::external_body]
pub(crate) fn string_member(v: &serde_json::Value, name: &str) -> (r: Option<String>)
    ensures
        match r {
            Some(text) => string_members(*v).contains_key(name@) && text@ == string_members(
                *v,
            )[name@],
            None => !string_members(*v).contains_key(name@),
        },
{
    v.get(name).and_then(|member| member.as_str()).map(str::to_owned)
}

/// `serde_json::to_string`: the text of a JSON value, or the message of the failure.
#[verifier::external_body]
pub(crate) fn value_to_text(v: &serde_json::Value) -> (r: Result<String, String>)
    ensures
        match r {
            Ok(text) => json_text(*v) == Ok::<Seq<char>, Seq<char>>(text@),
            Err(message) => json_text(*v) == Err::<Seq<char>, Seq<char>>(message@),
        },
{
    serde_json::to_string(v).map_err(|e| e.to_string())
}

/// The JSON value that a text writes, or the message with which
/// `serde_json::from_str` refuses it.
pub uninterp spec fn json_value(text: Seq<char>) -> Result<serde_json::Value, Seq<char>>;

/// `serde_json::from_str`: the JSON value of a text, or the message of the failure.
#[verifier::external_body]
pub(crate) fn text_to_value(text: &str) -> (r: Result<serde_json::Value, String>)
    ensures
        match r {
            Ok(v) => json_value(text@) == Ok::<serde_json::Value, Seq<char>>(v),
            Err(message) => json_value(text@) == Err::<serde_json::Value, Seq<char>>(message@),
        },
{
    serde_json::from_str(text).map_err(|e| e.to_string())
}

/// The JSON string of a text.
pub uninterp spec fn json_string(text: Seq<char>) -> serde_json::Value;

/// The JSON boolean of a truth value.
pub uninterp spec fn json_bool(b: bool) -> serde_json::Value;

/// The JSON object of members; of two members of one name the later one counts.
pub uninterp spec fn json_object(
    members: Seq<(Seq<char>, serde_json::Value)>,
) -> serde_json::Value;

/// Members of an object to be, each name by its text.
pub open spec fn member_views(members: Seq<(String, serde_json::Value)>) -> Seq<
    (Seq<char>, serde_json::Value),
> {
    Seq::new(members.len(), |i: int| (members[i].0@, members[i].1))
}

/// `serde_json::Value::String`: the JSON string of a text.
#[verifier::external_body]
pub(crate) fn string_value(text: &str) -> (v: serde_json::Value)
    ensures
        v == json_string(text@),
{
    serde_json::Value::String(text.to_owned())
}

/// `serde_json::Value::Bool`: the JSON boolean of a truth value.
#[verifier::external_body]
pub(crate) fn bool_value(b: bool) -> (v: serde_json::Value)
    ensures
        v == json_bool(b),
{
    serde_json::Value::Bool(b)
}

/// `serde_json::Value::Object` over the members, collected by
/// `serde_json::Map`, whose insertion replaces an earlier member of the name.
#[verifier::external_body]
pub(crate) fn object_value(members: Vec<(String, serde_json::Value)>) -> (v: serde_json::Value)
    ensures
        v == json_object(member_views(members@)),
{
    serde_json::Value::Object(members.into_iter().collect())
}

/// The 64-bit number that a JSON value is, as `serde_json::Value::as_u64` gives
/// it; none for a value that is no such number.
pub uninterp spec fn json_count(v: serde_json::Value) -> Option<u64>;

/// `serde_json::Value::as_u64`.
#[verifier::external_body]
pub(crate) fn count_value(v: &serde_json::Value) -> (r: Option<u64>)
    ensures
        r == json_count(*v),
{
    v.as_u64()
}

/// How a JSON value is shown by its `Display`.
pub uninterp spec fn json_shown(v: serde_json::Value) -> Seq<char>;

/// `Display` of `serde_json::Value`.
#[verifier::external_body]
pub(crate) fn show_value(v: &serde_json::Value) -> (r: String)
    ensures
        r@ == json_shown(*v),
{
    v.to_string()
}

/// Whether a JSON value is null, as `serde_json::Value::is_null` says.
pub uninterp spec fn json_null(v: serde_json::Value) -> bool;

/// `serde_json::Value::Null`: the JSON null.
#[verifier::external_body]
pub(crate) fn null_value() -> (v: serde_json::Value)
    ensures
        json_null(v),
{
    serde_json::Value::Null
}

/// The schema of an object whose members are not restricted.
pub open spec fn open_object() -> serde_json::Value {
    json_object(
        seq![("type"@, json_string("object"@)), ("additionalProperties"@, json_bool(true))],
    )
}

/// The schema of an object without members.
pub open spec fn closed_object() -> serde_json::Value {
    json_object(
        seq![
            ("type"@, json_string("object"@)),
            ("properties"@, json_object(Seq::empty())),
            ("additionalProperties"@, json_bool(false)),
        ],
    )
}

/// The schema of an object whose members are not restricted.
pub fn open_object_schema() -> (v: serde_json::Value)
    ensures
        v == open_object(),
{
    let mut members: Vec<(String, serde_json::Value)> = Vec::new();
    members.push(("type".to_owned(), string_value("object")));
    members.push(("additionalProperties".to_owned(), bool_value(true)));
    assert(member_views(members@) =~= seq![
        ("type"@, json_string("object"@)),
        ("additionalProperties"@, json_bool(true)),
    ]);
    object_value(members)
}

/// The schema of an object without members.
pub fn closed_object_schema() -> (v: serde_json::Value)
    ensures
        v == closed_object(),
{
    let none: Vec<(String, serde_json::Value)> = Vec::new();
    assert(member_views(none@) =~= Seq::empty());
    let mut members: Vec<(String, serde_json::Value)> = Vec::new();
    members.push(("type".to_owned(), string_value("object")));
    members.push(("properties".to_owned(), object_value(none)));
    members.push(("additionalProperties".to_owned(), bool_value(false)));
    assert(member_views(members@) =~= seq![
        ("type"@, json_string("object"@)),
        ("properties"@, json_object(Seq::empty())),
        ("additionalProperties"@, json_bool(false)),
    ]);
    object_value(members)
}

} // verus!
