//! JSON documents. They are parsed and held by `serde_json`; this module
//! says what a document holds, and what the calls that read and build one
//! do, in terms of that.

use vstd::prelude::*;

verus! {

/// A JSON document of `serde_json`. What it holds is `json_model` of it.
#[verifier::external_type_specification]
#[verifier::external_body]
pub struct ExValue(serde_json::Value);

/// A JSON number of `serde_json`, carried along as it is.
#[verifier::external_type_specification]
#[verifier::external_body]
pub struct ExNumber(serde_json::Number);

/// What a JSON document holds.
pub enum Json {
    Null,
    Bool(bool),
    Number(serde_json::Number),
    Text(Seq<char>),
    Array(Seq<Json>),
    Object(Map<Seq<char>, Json>),
}

impl Json {
    /// The member `key` of an object; `Null` where there is no such member,
    /// or no object.
    pub open spec fn member(self, key: Seq<char>) -> Json {
        match self {
            Json::Object(members) => if members.contains_key(key) {
                members[key]
            } else {
                Json::Null
            },
            _ => Json::Null,
        }
    }

    /// The text of a string; the empty text of anything else.
    pub open spec fn text_or_empty(self) -> Seq<char> {
        match self {
            Json::Text(text) => text,
            _ => Seq::empty(),
        }
    }
}

/// What the document `value` holds: the variant of `serde_json::Value` that
/// it is, with the members of an object as a map from their keys.
pub uninterp spec fn json_model(value: serde_json::Value) -> Json;

/// What `serde_json::from_str` makes of `text`: the document that it
/// denotes, or, where it is not one JSON document, the text of the error.
pub uninterp spec fn json_parse(text: Seq<char>) -> Result<Json, Seq<char>>;

/// What each of `values` holds.
pub open spec fn models_of(values: Seq<serde_json::Value>) -> Seq<Json> {
    values.map_values(|value: serde_json::Value| json_model(value))
}

/// The object with the given members, the later of two with one key
/// taking the place of the earlier.
pub open spec fn members_of(members: Seq<(String, serde_json::Value)>) -> Map<Seq<char>, Json>
    decreases members.len(),
{
    if members.len() == 0 {
        Map::empty()
    } else {
        members_of(members.drop_last()).insert(members.last().0@, json_model(members.last().1))
    }
}

/// No two of `members` have the same key.
pub open spec fn distinct_keys(members: Seq<(String, serde_json::Value)>) -> bool {
    forall|i: int, j: int|
        0 <= i < j < members.len() ==> (#[trigger] members[i]).0@ != (#[trigger] members[j]).0@
}

/// Calls `serde_json::from_str` for a `serde_json::Value`. It parses the
/// whole of `text` as one document, and fails with an error otherwise; the
/// error is handed on as its text. Both are functions of `text` alone,
/// named `json_parse`.
#[verifier::external_body]
pub(crate) fn parse_document(text: &str) -> (r: Result<serde_json::Value, String>)
    ensures
        match r {
            Ok(value) => json_parse(text@) == Ok::<Json, Seq<char>>(json_model(value)),
            Err(message) => json_parse(text@) == Err::<Json, Seq<char>>(message@),
        },
{
    match serde_json::from_str::<serde_json::Value>(text) {
        Ok(value) => Ok(value),
        Err(error) => Err(error.to_string()),
    }
}

/// Indexes a `serde_json::Value` by a string: the member of that key where
/// the value is an object that has one, and a null otherwise.
#[verifier::external_body]
pub(crate) fn member_of<'a>(value: &'a serde_json::Value, key: &str) -> (r: &'a serde_json::Value)
    ensures
        json_model(*r) == json_model(*value).member(key@),
{
    &value[key]
}

/// `serde_json::Value::as_array` gives the elements of an array, and
/// nothing for any other value.
pub assume_specification[ serde_json::Value::as_array ](value: &serde_json::Value) -> (r: Option<
    &Vec<serde_json::Value>,
>)
    ensures
        match json_model(*value) {
            Json::Array(items) => r matches Some(elements) && models_of(elements@) == items,
            _ => r is None,
        },
;

/// `serde_json::Value::as_str` gives the text of a string, and nothing for
/// any other value.
pub assume_specification[ serde_json::Value::as_str ](value: &serde_json::Value) -> (r: Option<
    &str,
>)
    ensures
        match json_model(*value) {
            Json::Text(text) => r matches Some(s) && s@ == text,
            _ => r is None,
        },
;

/// Makes the `serde_json::Value` that is the string `text`.
#[verifier::external_body]
pub(crate) fn text_value(text: String) -> (value: serde_json::Value)
    ensures
        json_model(value) == Json::Text(text@),
{
    serde_json::Value::String(text)
}

/// Makes the `serde_json::Value` that is the boolean `flag`.
#[verifier::external_body]
pub(crate) fn flag_value(flag: bool) -> (value: serde_json::Value)
    ensures
        json_model(value) == Json::Bool(flag),
{
    serde_json::Value::Bool(flag)
}

/// Makes the `serde_json::Value` that is the array of `items`.
#[verifier::external_body]
pub(crate) fn array_value(items: Vec<serde_json::Value>) -> (value: serde_json::Value)
    ensures
        json_model(value) == Json::Array(models_of(items@)),
{
    serde_json::Value::Array(items)
}

/// Collects `members` into a `serde_json::Map` and makes the
/// `serde_json::Value` that is the object of them. The keys differ, so
/// each member is in the object.
#[verifier::external_body]
pub(crate) fn object_value(members: Vec<(String, serde_json::Value)>) -> (value: serde_json::Value)
    requires
        distinct_keys(members@),
    ensures
        json_model(value) == Json::Object(members_of(members@)),
{
    serde_json::Value::Object(members.into_iter().collect())
}

} // verus!
