//! JSON values, as far as they are looked into.
use vstd::prelude::*;

verus! {

/// `serde_json::Value`, any JSON value.
#[verifier::external_type_specification]
#[verifier::external_body]
pub struct ExJsonValue(serde_json::Value);

/// The model of a JSON value. Only what is read out of one is told apart.
pub enum JsonData {
    Text(Seq<char>),
    Object(Map<Seq<char>, JsonData>),
    Other,
}

/// The value that a `serde_json::Value` holds.
pub uninterp spec fn json_data(value: serde_json::Value) -> JsonData;

/// `serde_json::Value::as_str` hands out the string that the value is, and
/// nothing where it is no string.
#[verifier::external_body]
pub(crate) fn json_text(value: &serde_json::Value) -> (text: Option<&str>)
    ensures
        text is Some <==> json_data(*value) is Text,
        text matches Some(t) ==> json_data(*value) == JsonData::Text(t@),
{
    value.as_str()
}

/// `serde_json::Value::get` with a string hands out the member of that name,
/// and nothing where the value is no object or has none.
#[verifier::external_body]
pub(crate) fn json_member<'a>(value: &'a serde_json::Value, key: &str) -> (member: Option<
    &'a serde_json::Value,
>)
    ensures
        match json_data(*value) {
            JsonData::Object(members) => {
                &&& member is Some <==> members.contains_key(key@)
                &&& member matches Some(m) ==> json_data(*m) == members[key@]
            },
            _ => member is None,
        },
{
    value.get(key)
}

/// What several JSON values hold.
pub open spec fn values_data(values: Seq<serde_json::Value>) -> Seq<JsonData> {
    values.map_values(|v: serde_json::Value| json_data(v))
}

/// What the elements of a JSON array hold, as `serde_json` reads the bytes;
/// `None` where they are no JSON array.
pub uninterp spec fn json_array(bytes: Seq<u8>) -> Option<Seq<JsonData>>;

/// `serde_json::from_slice` into a list of `serde_json::Value`. Claims that
/// what it hands out depends on the bytes alone. What given bytes hold is left
/// unsaid.
#[verifier::external_body]
pub(crate) fn parse_array(bytes: &[u8]) -> (values: Option<Vec<serde_json::Value>>)
    ensures
        values is Some <==> json_array(bytes@) is Some,
        values matches Some(v) ==> json_array(bytes@) == Some(values_data(v@)),
{
    serde_json::from_slice::<Vec<serde_json::Value>>(bytes).ok()
}

/// The string under `key`, where the value is an object that has one.
pub open spec fn text_member(value: JsonData, key: Seq<char>) -> Option<Seq<char>> {
    match value {
        JsonData::Object(members) => if members.contains_key(key) {
            match members[key] {
                JsonData::Text(s) => Some(s),
                _ => None,
            }
        } else {
            None
        },
        _ => None,
    }
}

/// The string under `key`, where the value is an object that has one.
pub fn member_text<'a>(value: &'a serde_json::Value, key: &str) -> (text: Option<&'a str>)
    ensures
        text is Some <==> text_member(json_data(*value), key@) is Some,
        text matches Some(t) ==> text_member(json_data(*value), key@) == Some(t@),
{
    match json_member(value, key) {
        Some(member) => json_text(member),
        None => None,
    }
}

/// The string under a key is there exactly if the value is an object that has
/// the key and holds a string under it.
pub proof fn law_only_strings_are_handed_out(value: &serde_json::Value, key: &str, text: Option<&str>)
    requires
        call_ensures(member_text, (value, key), text),
    ensures
        match json_data(*value) {
            JsonData::Object(members) => {
                &&& text matches Some(t) ==> members.contains_key(key@) && members[key@]
                    == JsonData::Text(t@)
                &&& text is None ==> !members.contains_key(key@) || !(members[key@] is Text)
            },
            _ => text is None,
        },
{
}

} // verus!
