//! JSON objects, as `serde_json` writes and reads them.

use vstd::prelude::*;

use crate::number::decimal;

verus! {

/// The members of a JSON object.
#[verifier::external_type_specification]
#[verifier::external_body]
#[verifier::reject_recursive_types(K)]
#[verifier::reject_recursive_types(V)]
pub struct ExJsonMap<K, V>(serde_json::Map<K, V>);

/// A JSON value.
#[verifier::external_type_specification]
#[verifier::external_body]
pub struct ExJsonValue(serde_json::Value);

/// The members of `object`: each key, with the text of its value.
pub uninterp spec fn json_members(
    object: serde_json::Map<String, serde_json::Value>,
) -> Map<Seq<char>, Seq<char>>;

/// The text of the JSON string that holds `value`.
pub uninterp spec fn json_quoted(value: Seq<char>) -> Seq<char>;

/// The text of the JSON object with the members `members`.
pub uninterp spec fn json_object_text(members: Map<Seq<char>, Seq<char>>) -> Seq<char>;

/// What the member `key` of the JSON object `text` holds, where `text` is one
/// and the member a string.
pub uninterp spec fn json_text_member(text: Seq<char>, key: Seq<char>) -> Option<Seq<char>>;

/// What the member `key` of the JSON object `text` holds, where `text` is one
/// and the member a natural number of at most 64 bits.
pub uninterp spec fn json_number_member(text: Seq<char>, key: Seq<char>) -> Option<u64>;

/// What the member `key` of the JSON object `text` holds, where `text` is one
/// and the member a truth value: what `serde_json::from_str`, `Value::get` and
/// `Value::as_bool` read there.
pub uninterp spec fn json_flag_member(text: Seq<char>, key: Seq<char>) -> Option<bool>;

/// The members of an object without any.
pub open spec fn no_members() -> Map<Seq<char>, Seq<char>> {
    Map::empty()
}

/// The text of the truth value `flag`.
pub open spec fn json_flag(flag: bool) -> Seq<char> {
    if flag {
        "true"@
    } else {
        "false"@
    }
}

/// `value` is the text of a string, of a natural number or of a truth value.
pub open spec fn is_scalar(value: Seq<char>) -> bool {
    ||| exists|text: Seq<char>| value == #[trigger] json_quoted(text)
    ||| exists|number: u64| value == #[trigger] decimal(number as nat)
    ||| exists|flag: bool| value == #[trigger] json_flag(flag)
}

/// No member holds a further object, nor a list.
pub open spec fn is_flat(members: Map<Seq<char>, Seq<char>>) -> bool {
    forall|key: Seq<char>| #[trigger] members.contains_key(key) ==> is_scalar(members[key])
}

/// `serde_json::Map::new` makes an object without members.
#[verifier::external_body]
pub(crate) fn new_object() -> (object: serde_json::Map<String, serde_json::Value>)
    ensures
        json_members(object) == no_members(),
{
    serde_json::Map::new()
}

/// `serde_json::Map::insert` of a string sets the member `key`, and keeps the
/// others.
#[verifier::external_body]
pub(crate) fn put_text(
    object: &mut serde_json::Map<String, serde_json::Value>,
    key: &str,
    value: &str,
)
    ensures
        json_members(*final(object)) == json_members(*old(object)).insert(
            key@,
            json_quoted(value@),
        ),
{
    object.insert(key.to_string(), serde_json::Value::from(value));
}

/// `serde_json::Map::insert` of a natural number sets the member `key`, and
/// keeps the others.
#[verifier::external_body]
pub(crate) fn put_number(
    object: &mut serde_json::Map<String, serde_json::Value>,
    key: &str,
    value: u64,
)
    ensures
        json_members(*final(object)) == json_members(*old(object)).insert(
            key@,
            decimal(value as nat),
        ),
{
    object.insert(key.to_string(), serde_json::Value::from(value));
}

/// `serde_json::Map::insert` of a truth value sets the member `key`, and keeps
/// the others.
#[verifier::external_body]
pub(crate) fn put_flag(
    object: &mut serde_json::Map<String, serde_json::Value>,
    key: &str,
    value: bool,
)
    ensures
        json_members(*final(object)) == json_members(*old(object)).insert(key@, json_flag(value)),
{
    object.insert(key.to_string(), serde_json::Value::from(value));
}

/// `serde_json::Value::to_string` writes an object: the text depends on the
/// members alone, and where no member is an object or a list, reading a member
/// of the text gives back the string, the number or the truth value that was put
/// there.
#[verifier::external_body]
pub(crate) fn object_text(object: serde_json::Map<String, serde_json::Value>) -> (text: String)
    ensures
        text@ == json_object_text(json_members(object)),
        is_flat(json_members(object)) ==> forall|key: Seq<char>, value: Seq<char>|
            #![trigger json_text_member(text@, key), json_quoted(value)]
            json_members(object).contains_key(key) && json_members(object)[key] == json_quoted(
                value,
            ) ==> json_text_member(text@, key) == Some(value),
        is_flat(json_members(object)) ==> forall|key: Seq<char>, value: u64|
            #![trigger json_number_member(text@, key), decimal(value as nat)]
            json_members(object).contains_key(key) && json_members(object)[key] == decimal(
                value as nat,
            ) ==> json_number_member(text@, key) == Some(value),
        is_flat(json_members(object)) ==> forall|key: Seq<char>, value: bool|
            #![trigger json_flag_member(text@, key), json_flag(value)]
            json_members(object).contains_key(key) && json_members(object)[key] == json_flag(
                value,
            ) ==> json_flag_member(text@, key) == Some(value),
{
    serde_json::Value::Object(object).to_string()
}

/// `serde_json::from_str`, `Value::get` and `Value::as_str` read a member that
/// is a string.
#[verifier::external_body]
pub(crate) fn read_text_member(text: &str, key: &str) -> (value: Option<String>)
    ensures
        match value {
            Some(found) => json_text_member(text@, key@) == Some(found@),
            None => json_text_member(text@, key@) is None,
        },
{
    let value: serde_json::Value = serde_json::from_str(text).ok()?;
    value.get(key)?.as_str().map(String::from)
}

/// `serde_json::from_str`, `Value::get` and `Value::as_u64` read a member that
/// is a natural number.
#[verifier::external_body]
pub(crate) fn read_number_member(text: &str, key: &str) -> (value: Option<u64>)
    ensures
        value == json_number_member(text@, key@),
{
    let value: serde_json::Value = serde_json::from_str(text).ok()?;
    value.get(key)?.as_u64()
}

} // verus!
