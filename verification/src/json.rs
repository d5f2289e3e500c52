//! Objects of JSON, as the parameters of a remote call hold them.

use vstd::prelude::*;

verus! {

/// `serde_json::Value`, carried through without a look inside.
#[verifier::external_type_specification]
#[verifier::external_body]
pub struct ExValue(serde_json::Value);

/// Whether a value is an object.
pub uninterp spec fn is_object(value: serde_json::Value) -> bool;

/// What stands under a name of an object.
pub enum Member {
    Text(Seq<char>),
    Number(nat),
    Flag(bool),
    Null,
    Other,
}

/// What stands under each name of an object.
pub uninterp spec fn members(value: serde_json::Value) -> Map<Seq<char>, Member>;

/// No members at all.
pub open spec fn no_members() -> Map<Seq<char>, Member> {
    Map::empty()
}

/// `serde_json::Value::Object` over `serde_json::Map::new`. Claimed: an object
/// without members.
#[verifier::external_body]
pub(crate) fn new_object() -> (value: serde_json::Value)
    ensures
        is_object(value),
        members(value) == no_members(),
{
    serde_json::Value::Object(serde_json::Map::new())
}

/// `serde_json::Value::as_object_mut` and `serde_json::Map::insert` of a
/// `serde_json::Value::String`. Claimed: in an object the member of that name
/// becomes the string, and the others stay; any other value stays as it is.
#[verifier::external_body]
pub(crate) fn set_text(value: serde_json::Value, name: &str, text: &str) -> (changed: serde_json::Value)
    ensures
        is_object(changed) == is_object(value),
        is_object(value) ==> members(changed) == members(value).insert(name@, Member::Text(text@)),
        !is_object(value) ==> changed == value,
{
    let mut value = value;
    if let Some(object) = value.as_object_mut() {
        object.insert(name.to_string(), serde_json::Value::String(text.to_string()));
    }
    value
}

/// `serde_json::Value::as_object_mut` and `serde_json::Map::insert` of a
/// `serde_json::Value` made from an unsigned number. Claimed: in an object the
/// member of that name becomes the number, and the others stay; any other value stays as it is.
#[verifier::external_body]
pub(crate) fn set_number(value: serde_json::Value, name: &str, number: u64) -> (changed: serde_json::Value)
    ensures
        is_object(changed) == is_object(value),
        is_object(value) ==> members(changed) == members(value).insert(
            name@,
            Member::Number(number as nat),
        ),
        !is_object(value) ==> changed == value,
{
    let mut value = value;
    if let Some(object) = value.as_object_mut() {
        object.insert(name.to_string(), serde_json::Value::from(number));
    }
    value
}

/// `serde_json::Value::as_object_mut` and `serde_json::Map::insert` of a
/// `serde_json::Value::Bool`. Claimed: in an object the member of that name
/// becomes the flag, and the others stay; any other value stays as it is.
#[verifier::external_body]
pub(crate) fn set_flag(value: serde_json::Value, name: &str, flag: bool) -> (changed: serde_json::Value)
    ensures
        is_object(changed) == is_object(value),
        is_object(value) ==> members(changed) == members(value).insert(name@, Member::Flag(flag)),
        !is_object(value) ==> changed == value,
{
    let mut value = value;
    if let Some(object) = value.as_object_mut() {
        object.insert(name.to_string(), serde_json::Value::Bool(flag));
    }
    value
}

/// `serde_json::Value::as_object_mut` and `serde_json::Map::insert` of
/// `serde_json::Value::Null`. Claimed: in an object the member of that name
/// becomes null, and the others stay; any other value stays as it is.
#[verifier::external_body]
pub(crate) fn set_null(value: serde_json::Value, name: &str) -> (changed: serde_json::Value)
    ensures
        is_object(changed) == is_object(value),
        is_object(value) ==> members(changed) == members(value).insert(name@, Member::Null),
        !is_object(value) ==> changed == value,
{
    let mut value = value;
    if let Some(object) = value.as_object_mut() {
        object.insert(name.to_string(), serde_json::Value::Null);
    }
    value
}

/// `serde_json::Value::clone`. Claimed: the same value.
#[verifier::external_body]
pub(crate) fn copy_value(value: &serde_json::Value) -> (copy: serde_json::Value)
    ensures
        copy == *value,
{
    value.clone()
}

} // verus!
