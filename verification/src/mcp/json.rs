//! JSON values as the protocol carries them. The library never looks inside
//! one: it builds the arguments of a call and hands them through unchanged.

use vstd::prelude::*;

verus! {

#[verifier::external_type_specification]
#[verifier::external_body]
pub struct ExJsonValue(serde_json::Value);

/// The JSON object that `serde_json` makes of a list of members whose values
/// are strings: what `serde_json::Map::insert` leaves after the members were
/// inserted in order, each as a `serde_json::Value::String`, wrapped in
/// `serde_json::Value::Object`.
pub uninterp spec fn json_object(members: Seq<(Seq<char>, Seq<char>)>) -> serde_json::Value;

/// Builds a JSON object from members whose values are strings, with
/// `serde_json::Map::new`, `serde_json::Map::insert` and
/// `serde_json::Value::Object`. The result depends on the members alone; the
/// contract gives it its name and claims nothing else of it.
#[verifier::external_body]
pub(crate) fn object_of_strings(members: &Vec<(String, String)>) -> (value: serde_json::Value)
    ensures
        value == json_object(members.deep_view()),
{
    let mut object = serde_json::Map::new();
    for member in members.iter() {
        object.insert(member.0.clone(), serde_json::Value::String(member.1.clone()));
    }
    serde_json::Value::Object(object)
}

} // verus!
