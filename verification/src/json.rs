//! The trusted boundary to `serde_json`.
//!
//! JSON parsing is delegated to `serde_json`; a parsed document is an
//! opaque `serde_json::Value`. What parsing yields is a function of the
//! text alone, so it carries a name, `json_of`, over a mathematical model
//! of JSON documents, and each accessor's contract says what it returns in
//! terms of the value's model. All structural decoding built on these
//! accessors is verified against that model.

use vstd::prelude::*;

verus! {

#[verifier::external_type_specification]
#[verifier::external_body]
pub struct ExValue(serde_json::Value);

/// The mathematical model of a JSON document.
///
/// A number is modeled by its integer readings alone: the `u64` reading
/// when it is a non-negative integer in range, the `i64` reading when it
/// is an integer in range; a non-integral number has neither.
pub enum JsonModel {
    Null,
    Bool(bool),
    Num { as_u64: Option<u64>, as_i64: Option<i64> },
    Str(Seq<char>),
    Arr(Seq<JsonModel>),
    /// Duplicate keys keep the last member, as the parser does.
    Obj(Map<Seq<char>, JsonModel>),
}

/// What parsing a text as JSON yields, if it parses.
pub uninterp spec fn json_of(s: Seq<char>) -> Option<JsonModel>;

/// The model of a parsed JSON value.
pub uninterp spec fn model_of(v: serde_json::Value) -> JsonModel;

/// The member of an object model under a key.
pub open spec fn obj_field(j: JsonModel, key: Seq<char>) -> Option<JsonModel> {
    match j {
        JsonModel::Obj(m) => if m.contains_key(key) {
            Some(m[key])
        } else {
            None
        },
        _ => None,
    }
}

/// The text of a string member under a key.
pub open spec fn str_field(j: JsonModel, key: Seq<char>) -> Option<Seq<char>> {
    match obj_field(j, key) {
        Some(JsonModel::Str(s)) => Some(s),
        _ => None,
    }
}

/// The `u64` reading of a number member under a key.
pub open spec fn u64_field(j: JsonModel, key: Seq<char>) -> Option<u64> {
    match obj_field(j, key) {
        Some(JsonModel::Num { as_u64, .. }) => as_u64,
        _ => None,
    }
}

/// The `i64` reading of a number member under a key.
pub open spec fn i64_field(j: JsonModel, key: Seq<char>) -> Option<i64> {
    match obj_field(j, key) {
        Some(JsonModel::Num { as_i64, .. }) => as_i64,
        _ => None,
    }
}

/// A `u64` member that fits `u32`.
pub open spec fn u32_field(j: JsonModel, key: Seq<char>) -> Option<u32> {
    match u64_field(j, key) {
        Some(n) => if n <= u32::MAX {
            Some(n as u32)
        } else {
            None
        },
        None => None,
    }
}

/// An `i64` member that fits `i32`.
pub open spec fn i32_field(j: JsonModel, key: Seq<char>) -> Option<i32> {
    match i64_field(j, key) {
        Some(n) => if i32::MIN <= n <= i32::MAX {
            Some(n as i32)
        } else {
            None
        },
        None => None,
    }
}

/// The value of a boolean member under a key.
pub open spec fn bool_field(j: JsonModel, key: Seq<char>) -> Option<bool> {
    match obj_field(j, key) {
        Some(JsonModel::Bool(b)) => Some(b),
        _ => None,
    }
}

/// The elements of an array member under a key.
pub open spec fn arr_field(j: JsonModel, key: Seq<char>) -> Option<Seq<JsonModel>> {
    match obj_field(j, key) {
        Some(JsonModel::Arr(es)) => Some(es),
        _ => None,
    }
}

/// Relies on `serde_json::from_str::<Value>`: parses standard JSON text
/// into a document tree, or fails on malformed text. Parsing is a function
/// of the text alone; `json_of` names its outcome.
#[verifier::external_body]
pub(crate) fn parse_json(s: &str) -> (r: Option<serde_json::Value>)
    ensures
        r is Some <==> json_of(s@) is Some,
        r matches Some(v) ==> json_of(s@) == Some(model_of(v)),
{
    serde_json::from_str(s).ok()
}

/// Relies on `serde_json::Value::get`: member lookup by key in a JSON
/// object; `None` on a non-object or an absent key.
#[verifier::external_body]
pub(crate) fn json_sub<'a>(v: &'a serde_json::Value, key: &str) -> (r: Option<
    &'a serde_json::Value,
>)
    ensures
        match model_of(*v) {
            JsonModel::Obj(m) => {
                &&& (r is Some <==> m.contains_key(key@))
                &&& (r matches Some(x) ==> m.contains_key(key@) && model_of(*x) == m[key@])
            },
            _ => r is None,
        },
{
    v.get(key)
}

/// Relies on `serde_json::Value::as_str`: the text of a JSON string value.
#[verifier::external_body]
pub(crate) fn json_as_string(v: &serde_json::Value) -> (r: Option<String>)
    ensures
        match model_of(*v) {
            JsonModel::Str(s) => r matches Some(out) && out@ == s,
            _ => r is None,
        },
{
    match v.as_str() {
        Some(s) => Some(s.to_string()),
        None => None,
    }
}

/// Relies on `serde_json::Value::as_u64`: the value of a JSON number that
/// is a non-negative integer in `u64` range.
#[verifier::external_body]
pub(crate) fn json_as_u64(v: &serde_json::Value) -> (r: Option<u64>)
    ensures
        match model_of(*v) {
            JsonModel::Num { as_u64, .. } => r == as_u64,
            _ => r is None,
        },
{
    v.as_u64()
}

/// Relies on `serde_json::Value::as_i64`: the value of a JSON number that
/// is an integer in `i64` range.
#[verifier::external_body]
pub(crate) fn json_as_i64(v: &serde_json::Value) -> (r: Option<i64>)
    ensures
        match model_of(*v) {
            JsonModel::Num { as_i64, .. } => r == as_i64,
            _ => r is None,
        },
{
    v.as_i64()
}

/// Relies on `serde_json::Value::as_bool`: the value of a JSON boolean.
#[verifier::external_body]
pub(crate) fn json_as_bool(v: &serde_json::Value) -> (r: Option<bool>)
    ensures
        match model_of(*v) {
            JsonModel::Bool(b) => r == Some(b),
            _ => r is None,
        },
{
    v.as_bool()
}

/// Relies on `serde_json::Value::as_array`: the elements of a JSON array,
/// in document order.
#[verifier::external_body]
pub(crate) fn json_as_array<'a>(v: &'a serde_json::Value) -> (r: Option<
    &'a Vec<serde_json::Value>,
>)
    ensures
        match model_of(*v) {
            JsonModel::Arr(es) => r matches Some(a) && a@.len() == es.len() && (forall|k: int|
                0 <= k < es.len() ==> #[trigger] model_of(a@[k]) == es[k]),
            _ => r is None,
        },
{
    v.as_array()
}

/// Relies on `serde_json::Value::is_number`: whether the value is a JSON
/// number.
#[verifier::external_body]
pub(crate) fn json_is_number(v: &serde_json::Value) -> (r: bool)
    ensures
        r == (model_of(*v) is Num),
{
    v.is_number()
}

/// Relies on `serde_json::Value::is_null`: whether the value is JSON null.
#[verifier::external_body]
pub(crate) fn json_is_null(v: &serde_json::Value) -> (r: bool)
    ensures
        r == (model_of(*v) is Null),
{
    v.is_null()
}

/// Relies on `serde_json::Value::clone`.
#[verifier::external_body]
pub(crate) fn json_clone(v: &serde_json::Value) -> (r: serde_json::Value)
    ensures
        model_of(r) == model_of(*v),
{
    v.clone()
}

/// Relies on `serde_json::Value::as_array` and `Value::clone`: the elements
/// of a JSON array, cloned, in document order.
#[verifier::external_body]
pub(crate) fn json_as_array_owned(v: &serde_json::Value) -> (r: Option<Vec<serde_json::Value>>)
    ensures
        match model_of(*v) {
            JsonModel::Arr(es) => r matches Some(a) && a@.len() == es.len() && (forall|k: int|
                0 <= k < es.len() ==> #[trigger] model_of(a@[k]) == es[k]),
            _ => r is None,
        },
{
    match v.as_array() {
        Some(a) => Some(a.clone()),
        None => None,
    }
}

/// Relies on `serde_json::Value::as_object` and `Map::iter`: the members of
/// a JSON object as cloned key/value pairs, each key once, in the map's
/// sorted key order.
#[verifier::external_body]
pub(crate) fn json_obj_entries(v: &serde_json::Value) -> (r: Option<
    Vec<(String, serde_json::Value)>,
>)
    ensures
        match model_of(*v) {
            JsonModel::Obj(m) => r matches Some(es) && {
                &&& forall|k: int|
                    0 <= k < es@.len() ==> m.contains_key((#[trigger] es@[k]).0@) && model_of(
                        es@[k].1,
                    ) == m[es@[k].0@]
                &&& forall|k1: int, k2: int|
                    0 <= k1 < k2 < es@.len() ==> (#[trigger] es@[k1]).0@ != (
                    #[trigger] es@[k2]).0@
                &&& forall|key: Seq<char>|
                    #[trigger] m.contains_key(key) ==> exists|k: int|
                        0 <= k < es@.len() && (#[trigger] es@[k]).0@ == key
            },
            _ => r is None,
        },
{
    match v.as_object() {
        Some(m) => Some(m.iter().map(|(k, x)| (k.clone(), x.clone())).collect()),
        None => None,
    }
}

} // verus!
