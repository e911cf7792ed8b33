//! Verified field-level decoding helpers over modeled JSON values.
//!
//! Each helper's contract is exact over the value's model: it succeeds if
//! and only if the member is present with the right shape, distinguishing
//! an absent member (`MissingFragment`) from a member of the wrong shape
//! (`DecodeFailure`), naming the field either way.

use vstd::prelude::*;

use crate::error::Error;
use crate::json::{
    arr_field, bool_field, i32_field, json_as_array, json_as_bool, json_as_i64, json_as_string,
    json_as_u64, json_clone, json_is_null, json_sub, model_of, obj_field, str_field, u32_field,
    u64_field, JsonModel,
};

verus! {

/// An optional string member: `Some(None)` for absent or null,
/// `Some(Some(s))` for a string, `None` for any other shape.
pub open spec fn opt_str_field(j: JsonModel, key: Seq<char>) -> Option<Option<Seq<char>>> {
    match obj_field(j, key) {
        None => Some(None),
        Some(JsonModel::Null) => Some(None),
        Some(JsonModel::Str(s)) => Some(Some(s)),
        Some(_) => None,
    }
}

/// Every element of the sequence is a string model.
pub open spec fn all_strings(es: Seq<JsonModel>) -> bool {
    forall|k: int| 0 <= k < es.len() ==> (#[trigger] es[k]) is Str
}

/// The text of a string model; empty for any other shape.
pub open spec fn str_of(j: JsonModel) -> Seq<char> {
    match j {
        JsonModel::Str(s) => s,
        _ => Seq::empty(),
    }
}

/// The texts of a sequence of string models.
pub open spec fn string_items(es: Seq<JsonModel>) -> Seq<Seq<char>> {
    es.map_values(|e: JsonModel| str_of(e))
}

pub(crate) fn req_string(v: &serde_json::Value, key: &str) -> (r: Result<String, Error>)
    ensures
        r is Ok <==> str_field(model_of(*v), key@) is Some,
        r matches Ok(out) ==> str_field(model_of(*v), key@) == Some(out@),
        r matches Err(e) ==> (if obj_field(model_of(*v), key@) is None {
            e matches Error::MissingFragment(_)
        } else {
            e matches Error::DecodeFailure(_)
        }),
{
    match json_sub(v, key) {
        Some(x) => match json_as_string(x) {
            Some(s) => Ok(s),
            None => Err(Error::DecodeFailure(String::from_str(key))),
        },
        None => Err(Error::MissingFragment(String::from_str(key))),
    }
}

pub(crate) fn req_u64(v: &serde_json::Value, key: &str) -> (r: Result<u64, Error>)
    ensures
        r is Ok <==> u64_field(model_of(*v), key@) is Some,
        r matches Ok(out) ==> u64_field(model_of(*v), key@) == Some(out),
        r matches Err(e) ==> (if obj_field(model_of(*v), key@) is None {
            e matches Error::MissingFragment(_)
        } else {
            e matches Error::DecodeFailure(_)
        }),
{
    match json_sub(v, key) {
        Some(x) => match json_as_u64(x) {
            Some(n) => Ok(n),
            None => Err(Error::DecodeFailure(String::from_str(key))),
        },
        None => Err(Error::MissingFragment(String::from_str(key))),
    }
}

pub(crate) fn req_u32(v: &serde_json::Value, key: &str) -> (r: Result<u32, Error>)
    ensures
        r is Ok <==> u32_field(model_of(*v), key@) is Some,
        r matches Ok(out) ==> u32_field(model_of(*v), key@) == Some(out),
        r matches Err(e) ==> (if obj_field(model_of(*v), key@) is None {
            e matches Error::MissingFragment(_)
        } else {
            e matches Error::DecodeFailure(_)
        }),
{
    match req_u64(v, key) {
        Ok(n) => {
            if n > u32::MAX as u64 {
                Err(Error::DecodeFailure(String::from_str(key)))
            } else {
                Ok(n as u32)
            }
        },
        Err(e) => Err(e),
    }
}

pub(crate) fn req_i32(v: &serde_json::Value, key: &str) -> (r: Result<i32, Error>)
    ensures
        r is Ok <==> i32_field(model_of(*v), key@) is Some,
        r matches Ok(out) ==> i32_field(model_of(*v), key@) == Some(out),
        r matches Err(e) ==> (if obj_field(model_of(*v), key@) is None {
            e matches Error::MissingFragment(_)
        } else {
            e matches Error::DecodeFailure(_)
        }),
{
    match json_sub(v, key) {
        Some(x) => match json_as_i64(x) {
            Some(n) => {
                if n > i32::MAX as i64 || n < i32::MIN as i64 {
                    Err(Error::DecodeFailure(String::from_str(key)))
                } else {
                    Ok(n as i32)
                }
            },
            None => Err(Error::DecodeFailure(String::from_str(key))),
        },
        None => Err(Error::MissingFragment(String::from_str(key))),
    }
}

pub(crate) fn req_bool(v: &serde_json::Value, key: &str) -> (r: Result<bool, Error>)
    ensures
        r is Ok <==> bool_field(model_of(*v), key@) is Some,
        r matches Ok(out) ==> bool_field(model_of(*v), key@) == Some(out),
        r matches Err(e) ==> (if obj_field(model_of(*v), key@) is None {
            e matches Error::MissingFragment(_)
        } else {
            e matches Error::DecodeFailure(_)
        }),
{
    match json_sub(v, key) {
        Some(x) => match json_as_bool(x) {
            Some(b) => Ok(b),
            None => Err(Error::DecodeFailure(String::from_str(key))),
        },
        None => Err(Error::MissingFragment(String::from_str(key))),
    }
}

/// An optional member carried through opaquely: absent and `null` both
/// count as absent.
pub(crate) fn opt_value(v: &serde_json::Value, key: &str) -> (r: Option<serde_json::Value>)
    ensures
        match obj_field(model_of(*v), key@) {
            None => r is None,
            Some(x) => if x is Null {
                r is None
            } else {
                r matches Some(out) && model_of(out) == x
            },
        },
{
    match json_sub(v, key) {
        Some(x) => {
            if json_is_null(x) {
                None
            } else {
                Some(json_clone(x))
            }
        },
        None => None,
    }
}

/// A required array member carried through opaquely, element by element.
pub(crate) fn req_value_vec(v: &serde_json::Value, key: &str) -> (r: Result<
    Vec<serde_json::Value>,
    Error,
>)
    ensures
        r is Ok <==> arr_field(model_of(*v), key@) is Some,
        r matches Ok(out) ==> (arr_field(model_of(*v), key@) matches Some(es) && out@.len()
            == es.len() && (forall|k: int|
            0 <= k < es.len() ==> #[trigger] model_of(out@[k]) == es[k])),
        r matches Err(e) ==> (if obj_field(model_of(*v), key@) is None {
            e matches Error::MissingFragment(_)
        } else {
            e matches Error::DecodeFailure(_)
        }),
{
    match json_sub(v, key) {
        Some(x) => match json_as_array(x) {
            Some(arr) => {
                let ghost es = model_of(*x)->Arr_0;
                let mut out: Vec<serde_json::Value> = Vec::new();
                let mut i: usize = 0;
                while i < arr.len()
                    invariant
                        0 <= i <= arr@.len(),
                        arr@.len() == es.len(),
                        arr_field(model_of(*v), key@) == Some(es),
                        forall|k: int| 0 <= k < es.len() ==> #[trigger] model_of(arr@[k]) == es[k],
                        out@.len() == i,
                        forall|k: int| 0 <= k < i ==> #[trigger] model_of(out@[k]) == es[k],
                    decreases arr@.len() - i,
                {
                    out.push(json_clone(&arr[i]));
                    i += 1;
                }
                Ok(out)
            },
            None => Err(Error::DecodeFailure(String::from_str(key))),
        },
        None => Err(Error::MissingFragment(String::from_str(key))),
    }
}

/// A required array of strings.
pub(crate) fn req_string_vec(v: &serde_json::Value, key: &str) -> (r: Result<Vec<String>, Error>)
    ensures
        r is Ok <==> (arr_field(model_of(*v), key@) matches Some(es) && all_strings(es)),
        r matches Ok(out) ==> (arr_field(model_of(*v), key@) matches Some(es)
            && out.deep_view() == string_items(es)),
        r matches Err(e) ==> (if obj_field(model_of(*v), key@) is None {
            e matches Error::MissingFragment(_)
        } else {
            e matches Error::DecodeFailure(_)
        }),
{
    match json_sub(v, key) {
        Some(x) => match json_as_array(x) {
            Some(arr) => {
                let ghost es = model_of(*x)->Arr_0;
                proof {
                    assert(arr_field(model_of(*v), key@) == Some(es));
                }
                let mut out: Vec<String> = Vec::new();
                let mut i: usize = 0;
                while i < arr.len()
                    invariant
                        0 <= i <= arr@.len(),
                        arr@.len() == es.len(),
                        arr_field(model_of(*v), key@) == Some(es),
                        forall|k: int| 0 <= k < es.len() ==> #[trigger] model_of(arr@[k]) == es[k],
                        out@.len() == i,
                        forall|k: int| 0 <= k < i ==> (#[trigger] es[k]) is Str,
                        out.deep_view() == string_items(es.subrange(0, i as int)),
                    decreases arr@.len() - i,
                {
                    match json_as_string(&arr[i]) {
                        Some(s) => {
                            let ghost prev = out.deep_view();
                            let ghost sview = s@;
                            out.push(s);
                            proof {
                                let next = es.subrange(0, i + 1);
                                assert(model_of(arr@[i as int]) == es[i as int]);
                                assert(es[i as int] is Str && str_of(es[i as int]) == sview);
                                assert forall|k: int|
                                    0 <= k < out.deep_view().len() implies out.deep_view()[k]
                                    == string_items(next)[k] by {
                                    assert(string_items(next)[k] == str_of(next[k]));
                                    assert(next[k] == es[k]);
                                    if k < i {
                                        assert(out.deep_view()[k] == prev[k]);
                                        assert(prev[k] == string_items(
                                            es.subrange(0, i as int),
                                        )[k]);
                                    } else {
                                        assert(out.deep_view()[k] == sview);
                                    }
                                }
                                assert(out.deep_view() =~= string_items(next));
                            }
                        },
                        None => {
                            proof {
                                assert(model_of(arr@[i as int]) == es[i as int]);
                                assert(!(es[i as int] is Str));
                                assert(!all_strings(es));
                            }
                            return Err(Error::DecodeFailure(String::from_str(key)));
                        },
                    }
                    i += 1;
                }
                proof {
                    assert(es.subrange(0, es.len() as int) =~= es);
                }
                Ok(out)
            },
            None => Err(Error::DecodeFailure(String::from_str(key))),
        },
        None => Err(Error::MissingFragment(String::from_str(key))),
    }
}

pub(crate) fn opt_string(v: &serde_json::Value, key: &str) -> (r: Result<Option<String>, Error>)
    ensures
        r is Ok <==> opt_str_field(model_of(*v), key@) is Some,
        (match r {
            Ok(None) => opt_str_field(model_of(*v), key@) == Some(Option::<Seq<char>>::None),
            Ok(Some(s)) => opt_str_field(model_of(*v), key@) == Some(Some(s@)),
            Err(e) => e matches Error::DecodeFailure(_),
        }),
{
    match json_sub(v, key) {
        None => Ok(None),
        Some(x) => {
            if json_is_null(x) {
                Ok(None)
            } else {
                match json_as_string(x) {
                    Some(s) => Ok(Some(s)),
                    None => Err(Error::DecodeFailure(String::from_str(key))),
                }
            }
        },
    }
}

} // verus!
