//! What the library believes of `serde_json` without proof.

use serde_json::Value;
use vstd::prelude::*;

verus! {

/// `serde_json::Value`, one JSON value of any kind. The library looks inside
/// one only through the functions specified below.
#[verifier::external_type_specification]
#[verifier::external_body]
pub struct ExValue(serde_json::Value);

/// The elements of a JSON value that is an array, in their order; `None` for
/// a value of any other kind.
pub uninterp spec fn json_array(v: Value) -> Option<Seq<Value>>;

/// `serde_json::Value::as_array` matches on the value: for the variant
/// `Array` it hands out the vector inside, for every other variant `None`.
/// The contract says that this vector holds the elements that `json_array`
/// names, and that `None` comes exactly where `json_array` names none.
pub assume_specification[ serde_json::Value::as_array ](v: &Value) -> (r: Option<&Vec<Value>>)
    ensures
        match r {
            Some(items) => json_array(*v) == Some(items@),
            None => json_array(*v) is None,
        },
;

} // verus!
