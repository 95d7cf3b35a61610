//! The JSON value type of `serde_json`, which plugin calls and audit records
//! carry through unchanged.

use vstd::prelude::*;

verus! {

/// `serde_json::Value`, held opaquely.
#[verifier::external_type_specification]
#[verifier::external_body]
pub struct ExJsonValue(serde_json::Value);

/// `Clone` for `serde_json::Value`, which the crate derives: the copy is
/// the same JSON value.
pub assume_specification[ <serde_json::Value as Clone>::clone ](v: &serde_json::Value) -> (r: serde_json::Value)
    ensures
        r == *v,
;

/// The JSON text of `v` through `serde_json::to_string`, empty when it
/// fails. Nothing is stated of the text: JSON values are opaque here.
#[verifier::external_body]
pub(crate) fn json_text_of<T: serde::Serialize>(v: &T) -> String {
    serde_json::to_string(v).unwrap_or_default()
}

} // verus!
