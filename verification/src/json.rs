//! The payload of an entry: a JSON document that the store carries without
//! reading it.

use serde_json::Value as Json;
use vstd::prelude::*;

verus! {

/// `serde_json::Value`, a JSON document. The library never looks inside one:
/// it hands documents to the database and back.
#[verifier::external_type_specification]
#[verifier::external_body]
pub struct ExJson(Json);

/// `Clone::clone` of `serde_json::Value`: the copy is the same document.
pub assume_specification[ <Json as Clone>::clone ](document: &Json) -> (copy: Json)
    ensures
        copy == *document,
;

} // verus!
