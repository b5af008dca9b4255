//! Decoded frames, as the policies receive them.
use vstd::prelude::*;
use serde_json::Value;

verus! {

/// A decoded frame: a JSON value that the policies may read but never change.
#[verifier::external_type_specification]
#[verifier::external_body]
pub struct ExValue(Value);

} // verus!
