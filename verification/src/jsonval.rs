//! Opaque declaration of the structured payload type callers attach to a
//! ticket. The authority stores such a payload for audit display and never
//! interprets it.

use vstd::prelude::*;

verus! {

/// Declares `serde_json::Value` so it can stand in fields and signatures.
/// The library only carries values of this type through; it never looks
/// inside one.
#[verifier::external_type_specification]
#[verifier::external_body]
pub struct ExValue(serde_json::Value);

} // verus!
