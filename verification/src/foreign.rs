//! What this library takes for granted about types that are defined
//! elsewhere. Nothing in this file is proved.

use rbx_types::Variant;
use rbx_types::VariantType;
use vstd::prelude::*;

verus! {

/// `rbx_types::Variant`: a value of any type of the object model. The
/// library stores such values and hands them out again; it never looks
/// inside one.
#[verifier::external_type_specification]
#[verifier::external_body]
pub struct ExVariant(Variant);

/// `rbx_types::VariantType`: the type of a value of the object model,
/// without the value. The library stores and hands out such types; it never
/// tells one from another.
#[verifier::external_type_specification]
#[verifier::external_body]
pub struct ExVariantType(VariantType);

} // verus!
