//! Small helpers for building tagged values.

use crate::errors::ValueError;
use crate::value::ArcValueType;
use vstd::prelude::*;

verus! {

/// The null value.
pub fn null_value() -> (r: ArcValueType)
    ensures
        r@.category == crate::category::ValueCategory::Null,
{
    ArcValueType::null()
}

/// A primitive text value.
pub fn string_value(s: String) -> (r: ArcValueType)
    ensures
        r@.category == crate::category::ValueCategory::Primitive,
        r@.body == crate::erased::ErasedModel::Eager(
            crate::payload::spec_kind_type_name(crate::prim::PrimKind::Text),
            crate::payload::PayloadModel::Prim(crate::prim::PrimModel::Text(s@)),
        ),
{
    ArcValueType::new_primitive(s)
}

/// A primitive boolean value.
pub fn bool_value(b: bool) -> (r: ArcValueType)
    ensures
        r@.category == crate::category::ValueCategory::Primitive,
        r@.body == crate::erased::ErasedModel::Eager(
            crate::payload::spec_kind_type_name(crate::prim::PrimKind::Boolean),
            crate::payload::PayloadModel::Prim(crate::prim::PrimModel::Boolean(b)),
        ),
{
    ArcValueType::new_primitive(b)
}

/// An error rendered as a primitive text value.
pub fn error_to_string_value(error: &ValueError) -> (r: ArcValueType)
    ensures
        r@.category == crate::category::ValueCategory::Primitive,
{
    ArcValueType::new_primitive(error.message())
}

} // verus!
