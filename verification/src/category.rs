//! The closed set of value categories and their wire markers.
//!
//! Every tagged value carries exactly one category, fixed at construction.
//! The category is also the first byte of the wire format.

use vstd::prelude::*;

verus! {

/// Categorizes a value for dispatch and for the first byte of the wire
/// format.
#[derive(Debug, Clone, Copy, PartialEq, Eq, Structural)]
pub enum ValueCategory {
    Primitive,
    List,
    Mapping,
    Struct,
    Null,
    /// Raw bytes (used for byte blobs, not for lazy deserialization).
    Bytes,
}

/// The wire marker of each category.
pub open spec fn spec_marker_byte(c: ValueCategory) -> u8 {
    match c {
        ValueCategory::Primitive => 0x01,
        ValueCategory::List => 0x02,
        ValueCategory::Mapping => 0x03,
        ValueCategory::Struct => 0x04,
        ValueCategory::Null => 0x05,
        ValueCategory::Bytes => 0x06,
    }
}

/// The category a wire marker stands for, if any.
pub open spec fn spec_category_of_marker(b: u8) -> Option<ValueCategory> {
    if b == 0x01 {
        Some(ValueCategory::Primitive)
    } else if b == 0x02 {
        Some(ValueCategory::List)
    } else if b == 0x03 {
        Some(ValueCategory::Mapping)
    } else if b == 0x04 {
        Some(ValueCategory::Struct)
    } else if b == 0x05 {
        Some(ValueCategory::Null)
    } else if b == 0x06 {
        Some(ValueCategory::Bytes)
    } else {
        None
    }
}

/// Emit the wire marker of a category.
pub fn marker_byte(c: ValueCategory) -> (r: u8)
    ensures
        r == spec_marker_byte(c),
{
    match c {
        ValueCategory::Primitive => 0x01,
        ValueCategory::List => 0x02,
        ValueCategory::Mapping => 0x03,
        ValueCategory::Struct => 0x04,
        ValueCategory::Null => 0x05,
        ValueCategory::Bytes => 0x06,
    }
}

/// Parse a wire marker back into a category.
pub fn category_of_marker(b: u8) -> (r: Option<ValueCategory>)
    ensures
        r == spec_category_of_marker(b),
{
    if b == 0x01 {
        Some(ValueCategory::Primitive)
    } else if b == 0x02 {
        Some(ValueCategory::List)
    } else if b == 0x03 {
        Some(ValueCategory::Mapping)
    } else if b == 0x04 {
        Some(ValueCategory::Struct)
    } else if b == 0x05 {
        Some(ValueCategory::Null)
    } else if b == 0x06 {
        Some(ValueCategory::Bytes)
    } else {
        None
    }
}

/// The marker mapping loses nothing: parsing the marker of a category gives
/// the category back.
pub broadcast proof fn lemma_marker_roundtrip(c: ValueCategory)
    ensures
        #[trigger] spec_category_of_marker(spec_marker_byte(c)) == Some(c),
{
}

} // verus!
