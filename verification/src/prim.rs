//! The closed set of primitive payload values.
//!
//! The container is dynamically typed, but the set of built-in primitive
//! payloads the wire codec understands is closed: 32- and 64-bit signed
//! integers, 64-bit floats carried as their bit pattern, booleans, text and
//! the unit value. User-defined record types are built from these (see the
//! record module).

use vstd::prelude::*;

verus! {

/// The bit pattern of a 64-bit IEEE 754 float.
///
/// The library carries floats opaquely as their bits: the wire codec
/// moves the bit pattern byte for byte, so nothing is lost by holding a
/// float this way.
#[derive(Debug, Clone, Copy, PartialEq, Eq, Structural)]
pub struct F64Bits(pub u64);

/// The bit pattern of a 32-bit IEEE 754 float.
#[derive(Debug, Clone, Copy, PartialEq, Eq, Structural)]
pub struct F32Bits(pub u32);

/// The kind of a primitive payload.
#[derive(Debug, Clone, Copy, PartialEq, Eq, Structural)]
pub enum PrimKind {
    Int32,
    Int64,
    Float32,
    Float64,
    Boolean,
    Text,
    Unit,
}

/// A primitive payload value.
#[derive(Debug, Clone, PartialEq)]
pub enum PrimValue {
    Int32(i32),
    Int64(i64),
    Float32(F32Bits),
    Float64(F64Bits),
    Boolean(bool),
    Text(String),
    Unit,
}

/// The mathematical model of a primitive payload: text becomes a sequence
/// of characters, everything else is carried as is.
pub enum PrimModel {
    Int32(i32),
    Int64(i64),
    Float32(u32),
    Float64(u64),
    Boolean(bool),
    Text(Seq<char>),
    Unit,
}

impl View for PrimValue {
    type V = PrimModel;

    open spec fn view(&self) -> PrimModel {
        match self {
            PrimValue::Int32(v) => PrimModel::Int32(*v),
            PrimValue::Int64(v) => PrimModel::Int64(*v),
            PrimValue::Float32(v) => PrimModel::Float32(v.0),
            PrimValue::Float64(v) => PrimModel::Float64(v.0),
            PrimValue::Boolean(v) => PrimModel::Boolean(*v),
            PrimValue::Text(v) => PrimModel::Text(v@),
            PrimValue::Unit => PrimModel::Unit,
        }
    }
}

/// The kind of a primitive model.
pub open spec fn kind_of_model(m: PrimModel) -> PrimKind {
    match m {
        PrimModel::Int32(_) => PrimKind::Int32,
        PrimModel::Int64(_) => PrimKind::Int64,
        PrimModel::Float32(_) => PrimKind::Float32,
        PrimModel::Float64(_) => PrimKind::Float64,
        PrimModel::Boolean(_) => PrimKind::Boolean,
        PrimModel::Text(_) => PrimKind::Text,
        PrimModel::Unit => PrimKind::Unit,
    }
}

impl PrimValue {
    /// The kind of this value.
    pub fn kind(&self) -> (k: PrimKind)
        ensures
            k == kind_of_model(self@),
    {
        match self {
            PrimValue::Int32(_) => PrimKind::Int32,
            PrimValue::Int64(_) => PrimKind::Int64,
            PrimValue::Float32(_) => PrimKind::Float32,
            PrimValue::Float64(_) => PrimKind::Float64,
            PrimValue::Boolean(_) => PrimKind::Boolean,
            PrimValue::Text(_) => PrimKind::Text,
            PrimValue::Unit => PrimKind::Unit,
        }
    }

    /// Structural equality of two primitive values.
    pub fn eq_prim(&self, other: &PrimValue) -> (r: bool)
        ensures
            r == (self@ == other@),
    {
        match (self, other) {
            (PrimValue::Int32(a), PrimValue::Int32(b)) => a == b,
            (PrimValue::Int64(a), PrimValue::Int64(b)) => a == b,
            (PrimValue::Float32(a), PrimValue::Float32(b)) => a.0 == b.0,
            (PrimValue::Float64(a), PrimValue::Float64(b)) => a.0 == b.0,
            (PrimValue::Boolean(a), PrimValue::Boolean(b)) => a == b,
            (PrimValue::Text(a), PrimValue::Text(b)) => *a == *b,
            (PrimValue::Unit, PrimValue::Unit) => true,
            _ => false,
        }
    }

    /// A copy of this value with an equal model.
    pub fn clone_prim(&self) -> (r: PrimValue)
        ensures
            r@ == self@,
    {
        match self {
            PrimValue::Int32(v) => PrimValue::Int32(*v),
            PrimValue::Int64(v) => PrimValue::Int64(*v),
            PrimValue::Float32(v) => PrimValue::Float32(*v),
            PrimValue::Float64(v) => PrimValue::Float64(*v),
            PrimValue::Boolean(v) => PrimValue::Boolean(*v),
            PrimValue::Text(v) => PrimValue::Text(v.clone()),
            PrimValue::Unit => PrimValue::Unit,
        }
    }
}

/// Equality of two strings, stated over their views.
pub fn str_eq(a: &str, b: &str) -> (r: bool)
    ensures
        r == (a@ == b@),
{
    let ao: String = a.to_owned();
    let bo: String = b.to_owned();
    ao == bo
}

} // verus!
