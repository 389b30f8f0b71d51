//! The closed family of concrete payloads a tagged value can hold.
//!
//! The erasure container holds one of these payloads behind a
//! reference-counted handle, so cloning a container shares the allocation
//! and accessors can hand out handles to the very same allocation. The
//! family is closed: each built-in type the registry knows has its own
//! arm, a user-defined record is a named tuple of primitive fields, and a
//! dynamic map holds primitive values of mixed kinds.

use crate::prim::{kind_of_model, F32Bits, F64Bits, PrimKind, PrimModel, PrimValue};
use crate::strmap::StrMap;
use std::sync::Arc;
use vstd::prelude::*;

verus! {

/// A user-defined record value: a type name and its field values in
/// declaration order. On the wire a record is its fields' encodings
/// concatenated, exactly as a struct of the same fields would encode.
#[derive(Debug, Clone)]
pub struct RecordValue {
    /// The full type name of the record.
    pub type_name_str: String,
    /// The field values, in declaration order.
    pub fields: Vec<PrimValue>,
}

impl View for RecordValue {
    type V = (Seq<char>, Seq<PrimModel>);

    open spec fn view(&self) -> (Seq<char>, Seq<PrimModel>) {
        (self.type_name_str@, self.fields@.map_values(|v: PrimValue| v@))
    }
}

/// The description of a record type: its full name and the kinds of its
/// fields in declaration order. Decoding a record needs this shape.
#[derive(Debug, Clone)]
pub struct RecordType {
    /// The full type name of the record.
    pub name: String,
    /// The kind of each field, in declaration order.
    pub shape: Vec<PrimKind>,
}

impl View for RecordType {
    type V = (Seq<char>, Seq<PrimKind>);

    open spec fn view(&self) -> (Seq<char>, Seq<PrimKind>) {
        (self.name@, self.shape@)
    }
}

impl RecordType {
    /// A copy of this description with an equal model.
    pub fn clone_record_type(&self) -> (r: RecordType)
        ensures
            r@ == self@,
    {
        let mut shape: Vec<PrimKind> = Vec::new();
        let n = self.shape.len();
        let mut i: usize = 0;
        while i < n
            invariant
                i <= n,
                n == self.shape@.len(),
                shape@ == self.shape@.take(i as int),
            decreases n - i,
        {
            shape.push(self.shape[i]);
            proof {
                assert(shape@ =~= self.shape@.take(i as int + 1));
            }
            i += 1;
        }
        proof {
            assert(self.shape@.take(n as int) =~= self.shape@);
        }
        RecordType { name: self.name.clone(), shape }
    }
}

/// A shared handle to one primitive value.
#[derive(Debug)]
pub enum PrimArc {
    Int32(Arc<i32>),
    Int64(Arc<i64>),
    Float32(Arc<F32Bits>),
    Float64(Arc<F64Bits>),
    Boolean(Arc<bool>),
    Text(Arc<String>),
}

impl View for PrimArc {
    type V = PrimModel;

    open spec fn view(&self) -> PrimModel {
        match self {
            PrimArc::Int32(a) => PrimModel::Int32(**a),
            PrimArc::Int64(a) => PrimModel::Int64(**a),
            PrimArc::Float32(a) => PrimModel::Float32(a.0),
            PrimArc::Float64(a) => PrimModel::Float64(a.0),
            PrimArc::Boolean(a) => PrimModel::Boolean(**a),
            PrimArc::Text(a) => PrimModel::Text(a@),
        }
    }
}

/// A shared handle to one homogeneous list of primitive values.
#[derive(Debug)]
pub enum ListArc {
    Int32(Arc<Vec<i32>>),
    Int64(Arc<Vec<i64>>),
    Float32(Arc<Vec<F32Bits>>),
    Float64(Arc<Vec<F64Bits>>),
    Boolean(Arc<Vec<bool>>),
    Text(Arc<Vec<String>>),
}

impl View for ListArc {
    type V = (PrimKind, Seq<PrimModel>);

    open spec fn view(&self) -> (PrimKind, Seq<PrimModel>) {
        match self {
            ListArc::Int32(a) => (
                PrimKind::Int32,
                a@.map_values(|v: i32| PrimModel::Int32(v)),
            ),
            ListArc::Int64(a) => (
                PrimKind::Int64,
                a@.map_values(|v: i64| PrimModel::Int64(v)),
            ),
            ListArc::Float32(a) => (
                PrimKind::Float32,
                a@.map_values(|v: F32Bits| PrimModel::Float32(v.0)),
            ),
            ListArc::Float64(a) => (
                PrimKind::Float64,
                a@.map_values(|v: F64Bits| PrimModel::Float64(v.0)),
            ),
            ListArc::Boolean(a) => (
                PrimKind::Boolean,
                a@.map_values(|v: bool| PrimModel::Boolean(v)),
            ),
            ListArc::Text(a) => (
                PrimKind::Text,
                a@.map_values(|v: String| PrimModel::Text(v@)),
            ),
        }
    }
}

/// A shared handle to one homogeneous string-keyed map of primitive
/// values.
#[derive(Debug)]
pub enum MapArc {
    Int32(Arc<StrMap<i32>>),
    Int64(Arc<StrMap<i64>>),
    Float32(Arc<StrMap<F32Bits>>),
    Float64(Arc<StrMap<F64Bits>>),
    Boolean(Arc<StrMap<bool>>),
    Text(Arc<StrMap<String>>),
}

impl View for MapArc {
    type V = (PrimKind, Seq<(Seq<char>, PrimModel)>);

    open spec fn view(&self) -> (PrimKind, Seq<(Seq<char>, PrimModel)>) {
        match self {
            MapArc::Int32(a) => (
                PrimKind::Int32,
                a@.map_values(|kv: (Seq<char>, i32)| (kv.0, PrimModel::Int32(kv.1))),
            ),
            MapArc::Int64(a) => (
                PrimKind::Int64,
                a@.map_values(|kv: (Seq<char>, i64)| (kv.0, PrimModel::Int64(kv.1))),
            ),
            MapArc::Float32(a) => (
                PrimKind::Float32,
                a@.map_values(|kv: (Seq<char>, F32Bits)| (kv.0, PrimModel::Float32(kv.1.0))),
            ),
            MapArc::Float64(a) => (
                PrimKind::Float64,
                a@.map_values(|kv: (Seq<char>, F64Bits)| (kv.0, PrimModel::Float64(kv.1.0))),
            ),
            MapArc::Boolean(a) => (
                PrimKind::Boolean,
                a@.map_values(|kv: (Seq<char>, bool)| (kv.0, PrimModel::Boolean(kv.1))),
            ),
            MapArc::Text(a) => (
                PrimKind::Text,
                a@.map_values(|kv: (Seq<char>, String)| (kv.0, PrimModel::Text(kv.1@))),
            ),
        }
    }
}

/// The concrete payload of an erasure container.
#[derive(Debug)]
pub enum DynPayload {
    /// One primitive value.
    Prim(PrimArc),
    /// A homogeneous list.
    ListP(ListArc),
    /// A homogeneous string-keyed map.
    MapP(MapArc),
    /// A string-keyed map whose values mix primitive kinds.
    MapDyn(Arc<StrMap<PrimValue>>),
    /// A user-defined record.
    Rec(Arc<RecordValue>),
    /// A raw byte blob.
    Raw(Arc<Vec<u8>>),
    /// The payload of the null value.
    Unit,
}

impl Clone for PrimArc {
    /// Cloning shares the allocation: the clone equals the original.
    fn clone(&self) -> (r: Self)
        ensures
            r == *self,
    {
        match self {
            PrimArc::Int32(a) => PrimArc::Int32(a.clone()),
            PrimArc::Int64(a) => PrimArc::Int64(a.clone()),
            PrimArc::Float32(a) => PrimArc::Float32(a.clone()),
            PrimArc::Float64(a) => PrimArc::Float64(a.clone()),
            PrimArc::Boolean(a) => PrimArc::Boolean(a.clone()),
            PrimArc::Text(a) => PrimArc::Text(a.clone()),
        }
    }
}

impl Clone for ListArc {
    /// Cloning shares the allocation: the clone equals the original.
    fn clone(&self) -> (r: Self)
        ensures
            r == *self,
    {
        match self {
            ListArc::Int32(a) => ListArc::Int32(a.clone()),
            ListArc::Int64(a) => ListArc::Int64(a.clone()),
            ListArc::Float32(a) => ListArc::Float32(a.clone()),
            ListArc::Float64(a) => ListArc::Float64(a.clone()),
            ListArc::Boolean(a) => ListArc::Boolean(a.clone()),
            ListArc::Text(a) => ListArc::Text(a.clone()),
        }
    }
}

impl Clone for MapArc {
    /// Cloning shares the allocation: the clone equals the original.
    fn clone(&self) -> (r: Self)
        ensures
            r == *self,
    {
        match self {
            MapArc::Int32(a) => MapArc::Int32(a.clone()),
            MapArc::Int64(a) => MapArc::Int64(a.clone()),
            MapArc::Float32(a) => MapArc::Float32(a.clone()),
            MapArc::Float64(a) => MapArc::Float64(a.clone()),
            MapArc::Boolean(a) => MapArc::Boolean(a.clone()),
            MapArc::Text(a) => MapArc::Text(a.clone()),
        }
    }
}

impl Clone for DynPayload {
    /// Cloning shares the payload allocation: the clone equals the
    /// original, so both hand out handles to the same data.
    fn clone(&self) -> (r: Self)
        ensures
            r == *self,
    {
        match self {
            DynPayload::Prim(p) => DynPayload::Prim(p.clone()),
            DynPayload::ListP(l) => DynPayload::ListP(l.clone()),
            DynPayload::MapP(m) => DynPayload::MapP(m.clone()),
            DynPayload::MapDyn(a) => DynPayload::MapDyn(a.clone()),
            DynPayload::Rec(a) => DynPayload::Rec(a.clone()),
            DynPayload::Raw(a) => DynPayload::Raw(a.clone()),
            DynPayload::Unit => DynPayload::Unit,
        }
    }
}

/// The mathematical model of a payload.
pub enum PayloadModel {
    Prim(PrimModel),
    ListP(PrimKind, Seq<PrimModel>),
    MapP(PrimKind, Seq<(Seq<char>, PrimModel)>),
    MapDyn(Seq<(Seq<char>, PrimModel)>),
    Rec(Seq<char>, Seq<PrimModel>),
    Raw(Seq<u8>),
    Unit,
}

impl View for DynPayload {
    type V = PayloadModel;

    open spec fn view(&self) -> PayloadModel {
        match self {
            DynPayload::Prim(p) => PayloadModel::Prim(p@),
            DynPayload::ListP(l) => PayloadModel::ListP(l@.0, l@.1),
            DynPayload::MapP(m) => PayloadModel::MapP(m@.0, m@.1),
            DynPayload::MapDyn(a) => PayloadModel::MapDyn(
                a@.map_values(|kv: (Seq<char>, PrimValue)| (kv.0, kv.1@)),
            ),
            DynPayload::Rec(a) => PayloadModel::Rec(a@.0, a@.1),
            DynPayload::Raw(a) => PayloadModel::Raw(a@),
            DynPayload::Unit => PayloadModel::Unit,
        }
    }
}

/// The type name of a primitive kind, as the registry records it.
pub open spec fn spec_kind_type_name(k: PrimKind) -> Seq<char> {
    match k {
        PrimKind::Int32 => "i32"@,
        PrimKind::Int64 => "i64"@,
        PrimKind::Float32 => "f32"@,
        PrimKind::Float64 => "f64"@,
        PrimKind::Boolean => "bool"@,
        PrimKind::Text => "alloc::string::String"@,
        PrimKind::Unit => "()"@,
    }
}

/// Exec form of [`spec_kind_type_name`].
pub fn kind_type_name(k: PrimKind) -> (r: &'static str)
    ensures
        r@ == spec_kind_type_name(k),
{
    match k {
        PrimKind::Int32 => "i32",
        PrimKind::Int64 => "i64",
        PrimKind::Float32 => "f32",
        PrimKind::Float64 => "f64",
        PrimKind::Boolean => "bool",
        PrimKind::Text => "alloc::string::String",
        PrimKind::Unit => "()",
    }
}

/// The type name of a homogeneous list of the given element kind.
pub open spec fn spec_list_type_name(k: PrimKind) -> Seq<char> {
    match k {
        PrimKind::Int32 => "alloc::vec::Vec<i32>"@,
        PrimKind::Int64 => "alloc::vec::Vec<i64>"@,
        PrimKind::Float32 => "alloc::vec::Vec<f32>"@,
        PrimKind::Float64 => "alloc::vec::Vec<f64>"@,
        PrimKind::Boolean => "alloc::vec::Vec<bool>"@,
        PrimKind::Text => "alloc::vec::Vec<alloc::string::String>"@,
        PrimKind::Unit => "alloc::vec::Vec<()>"@,
    }
}

/// Exec form of [`spec_list_type_name`].
pub fn list_type_name(k: PrimKind) -> (r: &'static str)
    ensures
        r@ == spec_list_type_name(k),
{
    match k {
        PrimKind::Int32 => "alloc::vec::Vec<i32>",
        PrimKind::Int64 => "alloc::vec::Vec<i64>",
        PrimKind::Float32 => "alloc::vec::Vec<f32>",
        PrimKind::Float64 => "alloc::vec::Vec<f64>",
        PrimKind::Boolean => "alloc::vec::Vec<bool>",
        PrimKind::Text => "alloc::vec::Vec<alloc::string::String>",
        PrimKind::Unit => "alloc::vec::Vec<()>",
    }
}

/// The type name of a homogeneous string-keyed map of the given value
/// kind.
pub open spec fn spec_map_type_name(k: PrimKind) -> Seq<char> {
    match k {
        PrimKind::Int32 => "std::collections::hash::map::HashMap<alloc::string::String, i32>"@,
        PrimKind::Int64 => "std::collections::hash::map::HashMap<alloc::string::String, i64>"@,
        PrimKind::Float32 => "std::collections::hash::map::HashMap<alloc::string::String, f32>"@,
        PrimKind::Float64 => "std::collections::hash::map::HashMap<alloc::string::String, f64>"@,
        PrimKind::Boolean => "std::collections::hash::map::HashMap<alloc::string::String, bool>"@,
        PrimKind::Text => "std::collections::hash::map::HashMap<alloc::string::String, alloc::string::String>"@,
        PrimKind::Unit => "std::collections::hash::map::HashMap<alloc::string::String, ()>"@,
    }
}

/// Exec form of [`spec_map_type_name`].
pub fn map_type_name(k: PrimKind) -> (r: &'static str)
    ensures
        r@ == spec_map_type_name(k),
{
    match k {
        PrimKind::Int32 => "std::collections::hash::map::HashMap<alloc::string::String, i32>",
        PrimKind::Int64 => "std::collections::hash::map::HashMap<alloc::string::String, i64>",
        PrimKind::Float32 => "std::collections::hash::map::HashMap<alloc::string::String, f32>",
        PrimKind::Float64 => "std::collections::hash::map::HashMap<alloc::string::String, f64>",
        PrimKind::Boolean => "std::collections::hash::map::HashMap<alloc::string::String, bool>",
        PrimKind::Text => "std::collections::hash::map::HashMap<alloc::string::String, alloc::string::String>",
        PrimKind::Unit => "std::collections::hash::map::HashMap<alloc::string::String, ()>",
    }
}

/// The type name of the mixed-value map.
pub open spec fn spec_dyn_map_type_name() -> Seq<char> {
    "runar_common::types::VMap"@
}

/// Exec form of [`spec_dyn_map_type_name`].
pub fn dyn_map_type_name() -> (r: &'static str)
    ensures
        r@ == spec_dyn_map_type_name(),
{
    "runar_common::types::VMap"
}

/// The type name of the raw byte blob payload.
pub open spec fn spec_raw_type_name() -> Seq<char> {
    "alloc::vec::Vec<u8>"@
}

/// Exec form of [`spec_raw_type_name`].
pub fn raw_type_name() -> (r: &'static str)
    ensures
        r@ == spec_raw_type_name(),
{
    "alloc::vec::Vec<u8>"
}

/// The recorded type name of a payload.
pub open spec fn spec_payload_type_name(m: PayloadModel) -> Seq<char> {
    match m {
        PayloadModel::Prim(p) => spec_kind_type_name(kind_of_model(p)),
        PayloadModel::ListP(k, _) => spec_list_type_name(k),
        PayloadModel::MapP(k, _) => spec_map_type_name(k),
        PayloadModel::MapDyn(_) => spec_dyn_map_type_name(),
        PayloadModel::Rec(name, _) => name,
        PayloadModel::Raw(_) => spec_raw_type_name(),
        PayloadModel::Unit => spec_kind_type_name(PrimKind::Unit),
    }
}

impl DynPayload {
    /// The recorded type name of this payload.
    pub fn payload_type_name(&self) -> (r: String)
        ensures
            r@ == spec_payload_type_name(self@),
    {
        match self {
            DynPayload::Prim(p) => {
                let k = match p {
                    PrimArc::Int32(_) => PrimKind::Int32,
                    PrimArc::Int64(_) => PrimKind::Int64,
                    PrimArc::Float32(_) => PrimKind::Float32,
                    PrimArc::Float64(_) => PrimKind::Float64,
                    PrimArc::Boolean(_) => PrimKind::Boolean,
                    PrimArc::Text(_) => PrimKind::Text,
                };
                String::from_str(kind_type_name(k))
            },
            DynPayload::ListP(l) => {
                let k = match l {
                    ListArc::Int32(_) => PrimKind::Int32,
                    ListArc::Int64(_) => PrimKind::Int64,
                    ListArc::Float32(_) => PrimKind::Float32,
                    ListArc::Float64(_) => PrimKind::Float64,
                    ListArc::Boolean(_) => PrimKind::Boolean,
                    ListArc::Text(_) => PrimKind::Text,
                };
                String::from_str(list_type_name(k))
            },
            DynPayload::MapP(m) => {
                let k = match m {
                    MapArc::Int32(_) => PrimKind::Int32,
                    MapArc::Int64(_) => PrimKind::Int64,
                    MapArc::Float32(_) => PrimKind::Float32,
                    MapArc::Float64(_) => PrimKind::Float64,
                    MapArc::Boolean(_) => PrimKind::Boolean,
                    MapArc::Text(_) => PrimKind::Text,
                };
                String::from_str(map_type_name(k))
            },
            DynPayload::MapDyn(_) => String::from_str(dyn_map_type_name()),
            DynPayload::Rec(r) => r.type_name_str.clone(),
            DynPayload::Raw(_) => String::from_str(raw_type_name()),
            DynPayload::Unit => String::from_str(kind_type_name(PrimKind::Unit)),
        }
    }
}

/// The category a freshly built payload naturally belongs to.
pub open spec fn spec_natural_category(m: PayloadModel) -> crate::category::ValueCategory {
    match m {
        PayloadModel::Prim(_) => crate::category::ValueCategory::Primitive,
        PayloadModel::ListP(_, _) => crate::category::ValueCategory::List,
        PayloadModel::MapP(_, _) => crate::category::ValueCategory::Mapping,
        PayloadModel::MapDyn(_) => crate::category::ValueCategory::Mapping,
        PayloadModel::Rec(_, _) => crate::category::ValueCategory::Struct,
        PayloadModel::Raw(_) => crate::category::ValueCategory::Bytes,
        PayloadModel::Unit => crate::category::ValueCategory::Null,
    }
}

/// A built-in type the container can hold directly: the bridge between a
/// concrete Rust type and the closed payload family.
pub trait PrimType: Sized {
    /// The primitive kind of this type.
    spec fn kind_spec() -> PrimKind;

    /// The model a value of this type stands for.
    spec fn model_of(v: Self) -> PrimModel;

    /// The model always has this type's kind.
    proof fn lemma_model_kind(v: Self)
        ensures
            kind_of_model(Self::model_of(v)) == Self::kind_spec(),
    ;

    /// A built-in type is never the unit kind; the null value has no
    /// concrete carrier type.
    proof fn lemma_kind_not_unit()
        ensures
            Self::kind_spec() != PrimKind::Unit,
    ;

    /// Exec form of [`PrimType::kind_spec`].
    fn kind() -> (k: PrimKind)
        ensures
            k == Self::kind_spec(),
    ;

    /// The registered type name of this type.
    fn type_name_str() -> (r: &'static str)
        ensures
            r@ == spec_kind_type_name(Self::kind_spec()),
    ;

    /// Embed a value into the primitive family.
    fn to_prim(v: Self) -> (p: PrimValue)
        ensures
            p@ == Self::model_of(v),
    ;

    /// Project a primitive back; fails exactly on a kind mismatch.
    fn from_prim(p: &PrimValue) -> (r: Option<Self>)
        ensures
            match r {
                Some(v) => Self::model_of(v) == p@,
                None => kind_of_model(p@) != Self::kind_spec(),
            },
    ;

    /// A copy with the same model.
    fn clone_val(v: &Self) -> (r: Self)
        ensures
            Self::model_of(r) == Self::model_of(*v),
    ;

    /// Wrap a shared single value into a payload.
    fn wrap_arc(a: Arc<Self>) -> (d: DynPayload)
        ensures
            d@ == PayloadModel::Prim(Self::model_of(*a)),
    ;

    /// Share the single value out of a payload; fails exactly when the
    /// payload is not a primitive of this kind.
    fn extract_arc(d: &DynPayload) -> (r: Option<Arc<Self>>)
        ensures
            match r {
                Some(a) => d@ == PayloadModel::Prim(Self::model_of(*a)),
                None => match d@ {
                    PayloadModel::Prim(m) => kind_of_model(m) != Self::kind_spec(),
                    _ => true,
                },
            },
    ;

    /// Wrap a shared list into a payload.
    fn wrap_list(a: Arc<Vec<Self>>) -> (d: DynPayload)
        ensures
            d@ == PayloadModel::ListP(
                Self::kind_spec(),
                a@.map_values(|v: Self| Self::model_of(v)),
            ),
    ;

    /// Share the list out of a payload; fails exactly when the payload is
    /// not a list of this kind.
    fn extract_list(d: &DynPayload) -> (r: Option<Arc<Vec<Self>>>)
        ensures
            match r {
                Some(a) => d@ == PayloadModel::ListP(
                    Self::kind_spec(),
                    a@.map_values(|v: Self| Self::model_of(v)),
                ),
                None => match d@ {
                    PayloadModel::ListP(k, _) => k != Self::kind_spec(),
                    _ => true,
                },
            },
    ;

    /// Wrap a shared map into a payload.
    fn wrap_map(a: Arc<StrMap<Self>>) -> (d: DynPayload)
        ensures
            d@ == PayloadModel::MapP(
                Self::kind_spec(),
                a@.map_values(|kv: (Seq<char>, Self)| (kv.0, Self::model_of(kv.1))),
            ),
    ;

    /// Share the map out of a payload; fails exactly when the payload is
    /// not a map of this value kind.
    fn extract_map(d: &DynPayload) -> (r: Option<Arc<StrMap<Self>>>)
        ensures
            match r {
                Some(a) => d@ == PayloadModel::MapP(
                    Self::kind_spec(),
                    a@.map_values(|kv: (Seq<char>, Self)| (kv.0, Self::model_of(kv.1))),
                ),
                None => match d@ {
                    PayloadModel::MapP(k, _) => k != Self::kind_spec(),
                    _ => true,
                },
            },
    ;
}



impl PrimType for i32 {
    open spec fn kind_spec() -> PrimKind {
        PrimKind::Int32
    }

    open spec fn model_of(v: i32) -> PrimModel {
        PrimModel::Int32(v)
    }

    proof fn lemma_model_kind(v: i32) {
    }

    proof fn lemma_kind_not_unit() {
    }

    fn kind() -> (k: PrimKind) {
        PrimKind::Int32
    }

    fn type_name_str() -> (r: &'static str) {
        kind_type_name(PrimKind::Int32)
    }

    fn to_prim(v: i32) -> (p: PrimValue) {
        PrimValue::Int32(v)
    }

    fn from_prim(p: &PrimValue) -> (r: Option<i32>) {
        match p {
            PrimValue::Int32(v) => Some(*v),
            _ => None,
        }
    }

    fn clone_val(v: &i32) -> (r: i32) {
        *v
    }

    fn wrap_arc(a: Arc<i32>) -> (d: DynPayload) {
        DynPayload::Prim(PrimArc::Int32(a))
    }

    fn extract_arc(d: &DynPayload) -> (r: Option<Arc<i32>>) {
        match d {
            DynPayload::Prim(PrimArc::Int32(a)) => Some(a.clone()),
            _ => None,
        }
    }

    fn wrap_list(a: Arc<Vec<i32>>) -> (d: DynPayload) {
        proof {
            assert(a@.map_values(|v: i32| PrimModel::Int32(v)) =~= a@.map_values(
                |v: i32| <i32 as PrimType>::model_of(v),
            ));
        }
        DynPayload::ListP(ListArc::Int32(a))
    }

    fn extract_list(d: &DynPayload) -> (r: Option<Arc<Vec<i32>>>) {
        match d {
            DynPayload::ListP(ListArc::Int32(a)) => {
                proof {
                    assert(a@.map_values(|v: i32| PrimModel::Int32(v)) =~= a@.map_values(
                        |v: i32| <i32 as PrimType>::model_of(v),
                    ));
                }
                Some(a.clone())
            },
            _ => None,
        }
    }

    fn wrap_map(a: Arc<StrMap<i32>>) -> (d: DynPayload) {
        proof {
            assert(a@.map_values(|kv: (Seq<char>, i32)| (kv.0, PrimModel::Int32(kv.1))) =~= a@.map_values(
                |kv: (Seq<char>, i32)| (kv.0, <i32 as PrimType>::model_of(kv.1)),
            ));
        }
        DynPayload::MapP(MapArc::Int32(a))
    }

    fn extract_map(d: &DynPayload) -> (r: Option<Arc<StrMap<i32>>>) {
        match d {
            DynPayload::MapP(MapArc::Int32(a)) => {
                proof {
                    assert(a@.map_values(|kv: (Seq<char>, i32)| (kv.0, PrimModel::Int32(kv.1))) =~= a@.map_values(
                        |kv: (Seq<char>, i32)| (kv.0, <i32 as PrimType>::model_of(kv.1)),
                    ));
                }
                Some(a.clone())
            },
            _ => None,
        }
    }
}

impl PrimType for i64 {
    open spec fn kind_spec() -> PrimKind {
        PrimKind::Int64
    }

    open spec fn model_of(v: i64) -> PrimModel {
        PrimModel::Int64(v)
    }

    proof fn lemma_model_kind(v: i64) {
    }

    proof fn lemma_kind_not_unit() {
    }

    fn kind() -> (k: PrimKind) {
        PrimKind::Int64
    }

    fn type_name_str() -> (r: &'static str) {
        kind_type_name(PrimKind::Int64)
    }

    fn to_prim(v: i64) -> (p: PrimValue) {
        PrimValue::Int64(v)
    }

    fn from_prim(p: &PrimValue) -> (r: Option<i64>) {
        match p {
            PrimValue::Int64(v) => Some(*v),
            _ => None,
        }
    }

    fn clone_val(v: &i64) -> (r: i64) {
        *v
    }

    fn wrap_arc(a: Arc<i64>) -> (d: DynPayload) {
        DynPayload::Prim(PrimArc::Int64(a))
    }

    fn extract_arc(d: &DynPayload) -> (r: Option<Arc<i64>>) {
        match d {
            DynPayload::Prim(PrimArc::Int64(a)) => Some(a.clone()),
            _ => None,
        }
    }

    fn wrap_list(a: Arc<Vec<i64>>) -> (d: DynPayload) {
        proof {
            assert(a@.map_values(|v: i64| PrimModel::Int64(v)) =~= a@.map_values(
                |v: i64| <i64 as PrimType>::model_of(v),
            ));
        }
        DynPayload::ListP(ListArc::Int64(a))
    }

    fn extract_list(d: &DynPayload) -> (r: Option<Arc<Vec<i64>>>) {
        match d {
            DynPayload::ListP(ListArc::Int64(a)) => {
                proof {
                    assert(a@.map_values(|v: i64| PrimModel::Int64(v)) =~= a@.map_values(
                        |v: i64| <i64 as PrimType>::model_of(v),
                    ));
                }
                Some(a.clone())
            },
            _ => None,
        }
    }

    fn wrap_map(a: Arc<StrMap<i64>>) -> (d: DynPayload) {
        proof {
            assert(a@.map_values(|kv: (Seq<char>, i64)| (kv.0, PrimModel::Int64(kv.1))) =~= a@.map_values(
                |kv: (Seq<char>, i64)| (kv.0, <i64 as PrimType>::model_of(kv.1)),
            ));
        }
        DynPayload::MapP(MapArc::Int64(a))
    }

    fn extract_map(d: &DynPayload) -> (r: Option<Arc<StrMap<i64>>>) {
        match d {
            DynPayload::MapP(MapArc::Int64(a)) => {
                proof {
                    assert(a@.map_values(|kv: (Seq<char>, i64)| (kv.0, PrimModel::Int64(kv.1))) =~= a@.map_values(
                        |kv: (Seq<char>, i64)| (kv.0, <i64 as PrimType>::model_of(kv.1)),
                    ));
                }
                Some(a.clone())
            },
            _ => None,
        }
    }
}

impl PrimType for F32Bits {
    open spec fn kind_spec() -> PrimKind {
        PrimKind::Float32
    }

    open spec fn model_of(v: F32Bits) -> PrimModel {
        PrimModel::Float32(v.0)
    }

    proof fn lemma_model_kind(v: F32Bits) {
    }

    proof fn lemma_kind_not_unit() {
    }

    fn kind() -> (k: PrimKind) {
        PrimKind::Float32
    }

    fn type_name_str() -> (r: &'static str) {
        kind_type_name(PrimKind::Float32)
    }

    fn to_prim(v: F32Bits) -> (p: PrimValue) {
        PrimValue::Float32(v)
    }

    fn from_prim(p: &PrimValue) -> (r: Option<F32Bits>) {
        match p {
            PrimValue::Float32(v) => Some(*v),
            _ => None,
        }
    }

    fn clone_val(v: &F32Bits) -> (r: F32Bits) {
        *v
    }

    fn wrap_arc(a: Arc<F32Bits>) -> (d: DynPayload) {
        DynPayload::Prim(PrimArc::Float32(a))
    }

    fn extract_arc(d: &DynPayload) -> (r: Option<Arc<F32Bits>>) {
        match d {
            DynPayload::Prim(PrimArc::Float32(a)) => Some(a.clone()),
            _ => None,
        }
    }

    fn wrap_list(a: Arc<Vec<F32Bits>>) -> (d: DynPayload) {
        proof {
            assert(a@.map_values(|v: F32Bits| PrimModel::Float32(v.0)) =~= a@.map_values(
                |v: F32Bits| <F32Bits as PrimType>::model_of(v),
            ));
        }
        DynPayload::ListP(ListArc::Float32(a))
    }

    fn extract_list(d: &DynPayload) -> (r: Option<Arc<Vec<F32Bits>>>) {
        match d {
            DynPayload::ListP(ListArc::Float32(a)) => {
                proof {
                    assert(a@.map_values(|v: F32Bits| PrimModel::Float32(v.0)) =~= a@.map_values(
                        |v: F32Bits| <F32Bits as PrimType>::model_of(v),
                    ));
                }
                Some(a.clone())
            },
            _ => None,
        }
    }

    fn wrap_map(a: Arc<StrMap<F32Bits>>) -> (d: DynPayload) {
        proof {
            assert(a@.map_values(|kv: (Seq<char>, F32Bits)| (kv.0, PrimModel::Float32(kv.1.0))) =~= a@.map_values(
                |kv: (Seq<char>, F32Bits)| (kv.0, <F32Bits as PrimType>::model_of(kv.1)),
            ));
        }
        DynPayload::MapP(MapArc::Float32(a))
    }

    fn extract_map(d: &DynPayload) -> (r: Option<Arc<StrMap<F32Bits>>>) {
        match d {
            DynPayload::MapP(MapArc::Float32(a)) => {
                proof {
                    assert(a@.map_values(|kv: (Seq<char>, F32Bits)| (kv.0, PrimModel::Float32(kv.1.0))) =~= a@.map_values(
                        |kv: (Seq<char>, F32Bits)| (kv.0, <F32Bits as PrimType>::model_of(kv.1)),
                    ));
                }
                Some(a.clone())
            },
            _ => None,
        }
    }
}

impl PrimType for F64Bits {
    open spec fn kind_spec() -> PrimKind {
        PrimKind::Float64
    }

    open spec fn model_of(v: F64Bits) -> PrimModel {
        PrimModel::Float64(v.0)
    }

    proof fn lemma_model_kind(v: F64Bits) {
    }

    proof fn lemma_kind_not_unit() {
    }

    fn kind() -> (k: PrimKind) {
        PrimKind::Float64
    }

    fn type_name_str() -> (r: &'static str) {
        kind_type_name(PrimKind::Float64)
    }

    fn to_prim(v: F64Bits) -> (p: PrimValue) {
        PrimValue::Float64(v)
    }

    fn from_prim(p: &PrimValue) -> (r: Option<F64Bits>) {
        match p {
            PrimValue::Float64(v) => Some(*v),
            _ => None,
        }
    }

    fn clone_val(v: &F64Bits) -> (r: F64Bits) {
        *v
    }

    fn wrap_arc(a: Arc<F64Bits>) -> (d: DynPayload) {
        DynPayload::Prim(PrimArc::Float64(a))
    }

    fn extract_arc(d: &DynPayload) -> (r: Option<Arc<F64Bits>>) {
        match d {
            DynPayload::Prim(PrimArc::Float64(a)) => Some(a.clone()),
            _ => None,
        }
    }

    fn wrap_list(a: Arc<Vec<F64Bits>>) -> (d: DynPayload) {
        proof {
            assert(a@.map_values(|v: F64Bits| PrimModel::Float64(v.0)) =~= a@.map_values(
                |v: F64Bits| <F64Bits as PrimType>::model_of(v),
            ));
        }
        DynPayload::ListP(ListArc::Float64(a))
    }

    fn extract_list(d: &DynPayload) -> (r: Option<Arc<Vec<F64Bits>>>) {
        match d {
            DynPayload::ListP(ListArc::Float64(a)) => {
                proof {
                    assert(a@.map_values(|v: F64Bits| PrimModel::Float64(v.0)) =~= a@.map_values(
                        |v: F64Bits| <F64Bits as PrimType>::model_of(v),
                    ));
                }
                Some(a.clone())
            },
            _ => None,
        }
    }

    fn wrap_map(a: Arc<StrMap<F64Bits>>) -> (d: DynPayload) {
        proof {
            assert(a@.map_values(|kv: (Seq<char>, F64Bits)| (kv.0, PrimModel::Float64(kv.1.0))) =~= a@.map_values(
                |kv: (Seq<char>, F64Bits)| (kv.0, <F64Bits as PrimType>::model_of(kv.1)),
            ));
        }
        DynPayload::MapP(MapArc::Float64(a))
    }

    fn extract_map(d: &DynPayload) -> (r: Option<Arc<StrMap<F64Bits>>>) {
        match d {
            DynPayload::MapP(MapArc::Float64(a)) => {
                proof {
                    assert(a@.map_values(|kv: (Seq<char>, F64Bits)| (kv.0, PrimModel::Float64(kv.1.0))) =~= a@.map_values(
                        |kv: (Seq<char>, F64Bits)| (kv.0, <F64Bits as PrimType>::model_of(kv.1)),
                    ));
                }
                Some(a.clone())
            },
            _ => None,
        }
    }
}

impl PrimType for bool {
    open spec fn kind_spec() -> PrimKind {
        PrimKind::Boolean
    }

    open spec fn model_of(v: bool) -> PrimModel {
        PrimModel::Boolean(v)
    }

    proof fn lemma_model_kind(v: bool) {
    }

    proof fn lemma_kind_not_unit() {
    }

    fn kind() -> (k: PrimKind) {
        PrimKind::Boolean
    }

    fn type_name_str() -> (r: &'static str) {
        kind_type_name(PrimKind::Boolean)
    }

    fn to_prim(v: bool) -> (p: PrimValue) {
        PrimValue::Boolean(v)
    }

    fn from_prim(p: &PrimValue) -> (r: Option<bool>) {
        match p {
            PrimValue::Boolean(v) => Some(*v),
            _ => None,
        }
    }

    fn clone_val(v: &bool) -> (r: bool) {
        *v
    }

    fn wrap_arc(a: Arc<bool>) -> (d: DynPayload) {
        DynPayload::Prim(PrimArc::Boolean(a))
    }

    fn extract_arc(d: &DynPayload) -> (r: Option<Arc<bool>>) {
        match d {
            DynPayload::Prim(PrimArc::Boolean(a)) => Some(a.clone()),
            _ => None,
        }
    }

    fn wrap_list(a: Arc<Vec<bool>>) -> (d: DynPayload) {
        proof {
            assert(a@.map_values(|v: bool| PrimModel::Boolean(v)) =~= a@.map_values(
                |v: bool| <bool as PrimType>::model_of(v),
            ));
        }
        DynPayload::ListP(ListArc::Boolean(a))
    }

    fn extract_list(d: &DynPayload) -> (r: Option<Arc<Vec<bool>>>) {
        match d {
            DynPayload::ListP(ListArc::Boolean(a)) => {
                proof {
                    assert(a@.map_values(|v: bool| PrimModel::Boolean(v)) =~= a@.map_values(
                        |v: bool| <bool as PrimType>::model_of(v),
                    ));
                }
                Some(a.clone())
            },
            _ => None,
        }
    }

    fn wrap_map(a: Arc<StrMap<bool>>) -> (d: DynPayload) {
        proof {
            assert(a@.map_values(|kv: (Seq<char>, bool)| (kv.0, PrimModel::Boolean(kv.1))) =~= a@.map_values(
                |kv: (Seq<char>, bool)| (kv.0, <bool as PrimType>::model_of(kv.1)),
            ));
        }
        DynPayload::MapP(MapArc::Boolean(a))
    }

    fn extract_map(d: &DynPayload) -> (r: Option<Arc<StrMap<bool>>>) {
        match d {
            DynPayload::MapP(MapArc::Boolean(a)) => {
                proof {
                    assert(a@.map_values(|kv: (Seq<char>, bool)| (kv.0, PrimModel::Boolean(kv.1))) =~= a@.map_values(
                        |kv: (Seq<char>, bool)| (kv.0, <bool as PrimType>::model_of(kv.1)),
                    ));
                }
                Some(a.clone())
            },
            _ => None,
        }
    }
}

impl PrimType for String {
    open spec fn kind_spec() -> PrimKind {
        PrimKind::Text
    }

    open spec fn model_of(v: String) -> PrimModel {
        PrimModel::Text(v@)
    }

    proof fn lemma_model_kind(v: String) {
    }

    proof fn lemma_kind_not_unit() {
    }

    fn kind() -> (k: PrimKind) {
        PrimKind::Text
    }

    fn type_name_str() -> (r: &'static str) {
        kind_type_name(PrimKind::Text)
    }

    fn to_prim(v: String) -> (p: PrimValue) {
        PrimValue::Text(v)
    }

    fn from_prim(p: &PrimValue) -> (r: Option<String>) {
        match p {
            PrimValue::Text(v) => Some(v.clone()),
            _ => None,
        }
    }

    fn clone_val(v: &String) -> (r: String) {
        v.clone()
    }

    fn wrap_arc(a: Arc<String>) -> (d: DynPayload) {
        DynPayload::Prim(PrimArc::Text(a))
    }

    fn extract_arc(d: &DynPayload) -> (r: Option<Arc<String>>) {
        match d {
            DynPayload::Prim(PrimArc::Text(a)) => Some(a.clone()),
            _ => None,
        }
    }

    fn wrap_list(a: Arc<Vec<String>>) -> (d: DynPayload) {
        proof {
            assert(a@.map_values(|v: String| PrimModel::Text(v@)) =~= a@.map_values(
                |v: String| <String as PrimType>::model_of(v),
            ));
        }
        DynPayload::ListP(ListArc::Text(a))
    }

    fn extract_list(d: &DynPayload) -> (r: Option<Arc<Vec<String>>>) {
        match d {
            DynPayload::ListP(ListArc::Text(a)) => {
                proof {
                    assert(a@.map_values(|v: String| PrimModel::Text(v@)) =~= a@.map_values(
                        |v: String| <String as PrimType>::model_of(v),
                    ));
                }
                Some(a.clone())
            },
            _ => None,
        }
    }

    fn wrap_map(a: Arc<StrMap<String>>) -> (d: DynPayload) {
        proof {
            assert(a@.map_values(|kv: (Seq<char>, String)| (kv.0, PrimModel::Text(kv.1@))) =~= a@.map_values(
                |kv: (Seq<char>, String)| (kv.0, <String as PrimType>::model_of(kv.1)),
            ));
        }
        DynPayload::MapP(MapArc::Text(a))
    }

    fn extract_map(d: &DynPayload) -> (r: Option<Arc<StrMap<String>>>) {
        match d {
            DynPayload::MapP(MapArc::Text(a)) => {
                proof {
                    assert(a@.map_values(|kv: (Seq<char>, String)| (kv.0, PrimModel::Text(kv.1@))) =~= a@.map_values(
                        |kv: (Seq<char>, String)| (kv.0, <String as PrimType>::model_of(kv.1)),
                    ));
                }
                Some(a.clone())
            },
            _ => None,
        }
    }
}

} // verus!
