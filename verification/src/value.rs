//! The tagged dynamic value: a category plus one erased container.
//!
//! Constructors wrap concrete payloads eagerly. Values reconstructed from
//! wire bytes keep their payload as an undecoded byte range; the typed
//! accessors resolve such a range on first use, replace it in place with
//! the decoded eager payload, and from then on hand out handles to that
//! one allocation.

use crate::category::ValueCategory;
use crate::erased::{ErasedArc, ErasedModel};
use crate::errors::ValueError;
use crate::payload::{
    dyn_map_type_name, list_type_name, map_type_name, spec_dyn_map_type_name,
    spec_kind_type_name, spec_list_type_name, spec_map_type_name, spec_payload_type_name,
    spec_raw_type_name, raw_type_name, DynPayload, PayloadModel, PrimType, RecordType,
    RecordValue,
};
use crate::prim::{kind_of_model, PrimValue};
use crate::strmap::StrMap;
use crate::textutil::spec_names_compatible;
use crate::wire::{decode_payload, spec_decode_payload, CodecKind, CodecKindModel};
use std::sync::Arc;
use vstd::prelude::*;

verus! {

/// The model of a tagged value.
pub struct ValueModel {
    /// The category tag.
    pub category: ValueCategory,
    /// The erased container's model.
    pub body: ErasedModel,
}

/// A type-erased value container with reference-counted identity.
#[derive(Debug)]
pub struct ArcValueType {
    /// Categorizes the value for dispatch.
    pub category: ValueCategory,
    /// The contained type-erased value.
    pub value: ErasedArc,
}

impl View for ArcValueType {
    type V = ValueModel;

    open spec fn view(&self) -> ValueModel {
        ValueModel { category: self.category, body: self.value@ }
    }
}

impl PartialEq for ArcValueType {
    /// Equality is an identity and type check, not a deep structural
    /// comparison: the categories must match and the payloads must share
    /// one recorded type name and one allocation. Nothing is claimed of
    /// this operator in contracts, since allocation addresses are not
    /// visible to proofs.
    fn eq(&self, other: &Self) -> bool {
        let categories_match = match (self.category, other.category) {
            (ValueCategory::Primitive, ValueCategory::Primitive) => true,
            (ValueCategory::List, ValueCategory::List) => true,
            (ValueCategory::Mapping, ValueCategory::Mapping) => true,
            (ValueCategory::Struct, ValueCategory::Struct) => true,
            (ValueCategory::Null, ValueCategory::Null) => true,
            (ValueCategory::Bytes, ValueCategory::Bytes) => true,
            _ => false,
        };
        if !categories_match {
            return false;
        }
        self.value.eq_value(&other.value)
    }
}

impl vstd::std_specs::cmp::PartialEqSpecImpl for ArcValueType {
    /// The operator compares allocation identity, which proofs cannot
    /// see; no spec-level meaning is promised for it.
    open spec fn obeys_eq_spec() -> bool {
        false
    }

    open spec fn eq_spec(&self, other: &Self) -> bool {
        self@.category == other@.category
    }
}

impl Clone for ArcValueType {
    /// Cloning is cheap and identity-preserving: the clone shares the
    /// payload allocation (or, for a lazy value, the buffer) of the
    /// original.
    fn clone(&self) -> (r: Self)
        ensures
            r@ == self@,
    {
        ArcValueType { category: self.category, value: self.value.clone() }
    }
}

/// What resolving a value against an expected type name and decoder does:
/// the container model after the call, and whether the payload came out.
pub enum ResolveOutcome {
    /// The payload is eager after the call.
    Resolved(PayloadModel),
    /// The recorded type name is incompatible with the requested one; the
    /// container is untouched.
    Mismatch,
    /// The undecoded bytes failed to decode; the container is untouched.
    Failed,
}

/// The resolution step at the model level: an eager payload stays as it
/// is; an undecoded range is decoded at most this once.
pub open spec fn spec_resolve(
    ck: CodecKindModel,
    expected_name: Seq<char>,
    body: ErasedModel,
) -> (ErasedModel, ResolveOutcome) {
    match body {
        ErasedModel::Eager(_, p) => (body, ResolveOutcome::Resolved(p)),
        ErasedModel::Lazy(n, seg) => if !spec_names_compatible(expected_name, n) {
            (body, ResolveOutcome::Mismatch)
        } else {
            match spec_decode_payload(ck, seg) {
                Some((pm, _)) => (
                    ErasedModel::Eager(spec_payload_type_name(pm), pm),
                    ResolveOutcome::Resolved(pm),
                ),
                None => (body, ResolveOutcome::Failed),
            }
        },
    }
}

impl ArcValueType {
    /// Assemble a value from a container and a category.
    pub fn new(value: ErasedArc, category: ValueCategory) -> (r: ArcValueType)
        ensures
            r@ == (ValueModel { category, body: value@ }),
    {
        ArcValueType { category, value }
    }

    /// A primitive value, wrapped eagerly.
    pub fn new_primitive<T: PrimType>(value: T) -> (r: ArcValueType)
        ensures
            r@.category == ValueCategory::Primitive,
            r@.body == ErasedModel::Eager(
                spec_kind_type_name(T::kind_spec()),
                PayloadModel::Prim(T::model_of(value)),
            ),
    {
        proof {
            T::lemma_model_kind(value);
        }
        let payload = T::wrap_arc(Arc::new(value));
        ArcValueType {
            category: ValueCategory::Primitive,
            value: ErasedArc::new(payload),
        }
    }

    /// A homogeneous list value, wrapped eagerly.
    pub fn new_list<T: PrimType>(values: Vec<T>) -> (r: ArcValueType)
        ensures
            r@.category == ValueCategory::List,
            r@.body == ErasedModel::Eager(
                spec_list_type_name(T::kind_spec()),
                PayloadModel::ListP(T::kind_spec(), values@.map_values(|v: T| T::model_of(v))),
            ),
    {
        let payload = T::wrap_list(Arc::new(values));
        ArcValueType { category: ValueCategory::List, value: ErasedArc::new(payload) }
    }

    /// A homogeneous list value; the by-value spelling of
    /// [`ArcValueType::new_list`].
    pub fn from_list<T: PrimType>(values: Vec<T>) -> (r: ArcValueType)
        ensures
            r@.category == ValueCategory::List,
            r@.body == ErasedModel::Eager(
                spec_list_type_name(T::kind_spec()),
                PayloadModel::ListP(T::kind_spec(), values@.map_values(|v: T| T::model_of(v))),
            ),
    {
        ArcValueType::new_list(values)
    }

    /// A homogeneous string-keyed map value, wrapped eagerly.
    pub fn new_map<T: PrimType>(map: StrMap<T>) -> (r: ArcValueType)
        ensures
            r@.category == ValueCategory::Mapping,
            r@.body == ErasedModel::Eager(
                spec_map_type_name(T::kind_spec()),
                PayloadModel::MapP(
                    T::kind_spec(),
                    map@.map_values(|kv: (Seq<char>, T)| (kv.0, T::model_of(kv.1))),
                ),
            ),
    {
        let payload = T::wrap_map(Arc::new(map));
        ArcValueType { category: ValueCategory::Mapping, value: ErasedArc::new(payload) }
    }

    /// A homogeneous map value; the by-value spelling of
    /// [`ArcValueType::new_map`].
    pub fn from_map<T: PrimType>(map: StrMap<T>) -> (r: ArcValueType)
        ensures
            r@.category == ValueCategory::Mapping,
            r@.body == ErasedModel::Eager(
                spec_map_type_name(T::kind_spec()),
                PayloadModel::MapP(
                    T::kind_spec(),
                    map@.map_values(|kv: (Seq<char>, T)| (kv.0, T::model_of(kv.1))),
                ),
            ),
    {
        ArcValueType::new_map(map)
    }

    /// A string-keyed map of mixed primitive values, wrapped eagerly.
    pub fn from_dyn_map(map: StrMap<PrimValue>) -> (r: ArcValueType)
        ensures
            r@.category == ValueCategory::Mapping,
            r@.body == ErasedModel::Eager(
                spec_dyn_map_type_name(),
                PayloadModel::MapDyn(
                    map@.map_values(|kv: (Seq<char>, PrimValue)| (kv.0, kv.1@)),
                ),
            ),
    {
        let payload = DynPayload::MapDyn(Arc::new(map));
        ArcValueType { category: ValueCategory::Mapping, value: ErasedArc::new(payload) }
    }

    /// A user-defined record value, wrapped eagerly.
    pub fn from_struct(value: RecordValue) -> (r: ArcValueType)
        ensures
            r@.category == ValueCategory::Struct,
            r@.body == ErasedModel::Eager(value@.0, PayloadModel::Rec(value@.0, value@.1)),
    {
        let payload = DynPayload::Rec(Arc::new(value));
        ArcValueType { category: ValueCategory::Struct, value: ErasedArc::new(payload) }
    }

    /// A raw byte blob, wrapped eagerly.
    pub fn new_bytes(bytes: Vec<u8>) -> (r: ArcValueType)
        ensures
            r@.category == ValueCategory::Bytes,
            r@.body == ErasedModel::Eager(spec_raw_type_name(), PayloadModel::Raw(bytes@)),
    {
        let payload = DynPayload::Raw(Arc::new(bytes));
        ArcValueType { category: ValueCategory::Bytes, value: ErasedArc::new(payload) }
    }

    /// The null value.
    pub fn null() -> (r: ArcValueType)
        ensures
            r@.category == ValueCategory::Null,
            r@.body == ErasedModel::Eager(
                spec_kind_type_name(crate::prim::PrimKind::Unit),
                PayloadModel::Unit,
            ),
    {
        ArcValueType { category: ValueCategory::Null, value: ErasedArc::new(DynPayload::Unit) }
    }

    /// True iff the category is Null.
    pub fn is_null(&self) -> (r: bool)
        ensures
            r == (self@.category == ValueCategory::Null),
    {
        match self.category {
            ValueCategory::Null => true,
            _ => false,
        }
    }

    /// Resolve an undecoded payload in place against an expected type name
    /// and decoder. An eager payload is untouched; a lazy one is checked
    /// for name compatibility, decoded, and replaced by the decoded eager
    /// payload.
    fn resolve_with(&mut self, ck: &CodecKind, expected_name: &str) -> (r: Result<
        (),
        ValueError,
    >)
        ensures
            final(self)@.category == old(self)@.category,
            final(self)@.body == spec_resolve(ck@, expected_name@, old(self)@.body).0,
            ({
                let outcome = spec_resolve(ck@, expected_name@, old(self)@.body).1;
                match r {
                    Ok(()) => outcome is Resolved,
                    Err(e) => match outcome {
                        ResolveOutcome::Resolved(_) => false,
                        ResolveOutcome::Mismatch => e matches ValueError::TypeMismatch {
                            expected,
                            actual,
                        } && expected@ == expected_name@ && actual@ == old(self)@.body.name(),
                        ResolveOutcome::Failed => e matches ValueError::DecodeError {
                            type_name_str,
                        } && type_name_str@ == old(self)@.body.name(),
                    },
                }
            }),
    {
        if !self.value.is_lazy() {
            return Ok(());
        }
        let lazy = match self.value.get_lazy_data() {
            Ok(l) => l,
            Err(e) => {
                proof {
                    assert(false);
                }
                return Err(e);
            },
        };
        if !crate::textutil::compare_type_names(expected_name, lazy.type_name_str.as_str()) {
            return Err(
                ValueError::TypeMismatch {
                    expected: expected_name.to_owned(),
                    actual: lazy.type_name_str.clone(),
                },
            );
        }
        let buf: &Vec<u8> = &lazy.original_buffer;
        let seg = vstd::slice::slice_subrange(buf.as_slice(), lazy.start_offset, lazy.end_offset);
        proof {
            assert(seg@ =~= lazy.spec_segment());
            assert(seg@.subrange(0, seg@.len() as int) =~= seg@);
        }
        match decode_payload(ck, seg, 0) {
            Some((payload, _)) => {
                self.value = ErasedArc::new(payload);
                Ok(())
            },
            None => Err(ValueError::DecodeError { type_name_str: lazy.type_name_str.clone() }),
        }
    }
}

impl ArcValueType {
    /// A typed handle to the primitive payload, resolving an undecoded
    /// range on first use. Repeated calls on the same instance share one
    /// allocation; a failed call leaves the value exactly as it was.
    pub fn as_type_ref<T: PrimType>(&mut self) -> (r: Result<Arc<T>, ValueError>)
        ensures
            final(self)@.category == old(self)@.category,
            ({
                let rs = spec_resolve(
                    CodecKindModel::Prim(T::kind_spec()),
                    spec_kind_type_name(T::kind_spec()),
                    old(self)@.body,
                );
                &&& final(self)@.body == (if r is Ok {
                    rs.0
                } else {
                    old(self)@.body
                })
                &&& match r {
                    Ok(a) => rs.1 == ResolveOutcome::Resolved(
                        PayloadModel::Prim(T::model_of(*a)),
                    ),
                    Err(e) => match rs.1 {
                        ResolveOutcome::Resolved(p) => (e matches ValueError::TypeMismatch {
                            expected,
                            actual,
                        } && expected@ == spec_kind_type_name(T::kind_spec()) && actual@ == old(
                            self,
                        )@.body.name()) && (match p {
                            PayloadModel::Prim(m) => kind_of_model(m) != T::kind_spec(),
                            _ => true,
                        }),
                        ResolveOutcome::Mismatch => e matches ValueError::TypeMismatch {
                            expected,
                            actual,
                        } && expected@ == spec_kind_type_name(T::kind_spec()) && actual@ == old(
                            self,
                        )@.body.name(),
                        ResolveOutcome::Failed => e matches ValueError::DecodeError {
                            type_name_str,
                        } && type_name_str@ == old(self)@.body.name(),
                    },
                }
            }),
    {
        let ck = CodecKind::Prim(T::kind());
        match self.resolve_with(&ck, T::type_name_str()) {
            Err(e) => Err(e),
            Ok(()) => {
                proof {
                    T::lemma_kind_not_unit();
                    if old(self)@.body is Lazy {
                        crate::wire::lemma_decode_prim_shape(
                            T::kind_spec(),
                            old(self)@.body->Lazy_1,
                        );
                    }
                }
                let actual = self.value.type_name_str().to_owned();
                match self.value.as_any() {
                    Ok(p) => match T::extract_arc(p) {
                        Some(a) => Ok(a),
                        None => Err(
                            ValueError::TypeMismatch {
                                expected: String::from_str(T::type_name_str()),
                                actual,
                            },
                        ),
                    },
                    Err(e) => {
                        proof {
                            assert(false);
                        }
                        Err(e)
                    },
                }
            },
        }
    }

    /// The primitive payload by value: resolves like
    /// [`ArcValueType::as_type_ref`], then copies the shared value out.
    pub fn as_type<T: PrimType>(&mut self) -> (r: Result<T, ValueError>)
        ensures
            final(self)@.category == old(self)@.category,
            ({
                let rs = spec_resolve(
                    CodecKindModel::Prim(T::kind_spec()),
                    spec_kind_type_name(T::kind_spec()),
                    old(self)@.body,
                );
                match r {
                    Ok(v) => rs.1 == ResolveOutcome::Resolved(
                        PayloadModel::Prim(T::model_of(v)),
                    ) && final(self)@.body == rs.0,
                    Err(e) => final(self)@.body == old(self)@.body && (match rs.1 {
                        ResolveOutcome::Resolved(p) => (e matches ValueError::TypeMismatch {
                            ..
                        }) && (match p {
                            PayloadModel::Prim(m) => kind_of_model(m) != T::kind_spec(),
                            _ => true,
                        }),
                        ResolveOutcome::Mismatch => e matches ValueError::TypeMismatch { .. },
                        ResolveOutcome::Failed => e matches ValueError::DecodeError { .. },
                    }),
                }
            }),
    {
        match self.as_type_ref::<T>() {
            Ok(a) => Ok(T::clone_val(&a)),
            Err(e) => Err(e),
        }
    }

    /// A shared handle to the list payload, resolving an undecoded range
    /// on first use. Fails with a category mismatch on a value that is not
    /// a list.
    pub fn as_list_ref<T: PrimType>(&mut self) -> (r: Result<Arc<Vec<T>>, ValueError>)
        ensures
            final(self)@.category == old(self)@.category,
            old(self)@.category != ValueCategory::List ==> final(self)@ == old(self)@ && (
            r matches Err(e) && e matches ValueError::CategoryMismatch { requested, held }
                && requested == ValueCategory::List && held == old(self)@.category),
            old(self)@.category == ValueCategory::List ==> ({
                let rs = spec_resolve(
                    CodecKindModel::ListOf(T::kind_spec()),
                    spec_list_type_name(T::kind_spec()),
                    old(self)@.body,
                );
                &&& final(self)@.body == (if r is Ok {
                    rs.0
                } else {
                    old(self)@.body
                })
                &&& match r {
                    Ok(a) => rs.1 == ResolveOutcome::Resolved(
                        PayloadModel::ListP(
                            T::kind_spec(),
                            a@.map_values(|v: T| T::model_of(v)),
                        ),
                    ),
                    Err(e) => match rs.1 {
                        ResolveOutcome::Resolved(p) => (e
                            matches ValueError::TypeMismatch { .. }) && (match p {
                            PayloadModel::ListP(k, _) => k != T::kind_spec(),
                            _ => true,
                        }),
                        ResolveOutcome::Mismatch => e matches ValueError::TypeMismatch {
                            expected,
                            actual,
                        } && expected@ == spec_list_type_name(T::kind_spec()) && actual@ == old(
                            self,
                        )@.body.name(),
                        ResolveOutcome::Failed => e matches ValueError::DecodeError {
                            type_name_str,
                        } && type_name_str@ == old(self)@.body.name(),
                    },
                }
            }),
    {
        match self.category {
            ValueCategory::List => {},
            _ => {
                return Err(
                    ValueError::CategoryMismatch {
                        requested: ValueCategory::List,
                        held: self.category,
                    },
                );
            },
        }
        let ck = CodecKind::ListOf(T::kind());
        match self.resolve_with(&ck, list_type_name(T::kind())) {
            Err(e) => Err(e),
            Ok(()) => {
                let actual = self.value.type_name_str().to_owned();
                match self.value.as_any() {
                    Ok(p) => match T::extract_list(p) {
                        Some(a) => Ok(a),
                        None => Err(
                            ValueError::TypeMismatch {
                                expected: String::from_str(list_type_name(T::kind())),
                                actual,
                            },
                        ),
                    },
                    Err(e) => {
                        proof {
                            assert(false);
                        }
                        Err(e)
                    },
                }
            },
        }
    }

    /// A shared handle to the string-keyed map payload, resolving an
    /// undecoded range on first use. Fails with a category mismatch on a
    /// value that is not a map.
    pub fn as_map_ref<T: PrimType>(&mut self) -> (r: Result<Arc<StrMap<T>>, ValueError>)
        ensures
            final(self)@.category == old(self)@.category,
            old(self)@.category != ValueCategory::Mapping ==> final(self)@ == old(self)@ && (
            r matches Err(e) && e matches ValueError::CategoryMismatch { requested, held }
                && requested == ValueCategory::Mapping && held == old(self)@.category),
            old(self)@.category == ValueCategory::Mapping ==> ({
                let rs = spec_resolve(
                    CodecKindModel::MapOf(T::kind_spec()),
                    spec_map_type_name(T::kind_spec()),
                    old(self)@.body,
                );
                &&& final(self)@.body == (if r is Ok {
                    rs.0
                } else {
                    old(self)@.body
                })
                &&& match r {
                    Ok(a) => rs.1 == ResolveOutcome::Resolved(
                        PayloadModel::MapP(
                            T::kind_spec(),
                            a@.map_values(|kv: (Seq<char>, T)| (kv.0, T::model_of(kv.1))),
                        ),
                    ),
                    Err(e) => match rs.1 {
                        ResolveOutcome::Resolved(p) => (e
                            matches ValueError::TypeMismatch { .. }) && (match p {
                            PayloadModel::MapP(k, _) => k != T::kind_spec(),
                            _ => true,
                        }),
                        ResolveOutcome::Mismatch => e matches ValueError::TypeMismatch {
                            expected,
                            actual,
                        } && expected@ == spec_map_type_name(T::kind_spec()) && actual@ == old(
                            self,
                        )@.body.name(),
                        ResolveOutcome::Failed => e matches ValueError::DecodeError {
                            type_name_str,
                        } && type_name_str@ == old(self)@.body.name(),
                    },
                }
            }),
    {
        match self.category {
            ValueCategory::Mapping => {},
            _ => {
                return Err(
                    ValueError::CategoryMismatch {
                        requested: ValueCategory::Mapping,
                        held: self.category,
                    },
                );
            },
        }
        let ck = CodecKind::MapOf(T::kind());
        match self.resolve_with(&ck, map_type_name(T::kind())) {
            Err(e) => Err(e),
            Ok(()) => {
                let actual = self.value.type_name_str().to_owned();
                match self.value.as_any() {
                    Ok(p) => match T::extract_map(p) {
                        Some(a) => Ok(a),
                        None => Err(
                            ValueError::TypeMismatch {
                                expected: String::from_str(map_type_name(T::kind())),
                                actual,
                            },
                        ),
                    },
                    Err(e) => {
                        proof {
                            assert(false);
                        }
                        Err(e)
                    },
                }
            },
        }
    }

    /// A shared handle to a mixed-value map payload, resolving an
    /// undecoded range on first use.
    pub fn as_dyn_map_ref(&mut self) -> (r: Result<Arc<StrMap<PrimValue>>, ValueError>)
        ensures
            final(self)@.category == old(self)@.category,
            old(self)@.category != ValueCategory::Mapping ==> final(self)@ == old(self)@ && (
            r matches Err(e) && e matches ValueError::CategoryMismatch { requested, held }
                && requested == ValueCategory::Mapping && held == old(self)@.category),
            old(self)@.category == ValueCategory::Mapping ==> ({
                let rs = spec_resolve(
                    CodecKindModel::DynMap,
                    spec_dyn_map_type_name(),
                    old(self)@.body,
                );
                &&& final(self)@.body == (if r is Ok {
                    rs.0
                } else {
                    old(self)@.body
                })
                &&& match r {
                    Ok(a) => rs.1 == ResolveOutcome::Resolved(
                        PayloadModel::MapDyn(
                            a@.map_values(|kv: (Seq<char>, PrimValue)| (kv.0, kv.1@)),
                        ),
                    ),
                    Err(e) => match rs.1 {
                        ResolveOutcome::Resolved(p) => (e
                            matches ValueError::TypeMismatch { .. }) && !(p is MapDyn),
                        ResolveOutcome::Mismatch => e matches ValueError::TypeMismatch {
                            expected,
                            actual,
                        } && expected@ == spec_dyn_map_type_name() && actual@ == old(
                            self,
                        )@.body.name(),
                        ResolveOutcome::Failed => e matches ValueError::DecodeError {
                            type_name_str,
                        } && type_name_str@ == old(self)@.body.name(),
                    },
                }
            }),
    {
        match self.category {
            ValueCategory::Mapping => {},
            _ => {
                return Err(
                    ValueError::CategoryMismatch {
                        requested: ValueCategory::Mapping,
                        held: self.category,
                    },
                );
            },
        }
        let ck = CodecKind::DynMap;
        match self.resolve_with(&ck, dyn_map_type_name()) {
            Err(e) => Err(e),
            Ok(()) => {
                let actual = self.value.type_name_str().to_owned();
                match self.value.as_any() {
                    Ok(p) => match p {
                        DynPayload::MapDyn(a) => Ok(a.clone()),
                        _ => Err(
                            ValueError::TypeMismatch {
                                expected: String::from_str(dyn_map_type_name()),
                                actual,
                            },
                        ),
                    },
                    Err(e) => {
                        proof {
                            assert(false);
                        }
                        Err(e)
                    },
                }
            },
        }
    }

    /// A shared handle to the record payload, resolving an undecoded
    /// range against the expected record description on first use. Fails
    /// with a category mismatch on a value that is not a struct, and with
    /// a type mismatch when the recorded name is incompatible with the
    /// expected one.
    pub fn as_struct_ref(&mut self, expected: &RecordType) -> (r: Result<
        Arc<RecordValue>,
        ValueError,
    >)
        ensures
            final(self)@.category == old(self)@.category,
            old(self)@.category != ValueCategory::Struct ==> final(self)@ == old(self)@ && (
            r matches Err(e) && e matches ValueError::CategoryMismatch { requested, held }
                && requested == ValueCategory::Struct && held == old(self)@.category),
            old(self)@.category == ValueCategory::Struct ==> ({
                let rs = spec_resolve(
                    CodecKindModel::Record(expected@.0, expected@.1),
                    expected@.0,
                    old(self)@.body,
                );
                &&& final(self)@.body == (if r is Ok {
                    rs.0
                } else {
                    old(self)@.body
                })
                &&& match r {
                    Ok(a) => rs.1 == ResolveOutcome::Resolved(PayloadModel::Rec(a@.0, a@.1))
                        && spec_names_compatible(expected@.0, a@.0),
                    Err(e) => match rs.1 {
                        ResolveOutcome::Resolved(p) => (e
                            matches ValueError::TypeMismatch { .. }) && (match p {
                            PayloadModel::Rec(n, _) => !spec_names_compatible(expected@.0, n),
                            _ => true,
                        }),
                        ResolveOutcome::Mismatch => e matches ValueError::TypeMismatch {
                            expected: en,
                            actual,
                        } && en@ == expected@.0 && actual@ == old(self)@.body.name(),
                        ResolveOutcome::Failed => e matches ValueError::DecodeError {
                            type_name_str,
                        } && type_name_str@ == old(self)@.body.name(),
                    },
                }
            }),
    {
        match self.category {
            ValueCategory::Struct => {},
            _ => {
                return Err(
                    ValueError::CategoryMismatch {
                        requested: ValueCategory::Struct,
                        held: self.category,
                    },
                );
            },
        }
        let ck = CodecKind::Record(expected.clone_record_type());
        match self.resolve_with(&ck, expected.name.as_str()) {
            Err(e) => Err(e),
            Ok(()) => {
                let actual = self.value.type_name_str().to_owned();
                match self.value.as_any() {
                    Ok(p) => match p {
                        DynPayload::Rec(a) => {
                            if crate::textutil::compare_type_names(
                                expected.name.as_str(),
                                a.type_name_str.as_str(),
                            ) {
                                Ok(a.clone())
                            } else {
                                Err(
                                    ValueError::TypeMismatch {
                                        expected: expected.name.clone(),
                                        actual,
                                    },
                                )
                            }
                        },
                        _ => Err(
                            ValueError::TypeMismatch { expected: expected.name.clone(), actual },
                        ),
                    },
                    Err(e) => {
                        proof {
                            assert(false);
                        }
                        Err(e)
                    },
                }
            },
        }
    }

    /// A shared handle to the raw byte blob, resolving an undecoded range
    /// on first use.
    pub fn as_bytes_ref(&mut self) -> (r: Result<Arc<Vec<u8>>, ValueError>)
        ensures
            final(self)@.category == old(self)@.category,
            old(self)@.category != ValueCategory::Bytes ==> final(self)@ == old(self)@ && (
            r matches Err(e) && e matches ValueError::CategoryMismatch { requested, held }
                && requested == ValueCategory::Bytes && held == old(self)@.category),
            old(self)@.category == ValueCategory::Bytes ==> ({
                let rs = spec_resolve(
                    CodecKindModel::RawBytes,
                    spec_raw_type_name(),
                    old(self)@.body,
                );
                &&& final(self)@.body == (if r is Ok {
                    rs.0
                } else {
                    old(self)@.body
                })
                &&& match r {
                    Ok(a) => rs.1 == ResolveOutcome::Resolved(PayloadModel::Raw(a@)),
                    Err(e) => match rs.1 {
                        ResolveOutcome::Resolved(p) => (e
                            matches ValueError::TypeMismatch { .. }) && !(p is Raw),
                        ResolveOutcome::Mismatch => e matches ValueError::TypeMismatch { .. },
                        ResolveOutcome::Failed => e matches ValueError::DecodeError { .. },
                    },
                }
            }),
    {
        match self.category {
            ValueCategory::Bytes => {},
            _ => {
                return Err(
                    ValueError::CategoryMismatch {
                        requested: ValueCategory::Bytes,
                        held: self.category,
                    },
                );
            },
        }
        let ck = CodecKind::RawBytes;
        match self.resolve_with(&ck, raw_type_name()) {
            Err(e) => Err(e),
            Ok(()) => {
                let actual = self.value.type_name_str().to_owned();
                match self.value.as_any() {
                    Ok(p) => match p {
                        DynPayload::Raw(a) => Ok(a.clone()),
                        _ => Err(
                            ValueError::TypeMismatch {
                                expected: String::from_str(raw_type_name()),
                                actual,
                            },
                        ),
                    },
                    Err(e) => {
                        proof {
                            assert(false);
                        }
                        Err(e)
                    },
                }
            },
        }
    }
}

/// The display form of a value: lazy values show their reported type name
/// and undecoded size, eager primitives show their contents, and the
/// structured shapes show their recorded type name.
pub open spec fn spec_describe(m: ValueModel) -> Seq<char> {
    match m.body {
        ErasedModel::Lazy(n, seg) => "Lazy<"@ + n + ">(size: "@ + crate::textutil::spec_decimal(
            seg.len() as u64,
        ) + " bytes)"@,
        ErasedModel::Eager(n, p) => match p {
            PayloadModel::Unit => "null"@,
            PayloadModel::Prim(pm) => match pm {
                crate::prim::PrimModel::Text(t) => "\""@ + t + "\""@,
                crate::prim::PrimModel::Int32(v) => crate::textutil::spec_decimal_i64(v as i64),
                crate::prim::PrimModel::Int64(v) => crate::textutil::spec_decimal_i64(v),
                crate::prim::PrimModel::Boolean(b) => if b {
                    "true"@
                } else {
                    "false"@
                },
                _ => "Primitive<"@ + n + ">"@,
            },
            PayloadModel::ListP(_, _) => "List<"@ + n + ">"@,
            PayloadModel::MapP(_, _) => "Map<"@ + n + ">"@,
            PayloadModel::MapDyn(_) => "Map<"@ + n + ">"@,
            PayloadModel::Rec(_, _) => "Struct<"@ + n + ">"@,
            PayloadModel::Raw(b) => "Bytes(size: "@ + crate::textutil::spec_decimal(
                b.len() as u64,
            ) + " bytes)"@,
        },
    }
}

impl ArcValueType {
    /// A human-readable description of the value, exactly as
    /// [`spec_describe`] states it.
    pub fn describe(&self) -> (r: String)
        ensures
            r@ == spec_describe(self@),
    {
        if self.value.is_lazy() {
            let lazy = match self.value.get_lazy_data() {
                Ok(l) => l,
                Err(_) => {
                    proof {
                        assert(false);
                    }
                    return String::new();
                },
            };
            let mut s = String::from_str("Lazy<");
            s.append(lazy.type_name_str.as_str());
            s.append(">(size: ");
            let size = crate::textutil::decimal_string((lazy.end_offset - lazy.start_offset) as u64);
            s.append(size.as_str());
            s.append(" bytes)");
            return s;
        }
        let payload = match self.value.as_any() {
            Ok(p) => p,
            Err(_) => {
                proof {
                    assert(false);
                }
                return String::new();
            },
        };
        match payload {
            DynPayload::Unit => String::from_str("null"),
            DynPayload::Prim(pa) => match pa {
                crate::payload::PrimArc::Text(t) => {
                    let mut s = String::from_str("\"");
                    s.append(t.as_str());
                    s.append("\"");
                    s
                },
                crate::payload::PrimArc::Int32(v) => crate::textutil::decimal_string_i64(
                    **v as i64,
                ),
                crate::payload::PrimArc::Int64(v) => crate::textutil::decimal_string_i64(**v),
                crate::payload::PrimArc::Boolean(b) => {
                    if **b {
                        String::from_str("true")
                    } else {
                        String::from_str("false")
                    }
                },
                _ => {
                    let mut s = String::from_str("Primitive<");
                    s.append(self.value.type_name_str());
                    s.append(">");
                    s
                },
            },
            DynPayload::ListP(_) => {
                let mut s = String::from_str("List<");
                s.append(self.value.type_name_str());
                s.append(">");
                s
            },
            DynPayload::MapP(_) | DynPayload::MapDyn(_) => {
                let mut s = String::from_str("Map<");
                s.append(self.value.type_name_str());
                s.append(">");
                s
            },
            DynPayload::Rec(_) => {
                let mut s = String::from_str("Struct<");
                s.append(self.value.type_name_str());
                s.append(">");
                s
            },
            DynPayload::Raw(b) => {
                let mut s = String::from_str("Bytes(size: ");
                let size = crate::textutil::decimal_string(b.len() as u64);
                s.append(size.as_str());
                s.append(" bytes)");
                s
            },
        }
    }
}

} // verus!
