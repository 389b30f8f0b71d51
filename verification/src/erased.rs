//! The type-erased, reference-counted container.
//!
//! An erased container remembers a runtime type name next to its payload.
//! The payload is either eager (a concrete value behind shared handles) or
//! lazy (an undecoded range of a shared byte buffer). Cloning the container
//! clones the handles, never the data, so every clone keeps pointing at the
//! same allocation.

use crate::errors::ValueError;
use crate::payload::{spec_payload_type_name, DynPayload, PayloadModel};
use crate::shims::{arc_addr, arc_strong_count, arc_weak_count};
use crate::textutil::{compare_type_names, spec_names_compatible};
use std::sync::Arc;
use vstd::prelude::*;

verus! {

/// A deferred-decode descriptor: the reported type name, a shared
/// immutable byte buffer and the `[start, end)` range of the undecoded
/// payload inside it.
#[derive(Debug, Clone)]
pub struct LazyDataWithOffset {
    /// The type name reported by the wire header.
    pub type_name_str: String,
    /// The shared buffer the value was received in.
    pub original_buffer: Arc<Vec<u8>>,
    /// Start of the payload range within the buffer.
    pub start_offset: usize,
    /// End of the payload range within the buffer.
    pub end_offset: usize,
}

impl View for LazyDataWithOffset {
    type V = (Seq<char>, Seq<u8>, int, int);

    open spec fn view(&self) -> (Seq<char>, Seq<u8>, int, int) {
        (self.type_name_str@, self.original_buffer@, self.start_offset as int, self.end_offset as int)
    }
}

impl LazyDataWithOffset {
    /// The range lies inside the buffer.
    pub open spec fn wf(&self) -> bool {
        self.start_offset <= self.end_offset <= self.original_buffer@.len()
    }

    /// The undecoded payload bytes.
    pub open spec fn spec_segment(&self) -> Seq<u8> {
        self.original_buffer@.subrange(self.start_offset as int, self.end_offset as int)
    }
}

/// The model of an erased container: the recorded type name together with
/// either the eager payload or the undecoded segment.
pub enum ErasedModel {
    Eager(Seq<char>, PayloadModel),
    Lazy(Seq<char>, Seq<u8>),
}

impl ErasedModel {
    /// The recorded type name.
    pub open spec fn name(self) -> Seq<char> {
        match self {
            ErasedModel::Eager(n, _) => n,
            ErasedModel::Lazy(n, _) => n,
        }
    }
}

/// The type-erased container: a runtime type name and a shared payload,
/// eager or lazy.
#[derive(Debug)]
pub struct ErasedArc {
    type_name_str: String,
    body: ErasedBody,
}

#[derive(Debug)]
enum ErasedBody {
    Eager(DynPayload),
    Lazy(Arc<LazyDataWithOffset>),
}

impl View for ErasedArc {
    type V = ErasedModel;

    closed spec fn view(&self) -> ErasedModel {
        match self.body {
            ErasedBody::Eager(p) => ErasedModel::Eager(spec_payload_type_name(p@), p@),
            ErasedBody::Lazy(l) => ErasedModel::Lazy(self.type_name_str@, l.spec_segment()),
        }
    }
}

impl Clone for ErasedBody {
    /// Cloning shares the payload allocation.
    fn clone(&self) -> (r: Self)
        ensures
            r == *self,
    {
        match self {
            ErasedBody::Eager(p) => ErasedBody::Eager(p.clone()),
            ErasedBody::Lazy(l) => ErasedBody::Lazy(l.clone()),
        }
    }
}

impl Clone for ErasedArc {
    /// Cloning is identity-preserving: the clone holds a handle to the
    /// very same allocation, never a copy of the data.
    fn clone(&self) -> (r: Self)
        ensures
            r == *self,
    {
        proof {
            use_type_invariant(self);
        }
        ErasedArc { type_name_str: self.type_name_str.clone(), body: self.body.clone() }
    }
}

impl ErasedArc {
    /// The recorded name always describes the payload; a lazy range lies
    /// inside its buffer.
    #[verifier::type_invariant]
    pub closed spec fn wf(&self) -> bool {
        match self.body {
            ErasedBody::Eager(p) => self.type_name_str@ == spec_payload_type_name(p@),
            ErasedBody::Lazy(l) => l.wf() && self.type_name_str@ == l.type_name_str@,
        }
    }

    /// Wrap an eager payload; the recorded type name is the payload's own.
    pub fn new(payload: DynPayload) -> (r: ErasedArc)
        ensures
            r@ == ErasedModel::Eager(spec_payload_type_name(payload@), payload@),
    {
        let name = payload.payload_type_name();
        ErasedArc { type_name_str: name, body: ErasedBody::Eager(payload) }
    }

    /// Wrap an eager payload. Same as [`ErasedArc::new`]; kept as the
    /// by-value spelling.
    pub fn from_value(payload: DynPayload) -> (r: ErasedArc)
        ensures
            r@ == ErasedModel::Eager(spec_payload_type_name(payload@), payload@),
    {
        ErasedArc::new(payload)
    }

    /// Wrap an eager payload handed over as a pre-built container body.
    /// Fails never; the result form mirrors [`ErasedArc::new`].
    pub fn from_boxed_any(payload: DynPayload) -> (r: Result<ErasedArc, ValueError>)
        ensures
            r matches Ok(e) && e@ == ErasedModel::Eager(
                spec_payload_type_name(payload@),
                payload@,
            ),
    {
        Ok(ErasedArc::new(payload))
    }

    /// Wrap a deferred-decode descriptor; the recorded type name is the
    /// descriptor's reported one.
    pub fn from_lazy(lazy: LazyDataWithOffset) -> (r: ErasedArc)
        requires
            lazy.wf(),
        ensures
            r@ == ErasedModel::Lazy(lazy.type_name_str@, lazy.spec_segment()),
    {
        let name = lazy.type_name_str.clone();
        ErasedArc { type_name_str: name, body: ErasedBody::Lazy(Arc::new(lazy)) }
    }

    /// True iff the payload is still an undecoded byte range.
    pub fn is_lazy(&self) -> (r: bool)
        ensures
            r == (self@ is Lazy),
    {
        match &self.body {
            ErasedBody::Eager(_) => false,
            ErasedBody::Lazy(_) => true,
        }
    }

    /// The recorded type name.
    pub fn type_name_str(&self) -> (r: &str)
        ensures
            r@ == self@.name(),
    {
        proof {
            use_type_invariant(self);
        }
        self.type_name_str.as_str()
    }

    /// The eager payload, or the decode error that says the value is still
    /// an undecoded byte range.
    pub fn as_any(&self) -> (r: Result<&DynPayload, ValueError>)
        ensures
            match r {
                Ok(p) => self@ == ErasedModel::Eager(self@.name(), p@),
                Err(e) => self@ is Lazy && e matches ValueError::DecodeError { .. },
            },
    {
        match &self.body {
            ErasedBody::Eager(p) => Ok(p),
            ErasedBody::Lazy(_) => Err(
                ValueError::DecodeError { type_name_str: self.type_name_str.clone() },
            ),
        }
    }

    /// The deferred-decode descriptor, or the decode error that says the
    /// value is eager.
    pub fn get_lazy_data(&self) -> (r: Result<Arc<LazyDataWithOffset>, ValueError>)
        ensures
            match r {
                Ok(l) => {
                    &&& self@ is Lazy
                    &&& l.wf()
                    &&& self@ == ErasedModel::Lazy(l.type_name_str@, l.spec_segment())
                },
                Err(e) => self@ is Eager && e matches ValueError::DecodeError { .. },
            },
    {
        proof {
            use_type_invariant(self);
        }
        match &self.body {
            ErasedBody::Eager(_) => Err(
                ValueError::DecodeError { type_name_str: self.type_name_str.clone() },
            ),
            ErasedBody::Lazy(l) => Ok(l.clone()),
        }
    }

    /// The address of the shared allocation behind the payload, as an
    /// integer; 0 for the null payload. An address says nothing a proof
    /// could rely on; it serves identity checks in diagnostics and tests.
    pub fn as_ptr(&self) -> usize {
        match &self.body {
            ErasedBody::Eager(p) => match p {
                DynPayload::Prim(pa) => match pa {
                    crate::payload::PrimArc::Int32(a) => arc_addr(a),
                    crate::payload::PrimArc::Int64(a) => arc_addr(a),
                    crate::payload::PrimArc::Float32(a) => arc_addr(a),
                    crate::payload::PrimArc::Float64(a) => arc_addr(a),
                    crate::payload::PrimArc::Boolean(a) => arc_addr(a),
                    crate::payload::PrimArc::Text(a) => arc_addr(a),
                },
                DynPayload::ListP(l) => match l {
                    crate::payload::ListArc::Int32(a) => arc_addr(a),
                    crate::payload::ListArc::Int64(a) => arc_addr(a),
                    crate::payload::ListArc::Float32(a) => arc_addr(a),
                    crate::payload::ListArc::Float64(a) => arc_addr(a),
                    crate::payload::ListArc::Boolean(a) => arc_addr(a),
                    crate::payload::ListArc::Text(a) => arc_addr(a),
                },
                DynPayload::MapP(m) => match m {
                    crate::payload::MapArc::Int32(a) => arc_addr(a),
                    crate::payload::MapArc::Int64(a) => arc_addr(a),
                    crate::payload::MapArc::Float32(a) => arc_addr(a),
                    crate::payload::MapArc::Float64(a) => arc_addr(a),
                    crate::payload::MapArc::Boolean(a) => arc_addr(a),
                    crate::payload::MapArc::Text(a) => arc_addr(a),
                },
                DynPayload::MapDyn(a) => arc_addr(a),
                DynPayload::Rec(a) => arc_addr(a),
                DynPayload::Raw(a) => arc_addr(a),
                DynPayload::Unit => 0,
            },
            ErasedBody::Lazy(l) => arc_addr(l),
        }
    }

    /// The strong reference count of the shared allocation; 1 for the null
    /// payload. Counts depend on live handles, so nothing is promised.
    pub fn strong_count(&self) -> usize {
        match &self.body {
            ErasedBody::Eager(p) => match p {
                DynPayload::Prim(pa) => match pa {
                    crate::payload::PrimArc::Int32(a) => arc_strong_count(a),
                    crate::payload::PrimArc::Int64(a) => arc_strong_count(a),
                    crate::payload::PrimArc::Float32(a) => arc_strong_count(a),
                    crate::payload::PrimArc::Float64(a) => arc_strong_count(a),
                    crate::payload::PrimArc::Boolean(a) => arc_strong_count(a),
                    crate::payload::PrimArc::Text(a) => arc_strong_count(a),
                },
                DynPayload::ListP(l) => match l {
                    crate::payload::ListArc::Int32(a) => arc_strong_count(a),
                    crate::payload::ListArc::Int64(a) => arc_strong_count(a),
                    crate::payload::ListArc::Float32(a) => arc_strong_count(a),
                    crate::payload::ListArc::Float64(a) => arc_strong_count(a),
                    crate::payload::ListArc::Boolean(a) => arc_strong_count(a),
                    crate::payload::ListArc::Text(a) => arc_strong_count(a),
                },
                DynPayload::MapP(m) => match m {
                    crate::payload::MapArc::Int32(a) => arc_strong_count(a),
                    crate::payload::MapArc::Int64(a) => arc_strong_count(a),
                    crate::payload::MapArc::Float32(a) => arc_strong_count(a),
                    crate::payload::MapArc::Float64(a) => arc_strong_count(a),
                    crate::payload::MapArc::Boolean(a) => arc_strong_count(a),
                    crate::payload::MapArc::Text(a) => arc_strong_count(a),
                },
                DynPayload::MapDyn(a) => arc_strong_count(a),
                DynPayload::Rec(a) => arc_strong_count(a),
                DynPayload::Raw(a) => arc_strong_count(a),
                DynPayload::Unit => 1,
            },
            ErasedBody::Lazy(l) => arc_strong_count(l),
        }
    }

    /// The weak reference count of the shared allocation; 0 for the null
    /// payload. Counts depend on live handles, so nothing is promised.
    pub fn weak_count(&self) -> usize {
        match &self.body {
            ErasedBody::Eager(DynPayload::Rec(a)) => arc_weak_count(a),
            ErasedBody::Eager(DynPayload::Raw(a)) => arc_weak_count(a),
            ErasedBody::Eager(DynPayload::MapDyn(a)) => arc_weak_count(a),
            ErasedBody::Lazy(l) => arc_weak_count(l),
            _ => 0,
        }
    }

    /// True iff the recorded type name is compatible with the expected
    /// one.
    pub fn is_type(&self, expected: &str) -> (r: bool)
        ensures
            r == spec_names_compatible(expected@, self@.name()),
    {
        proof {
            use_type_invariant(self);
        }
        compare_type_names(expected, self.type_name_str.as_str())
    }

    /// Identity comparison: same recorded type name and same allocation.
    /// Two equal handles always hold equal names; the allocation check is
    /// an address comparison that proofs cannot see through.
    pub fn eq_value(&self, other: &ErasedArc) -> (r: bool)
        ensures
            r ==> self@.name() == other@.name(),
    {
        proof {
            use_type_invariant(self);
            use_type_invariant(other);
        }
        if !crate::prim::str_eq(self.type_name_str.as_str(), other.type_name_str.as_str()) {
            return false;
        }
        self.as_ptr() == other.as_ptr()
    }
}

} // verus!
