//! The type-preserving value family with explicit type information.
//!
//! This is the simpler, self-describing sibling of the tagged value: a
//! value carries a one-byte marker on the wire and, when it comes back
//! from bytes, stays as raw bytes with type information until a typed
//! conversion asks for it.

use crate::codec::{
    decode_prim, encode_prim, spec_decode_prim, spec_encode_prim,
};
use crate::errors::{ValueError, WireFault};
use crate::payload::{PrimType, RecordValue};
use crate::prim::{kind_of_model, PrimKind, PrimModel, PrimValue};
use std::sync::Arc;
use vstd::bytes::{spec_u64_to_le_bytes, u64_to_le_bytes};
use vstd::prelude::*;
use vstd::slice::{slice_subrange, slice_to_vec};

verus! {

/// Primitive type identifiers.
#[derive(Debug, Clone, Copy, PartialEq, Eq, Structural)]
pub enum PrimitiveType {
    String,
    Int32,
    Int64,
    Float32,
    Float64,
    Bool,
    Bytes,
}

/// Type information carried next to serialized bytes.
#[derive(Debug)]
pub enum TypeInfo {
    Primitive(PrimitiveType),
    List(Box<TypeInfo>),
    Mapping(Box<TypeInfo>, Box<TypeInfo>),
    Struct(String),
    Null,
    Raw,
}

/// Raw serialized bytes together with their type information.
#[derive(Debug)]
pub struct TypedBytes {
    /// The raw serialized data.
    pub bytes: Arc<Vec<u8>>,
    /// What the bytes stand for.
    pub type_info: TypeInfo,
}

impl TypedBytes {
    /// Wrap raw bytes and their type information.
    pub fn new(bytes: Vec<u8>, type_info: TypeInfo) -> (r: TypedBytes)
        ensures
            r.bytes@ == bytes@,
    {
        TypedBytes { bytes: Arc::new(bytes), type_info }
    }

    /// Decode the bytes as one value of a built-in type; trailing bytes
    /// are allowed, as the payload codec convention has it.
    pub fn deserialize<T: PrimType>(&self) -> (r: Result<T, ValueError>)
        ensures
            match r {
                Ok(v) => spec_decode_prim(T::kind_spec(), self.bytes@) matches Some((m, _))
                    && T::model_of(v) == m,
                Err(e) => spec_decode_prim(T::kind_spec(), self.bytes@) is None && e
                    matches ValueError::DecodeError { .. },
            },
    {
        proof {
            assert(self.bytes@.subrange(0, self.bytes@.len() as int) =~= self.bytes@);
        }
        match decode_prim(T::kind(), self.bytes.as_slice(), 0) {
            Some((pv, _)) => {
                proof {
                    crate::wire::lemma_decode_prim_shape(T::kind_spec(), self.bytes@);
                }
                match T::from_prim(&pv) {
                    Some(v) => Ok(v),
                    None => {
                        proof {
                            assert(false);
                        }
                        Err(ValueError::DecodeError { type_name_str: String::new() })
                    },
                }
            },
            None => Err(
                ValueError::DecodeError {
                    type_name_str: String::from_str(crate::payload::kind_type_name(T::kind())),
                },
            ),
        }
    }
}

/// The type information of a built-in kind.
pub fn type_info_of_kind(k: PrimKind) -> (r: TypeInfo)
{
    match k {
        PrimKind::Int32 => TypeInfo::Primitive(PrimitiveType::Int32),
        PrimKind::Int64 => TypeInfo::Primitive(PrimitiveType::Int64),
        PrimKind::Float32 => TypeInfo::Primitive(PrimitiveType::Float32),
        PrimKind::Float64 => TypeInfo::Primitive(PrimitiveType::Float64),
        PrimKind::Boolean => TypeInfo::Primitive(PrimitiveType::Bool),
        PrimKind::Text => TypeInfo::Primitive(PrimitiveType::String),
        PrimKind::Unit => TypeInfo::Null,
    }
}

/// A typed value: one concrete value, a homogeneous list, a record, null,
/// or raw bytes kept for later decoding.
#[derive(Debug)]
pub enum Value<T> {
    /// One typed value behind a shared handle.
    Value(Arc<T>),
    /// A homogeneous list behind a shared handle.
    List(Arc<Vec<T>>),
    /// A record with type preservation.
    Struct(Arc<RecordValue>),
    /// The null value.
    Null,
    /// Raw bytes with type information for lazy decoding.
    Bytes(Arc<TypedBytes>),
}

impl<T> Clone for Value<T> {
    /// Cloning shares the allocation behind the value.
    fn clone(&self) -> (r: Self)
        ensures
            r == *self,
    {
        match self {
            Value::Value(a) => Value::Value(a.clone()),
            Value::List(a) => Value::List(a.clone()),
            Value::Struct(a) => Value::Struct(a.clone()),
            Value::Null => Value::Null,
            Value::Bytes(a) => Value::Bytes(a.clone()),
        }
    }
}

impl<T> Value<T> {
    /// Wrap one value.
    pub fn new(value: T) -> (r: Value<T>)
        ensures
            r matches Value::Value(a) && *a == value,
    {
        Value::Value(Arc::new(value))
    }

    /// Wrap a list of values.
    pub fn new_list(values: Vec<T>) -> (r: Value<T>)
        ensures
            r matches Value::List(a) && a@ == values@,
    {
        Value::List(Arc::new(values))
    }

    /// The null value.
    pub fn null() -> (r: Value<()>)
        ensures
            r is Null,
    {
        Value::Null
    }
}

impl<T: PrimType> Value<T> {
    /// The type information of the list element type.
    pub fn element_type_info() -> TypeInfo {
        type_info_of_kind(T::kind())
    }

    /// Convert to a built-in type: succeeds exactly when this is a single
    /// value whose kind matches, or raw bytes that decode as the type.
    pub fn as_type<U: PrimType>(&self) -> (r: Result<U, ValueError>)
        ensures
            match self {
                Value::Value(a) => match r {
                    Ok(u) => U::kind_spec() == T::kind_spec() && U::model_of(u) == T::model_of(
                        **a,
                    ),
                    Err(_) => U::kind_spec() != T::kind_spec(),
                },
                Value::Bytes(tb) => match r {
                    Ok(u) => spec_decode_prim(U::kind_spec(), tb.bytes@) matches Some((m, _))
                        && U::model_of(u) == m,
                    Err(_) => spec_decode_prim(U::kind_spec(), tb.bytes@) is None,
                },
                _ => r is Err,
            },
    {
        match self {
            Value::Value(a) => {
                let v2 = T::clone_val(&**a);
                proof {
                    T::lemma_model_kind(v2);
                }
                let p = T::to_prim(v2);
                match U::from_prim(&p) {
                    Some(u) => {
                        proof {
                            U::lemma_model_kind(u);
                        }
                        Ok(u)
                    },
                    None => Err(
                        ValueError::TypeMismatch {
                            expected: String::from_str(U::type_name_str()),
                            actual: String::from_str(T::type_name_str()),
                        },
                    ),
                }
            },
            Value::Bytes(tb) => tb.deserialize::<U>(),
            _ => Err(
                ValueError::CategoryMismatch {
                    requested: crate::category::ValueCategory::Primitive,
                    held: crate::category::ValueCategory::Null,
                },
            ),
        }
    }

    /// Convert to a list of a built-in type: succeeds exactly when this is
    /// a list whose element kind matches.
    pub fn as_list<U: PrimType>(&self) -> (r: Result<Vec<U>, ValueError>)
        ensures
            match self {
                Value::List(a) => match r {
                    Ok(v) => U::kind_spec() == T::kind_spec() && v@.map_values(
                        |u: U| U::model_of(u),
                    ) == a@.map_values(|t: T| T::model_of(t)),
                    Err(_) => U::kind_spec() != T::kind_spec(),
                },
                _ => r is Err,
            },
    {
        match self {
            Value::List(a) => {
                let tk = T::kind();
                let uk = U::kind();
                if !(tk == uk) {
                    return Err(
                        ValueError::TypeMismatch {
                            expected: String::from_str(U::type_name_str()),
                            actual: String::from_str(T::type_name_str()),
                        },
                    );
                }
                let src: &Vec<T> = &*a;
                let n = src.len();
                let mut out: Vec<U> = Vec::new();
                let mut i: usize = 0;
                proof {
                    assert(out@.map_values(|u: U| U::model_of(u)) =~= Seq::<PrimModel>::empty());
                }
                while i < n
                    invariant
                        i <= n,
                        n == src@.len(),
                        U::kind_spec() == T::kind_spec(),
                        out@.map_values(|u: U| U::model_of(u)) == src@.map_values(
                            |t: T| T::model_of(t),
                        ).take(i as int),
                    decreases n - i,
                {
                    let v2 = T::clone_val(&src[i]);
                    proof {
                        T::lemma_model_kind(v2);
                    }
                    let p = T::to_prim(v2);
                    match U::from_prim(&p) {
                        Some(u) => {
                            let ghost m0 = out@.map_values(|u: U| U::model_of(u));
                            let ghost um = U::model_of(u);
                            out.push(u);
                            proof {
                                let f = |u: U| U::model_of(u);
                                assert forall|j: int| 0 <= j < out@.len() implies out@.map_values(
                                    f,
                                )[j] == m0.push(um)[j] by {
                                    if j < out@.len() - 1 {
                                        assert(out@.map_values(f)[j] == f(out@[j]));
                                        assert(m0[j] == f(out@[j]));
                                    }
                                }
                                assert(out@.map_values(f) =~= m0.push(um));
                                assert(src@.map_values(|t: T| T::model_of(t))[i as int]
                                    == T::model_of(src@[i as int]));
                                assert(out@.map_values(f) =~= src@.map_values(
                                    |t: T| T::model_of(t),
                                ).take(i as int + 1));
                            }
                        },
                        None => {
                            proof {
                                assert(false);
                            }
                            return Err(
                                ValueError::TypeMismatch {
                                    expected: String::from_str(U::type_name_str()),
                                    actual: String::from_str(T::type_name_str()),
                                },
                            );
                        },
                    }
                    i += 1;
                }
                proof {
                    assert(src@.map_values(|t: T| T::model_of(t)).take(n as int) =~= src@.map_values(
                        |t: T| T::model_of(t),
                    ));
                }
                Ok(out)
            },
            _ => Err(
                ValueError::CategoryMismatch {
                    requested: crate::category::ValueCategory::List,
                    held: crate::category::ValueCategory::Primitive,
                },
            ),
        }
    }

    /// Serialize with the one-byte marker convention: a single value, a
    /// list, a record, null or raw bytes.
    pub fn to_bytes(&self) -> (r: Result<Vec<u8>, ValueError>)
        ensures
            match self {
                Value::Value(a) => r matches Ok(v) && v@ == seq![1u8] + spec_encode_prim(
                    T::model_of(**a),
                ),
                Value::List(a) => r matches Ok(v) && v@ == seq![2u8] + spec_u64_to_le_bytes(
                    a@.len() as u64,
                ) + crate::wire::spec_encode_prims(a@.map_values(|t: T| T::model_of(t))),
                Value::Struct(s) => r matches Ok(v) && v@ == seq![4u8] + spec_encode_prim(
                    PrimModel::Text(s@.0),
                ) + crate::wire::spec_encode_prims(s@.1),
                Value::Null => r matches Ok(v) && v@ == seq![5u8],
                Value::Bytes(tb) => r matches Ok(v) && v@ == seq![6u8] + tb.bytes@,
            },
    {
        let mut out: Vec<u8> = Vec::new();
        match self {
            Value::Value(a) => {
                out.push(1u8);
                let p = T::to_prim(T::clone_val(&**a));
                encode_prim(&p, &mut out);
                proof {
                    assert(out@ =~= seq![1u8] + spec_encode_prim(T::model_of(**a)));
                }
                Ok(out)
            },
            Value::List(a) => {
                out.push(2u8);
                let src: &Vec<T> = &*a;
                let mut len_b = u64_to_le_bytes(src.len() as u64);
                out.append(&mut len_b);
                let ghost models = src@.map_values(|t: T| T::model_of(t));
                let n = src.len();
                let mut i: usize = 0;
                proof {
                    assert(crate::wire::spec_encode_prims(models.take(0)) =~= Seq::<u8>::empty());
                    assert(out@ =~= seq![2u8] + spec_u64_to_le_bytes(src@.len() as u64)
                        + crate::wire::spec_encode_prims(models.take(0)));
                }
                while i < n
                    invariant
                        i <= n,
                        n == src@.len(),
                        models == src@.map_values(|t: T| T::model_of(t)),
                        out@ == seq![2u8] + spec_u64_to_le_bytes(src@.len() as u64)
                            + crate::wire::spec_encode_prims(models.take(i as int)),
                    decreases n - i,
                {
                    let p = T::to_prim(T::clone_val(&src[i]));
                    encode_prim(&p, &mut out);
                    proof {
                        crate::wire::lemma_encode_prims_snoc(
                            models.take(i as int),
                            models[i as int],
                        );
                        assert(models.take(i as int).push(models[i as int]) =~= models.take(
                            i as int + 1,
                        ));
                        assert(out@ =~= seq![2u8] + spec_u64_to_le_bytes(src@.len() as u64)
                            + crate::wire::spec_encode_prims(models.take(i as int + 1)));
                    }
                    i += 1;
                }
                proof {
                    assert(models.take(n as int) =~= models);
                }
                Ok(out)
            },
            Value::Struct(s) => {
                out.push(4u8);
                let name = PrimValue::Text(s.type_name_str.clone());
                encode_prim(&name, &mut out);
                let ghost models = s.fields@.map_values(|x: PrimValue| x@);
                let n = s.fields.len();
                let mut i: usize = 0;
                proof {
                    assert(crate::wire::spec_encode_prims(models.take(0)) =~= Seq::<u8>::empty());
                    assert(out@ =~= seq![4u8] + spec_encode_prim(PrimModel::Text(s@.0))
                        + crate::wire::spec_encode_prims(models.take(0)));
                }
                while i < n
                    invariant
                        i <= n,
                        n == s.fields@.len(),
                        models == s.fields@.map_values(|x: PrimValue| x@),
                        out@ == seq![4u8] + spec_encode_prim(PrimModel::Text(s@.0))
                            + crate::wire::spec_encode_prims(models.take(i as int)),
                    decreases n - i,
                {
                    encode_prim(&s.fields[i], &mut out);
                    proof {
                        crate::wire::lemma_encode_prims_snoc(
                            models.take(i as int),
                            models[i as int],
                        );
                        assert(models.take(i as int).push(models[i as int]) =~= models.take(
                            i as int + 1,
                        ));
                        assert(out@ =~= seq![4u8] + spec_encode_prim(PrimModel::Text(s@.0))
                            + crate::wire::spec_encode_prims(models.take(i as int + 1)));
                    }
                    i += 1;
                }
                proof {
                    assert(models.take(n as int) =~= models);
                }
                Ok(out)
            },
            Value::Null => {
                out.push(5u8);
                proof {
                    assert(out@ =~= seq![5u8]);
                }
                Ok(out)
            },
            Value::Bytes(tb) => {
                out.push(6u8);
                out.extend_from_slice(tb.bytes.as_slice());
                proof {
                    assert(out@ =~= seq![6u8] + tb.bytes@);
                }
                Ok(out)
            },
        }
    }
}

/// Common interface of the typed value family.
pub trait ValueBase {
    /// Serialize this value to marker-prefixed bytes.
    fn to_bytes_wire(&self) -> Result<Vec<u8>, ValueError>;

    /// The type information of this value.
    fn type_info(&self) -> TypeInfo;
}

impl<T: PrimType> ValueBase for Value<T> {
    fn to_bytes_wire(&self) -> Result<Vec<u8>, ValueError> {
        self.to_bytes()
    }

    fn type_info(&self) -> TypeInfo {
        match self {
            Value::Value(_) => type_info_of_kind(T::kind()),
            Value::List(_) => TypeInfo::List(Box::new(type_info_of_kind(T::kind()))),
            Value::Struct(s) => TypeInfo::Struct(s.type_name_str.clone()),
            Value::Null => TypeInfo::Null,
            Value::Bytes(tb) => TypeInfo::Raw,
        }
    }
}

/// Interface of record values that preserve their type name.
pub trait CustomStruct {
    /// Serialize the record's fields.
    fn to_bytes_wire(&self) -> Result<Vec<u8>, ValueError>;

    /// The full type name of the record.
    fn type_name_str(&self) -> &str;
}

impl CustomStruct for RecordValue {
    fn to_bytes_wire(&self) -> Result<Vec<u8>, ValueError> {
        let mut out: Vec<u8> = Vec::new();
        let n = self.fields.len();
        let mut i: usize = 0;
        while i < n
            invariant
                i <= n,
                n == self.fields@.len(),
            decreases n - i,
        {
            encode_prim(&self.fields[i], &mut out);
            i += 1;
        }
        Ok(out)
    }

    fn type_name_str(&self) -> &str {
        self.type_name_str.as_str()
    }
}

/// The first binding of a key, compared by model, in a pair sequence.
pub open spec fn pairs_get<K: PrimType, V>(s: Seq<(K, V)>, km: PrimModel) -> Option<V>
    decreases s.len(),
{
    if s.len() == 0 {
        None
    } else if K::model_of(s[0].0) == km {
        Some(s[0].1)
    } else {
        pairs_get::<K, V>(s.drop_first(), km)
    }
}

/// A map value that preserves key and value types.
#[derive(Debug)]
pub struct MapValue<K, V> {
    /// The map entries, in insertion order.
    pub entries: Vec<(K, V)>,
    /// The serialized form, kept for lazy decoding.
    pub serialized: Option<Arc<TypedBytes>>,
}

impl<K: PrimType, V: PrimType> MapValue<K, V> {
    /// Wrap map entries eagerly.
    pub fn new(entries: Vec<(K, V)>) -> (r: MapValue<K, V>)
        ensures
            r.entries@ == entries@,
            r.serialized is None,
    {
        MapValue { entries, serialized: None }
    }

    /// Wrap serialized bytes for lazy decoding.
    pub fn from_bytes(bytes: Vec<u8>, type_info: TypeInfo) -> (r: MapValue<K, V>)
        ensures
            r.entries@.len() == 0,
            r.serialized matches Some(tb) && tb.bytes@ == bytes@,
    {
        MapValue {
            entries: Vec::new(),
            serialized: Some(Arc::new(TypedBytes::new(bytes, type_info))),
        }
    }

    /// Look a key up among the eager entries; the first binding whose key
    /// model equals the given key's wins.
    pub fn get(&self, key: &K) -> (r: Option<&V>)
        ensures
            match r {
                Some(v) => pairs_get::<K, V>(self.entries@, K::model_of(*key)) == Some(*v),
                None => pairs_get::<K, V>(self.entries@, K::model_of(*key)) is None,
            },
    {
        let km = K::to_prim(K::clone_val(key));
        let src: &Vec<(K, V)> = &self.entries;
        let n = src.len();
        let mut i: usize = 0;
        while i < n
            invariant
                i <= n,
                n == src@.len(),
                src@ == self.entries@,
                km@ == K::model_of(*key),
                forall|j: int|
                    0 <= j < i ==> K::model_of((#[trigger] src@[j]).0) != K::model_of(*key),
            decreases n - i,
        {
            let pk = K::to_prim(K::clone_val(&src[i].0));
            if pk.eq_prim(&km) {
                proof {
                    Self::lemma_pairs_get_at(src@, K::model_of(*key), i as int);
                }
                return Some(&src[i].1);
            }
            i += 1;
        }
        proof {
            Self::lemma_pairs_get_at(src@, K::model_of(*key), n as int);
        }
        None
    }

    /// The scan of the exec code and the first-match lookup agree.
    proof fn lemma_pairs_get_at(s: Seq<(K, V)>, km: PrimModel, i: int)
        requires
            0 <= i <= s.len(),
            forall|j: int| 0 <= j < i ==> K::model_of((#[trigger] s[j]).0) != km,
            i < s.len() ==> K::model_of(s[i].0) == km,
        ensures
            pairs_get::<K, V>(s, km) == if i < s.len() {
                Some(s[i].1)
            } else {
                None::<V>
            },
        decreases s.len(),
    {
        if s.len() > 0 && i > 0 {
            Self::lemma_pairs_get_at(s.drop_first(), km, i - 1);
        }
    }

    /// The type information of the key type.
    pub fn key_type_info() -> TypeInfo {
        type_info_of_kind(K::kind())
    }

    /// The type information of the value type.
    pub fn value_type_info() -> TypeInfo {
        type_info_of_kind(V::kind())
    }

    /// Convert the eager entries to another key and value type: succeeds
    /// exactly when both kinds match.
    pub fn as_map<KU: PrimType, VU: PrimType>(&self) -> (r: Result<Vec<(KU, VU)>, ValueError>)
        ensures
            match r {
                Ok(v) => {
                    &&& KU::kind_spec() == K::kind_spec()
                    &&& VU::kind_spec() == V::kind_spec()
                    &&& v@.len() == self.entries@.len()
                    &&& forall|j: int|
                        0 <= j < v@.len() ==> KU::model_of((#[trigger] v@[j]).0) == K::model_of(
                            self.entries@[j].0,
                        ) && VU::model_of(v@[j].1) == V::model_of(self.entries@[j].1)
                },
                Err(_) => KU::kind_spec() != K::kind_spec() || VU::kind_spec() != V::kind_spec(),
            },
    {
        let kk = K::kind();
        let vk = V::kind();
        if !(KU::kind() == kk) || !(VU::kind() == vk) {
            return Err(
                ValueError::TypeMismatch {
                    expected: String::from_str(KU::type_name_str()),
                    actual: String::from_str(K::type_name_str()),
                },
            );
        }
        let src: &Vec<(K, V)> = &self.entries;
        let n = src.len();
        let mut out: Vec<(KU, VU)> = Vec::new();
        let mut i: usize = 0;
        while i < n
            invariant
                i <= n,
                n == src@.len(),
                src@ == self.entries@,
                KU::kind_spec() == K::kind_spec(),
                VU::kind_spec() == V::kind_spec(),
                out@.len() == i,
                forall|j: int|
                    0 <= j < i ==> KU::model_of((#[trigger] out@[j]).0) == K::model_of(
                        src@[j].0,
                    ) && VU::model_of(out@[j].1) == V::model_of(src@[j].1),
            decreases n - i,
        {
            let k2 = K::clone_val(&src[i].0);
            proof {
                K::lemma_model_kind(k2);
            }
            let pk = K::to_prim(k2);
            let v2 = V::clone_val(&src[i].1);
            proof {
                V::lemma_model_kind(v2);
            }
            let pv = V::to_prim(v2);
            match (KU::from_prim(&pk), VU::from_prim(&pv)) {
                (Some(ku), Some(vu)) => {
                    out.push((ku, vu));
                },
                _ => {
                    proof {
                        assert(false);
                    }
                    return Err(
                        ValueError::TypeMismatch {
                            expected: String::from_str(KU::type_name_str()),
                            actual: String::from_str(K::type_name_str()),
                        },
                    );
                },
            }
            i += 1;
        }
        Ok(out)
    }
}

/// The erased inner form of a typed value.
#[derive(Debug)]
pub enum TypedInner {
    /// One primitive value.
    Single(PrimValue),
    /// A homogeneous list of one kind.
    ListOf(PrimKind, Vec<PrimValue>),
    /// A map from one primitive kind to another.
    MapOf(PrimKind, PrimKind, Vec<(PrimValue, PrimValue)>),
    /// A record.
    Rec(RecordValue),
    /// The null value.
    Null,
    /// Raw bytes kept for later decoding.
    RawBytes(TypedBytes),
}

/// A wrapper with a simple conversion interface around the typed value
/// family.
#[derive(Debug)]
pub struct TypedValue {
    inner: TypedInner,
}

impl View for TypedValue {
    type V = TypedInner;

    closed spec fn view(&self) -> TypedInner {
        self.inner
    }
}

/// Decoding `n` key/value pairs of two kinds from the front of `s`.
pub open spec fn spec_decode_kv_pairs(kk: PrimKind, vk: PrimKind, s: Seq<u8>, n: nat) -> Option<
    (Seq<(PrimModel, PrimModel)>, int),
>
    decreases n,
{
    if n == 0 {
        Some((Seq::<(PrimModel, PrimModel)>::empty(), 0))
    } else {
        match spec_decode_prim(kk, s) {
            Some((km, u1)) => match spec_decode_prim(vk, s.skip(u1)) {
                Some((vm, u2)) => match spec_decode_kv_pairs(
                    kk,
                    vk,
                    s.skip(u1 + u2),
                    (n - 1) as nat,
                ) {
                    Some((ps, u3)) => Some((seq![(km, vm)] + ps, u1 + u2 + u3)),
                    None => None,
                },
                None => None,
            },
            None => None,
        }
    }
}

/// The concatenated encodings of key/value pairs.
pub open spec fn spec_encode_kv_pairs(ps: Seq<(PrimModel, PrimModel)>) -> Seq<u8>
    decreases ps.len(),
{
    if ps.len() == 0 {
        Seq::<u8>::empty()
    } else {
        spec_encode_prim(ps[0].0) + spec_encode_prim(ps[0].1) + spec_encode_kv_pairs(
            ps.drop_first(),
        )
    }
}

/// Appending one pair appends its encoding.
proof fn lemma_encode_kv_pairs_snoc(ps: Seq<(PrimModel, PrimModel)>, x: (PrimModel, PrimModel))
    ensures
        spec_encode_kv_pairs(ps.push(x)) == spec_encode_kv_pairs(ps) + spec_encode_prim(x.0)
            + spec_encode_prim(x.1),
    decreases ps.len(),
{
    let t = ps.push(x);
    if ps.len() == 0 {
        assert(t[0] == x);
        assert(t.drop_first() =~= Seq::<(PrimModel, PrimModel)>::empty());
        assert(spec_encode_kv_pairs(t) == spec_encode_prim(x.0) + spec_encode_prim(x.1)
            + spec_encode_kv_pairs(t.drop_first()));
        assert(spec_encode_kv_pairs(t) =~= spec_encode_kv_pairs(ps) + spec_encode_prim(x.0)
            + spec_encode_prim(x.1));
    } else {
        assert(t[0] == ps[0]);
        assert(t.drop_first() =~= ps.drop_first().push(x));
        lemma_encode_kv_pairs_snoc(ps.drop_first(), x);
        assert(spec_encode_kv_pairs(t) == spec_encode_prim(ps[0].0) + spec_encode_prim(ps[0].1)
            + spec_encode_kv_pairs(t.drop_first()));
        assert(spec_encode_kv_pairs(ps) == spec_encode_prim(ps[0].0) + spec_encode_prim(ps[0].1)
            + spec_encode_kv_pairs(ps.drop_first()));
        assert(spec_encode_kv_pairs(t) =~= spec_encode_kv_pairs(ps) + spec_encode_prim(x.0)
            + spec_encode_prim(x.1));
    }
}

/// Decode `count` key/value pairs of two built-in types, starting at
/// `pos`.
fn decode_kv_pairs<K: PrimType, V: PrimType>(b: &[u8], pos: usize, count: u64) -> (r: Option<
    (Vec<(K, V)>, usize),
>)
    requires
        pos <= b@.len(),
    ensures
        ({
            let suffix = b@.subrange(pos as int, b@.len() as int);
            match r {
                Some((v, used)) => pos + used <= b@.len() && spec_decode_kv_pairs(
                    K::kind_spec(),
                    V::kind_spec(),
                    suffix,
                    count as nat,
                ) == Some(
                    (
                        v@.map_values(
                            |kv: (K, V)| (K::model_of(kv.0), V::model_of(kv.1)),
                        ),
                        used as int,
                    ),
                ),
                None => spec_decode_kv_pairs(
                    K::kind_spec(),
                    V::kind_spec(),
                    suffix,
                    count as nat,
                ) is None,
            }
        }),
{
    let ghost suffix0 = b@.subrange(pos as int, b@.len() as int);
    let ghost goal = spec_decode_kv_pairs(K::kind_spec(), V::kind_spec(), suffix0, count as nat);
    let blen = b.len();
    let mut acc: Vec<(K, V)> = Vec::new();
    let mut cur: usize = pos;
    let mut i: u64 = 0;
    proof {
        assert(acc@.map_values(|kv: (K, V)| (K::model_of(kv.0), V::model_of(kv.1))) =~= Seq::<
            (PrimModel, PrimModel),
        >::empty());
    }
    while i < count
        invariant
            pos <= cur <= b@.len(),
            blen == b@.len(),
            i <= count,
            suffix0 == b@.subrange(pos as int, b@.len() as int),
            goal == spec_decode_kv_pairs(K::kind_spec(), V::kind_spec(), suffix0, count as nat),
            match goal {
                Some((ps, u)) => {
                    &&& ps.len() >= i
                    &&& acc@.map_values(|kv: (K, V)| (K::model_of(kv.0), V::model_of(kv.1)))
                        == ps.take(i as int)
                    &&& spec_decode_kv_pairs(
                        K::kind_spec(),
                        V::kind_spec(),
                        b@.subrange(cur as int, b@.len() as int),
                        (count - i) as nat,
                    ) == Some((ps.skip(i as int), u - (cur - pos)))
                },
                None => spec_decode_kv_pairs(
                    K::kind_spec(),
                    V::kind_spec(),
                    b@.subrange(cur as int, b@.len() as int),
                    (count - i) as nat,
                ) is None,
            },
        decreases count - i,
    {
        let ghost cur_suffix = b@.subrange(cur as int, b@.len() as int);
        let kv1 = match decode_prim(K::kind(), b, cur) {
            Some((pk, u1)) => (pk, u1),
            None => {
                return None;
            },
        };
        let (pk, u1) = kv1;
        proof {
            crate::wire::lemma_decode_prim_shape(K::kind_spec(), cur_suffix);
            lemma_typed_suffix_skip(b@, cur as int, u1 as int);
        }
        match decode_prim(V::kind(), b, cur + u1) {
            Some((pv, u2)) => {
                proof {
                    crate::wire::lemma_decode_prim_shape(
                        V::kind_spec(),
                        b@.subrange((cur + u1) as int, b@.len() as int),
                    );
                    lemma_typed_suffix_skip(b@, cur as int, (u1 + u2) as int);
                    assert(cur_suffix.skip(u1 as int).skip(u2 as int) =~= cur_suffix.skip(
                        (u1 + u2) as int,
                    ));
                }
                match (K::from_prim(&pk), V::from_prim(&pv)) {
                    (Some(kval), Some(vval)) => {
                        acc.push((kval, vval));
                        proof {
                            if goal is Some {
                                let (ps, u) = goal->Some_0;
                                let tail = ps.skip(i as int);
                                assert(tail[0] == (pk@, pv@));
                                assert(tail.len() == ps.len() - i);
                                assert(tail[0] == ps[i as int]);
                                assert(acc@.map_values(
                                    |kv: (K, V)| (K::model_of(kv.0), V::model_of(kv.1)),
                                ) =~= ps.take(i as int + 1));
                                assert(tail.drop_first() =~= ps.skip(i as int + 1));
                            }
                        }
                        cur = cur + u1 + u2;
                        i = i + 1;
                    },
                    _ => {
                        proof {
                            assert(false);
                        }
                        return None;
                    },
                }
            },
            None => {
                return None;
            },
        }
    }
    proof {
        if goal is Some {
            let (ps, u) = goal->Some_0;
            assert(ps.skip(i as int) =~= Seq::<(PrimModel, PrimModel)>::empty());
            assert(ps.len() == i);
            assert(ps.take(i as int) =~= ps);
        } else {
            assert(false);
        }
    }
    Some((acc, cur - pos))
}

/// A suffix taken further along is the skip of the earlier suffix.
proof fn lemma_typed_suffix_skip(b: Seq<u8>, pos: int, u: int)
    requires
        0 <= pos,
        0 <= u,
        pos + u <= b.len(),
    ensures
        b.subrange(pos + u, b.len() as int) =~= b.subrange(pos, b.len() as int).skip(u),
{
}

impl TypedValue {
    /// Wrap an inner form.
    pub fn new(inner: TypedInner) -> (r: TypedValue)
        ensures
            r@ == inner,
    {
        TypedValue { inner }
    }

    /// A typed value holding one built-in value.
    pub fn from_value<T: PrimType>(value: T) -> (r: TypedValue)
        ensures
            r@ matches TypedInner::Single(p) && p@ == T::model_of(value),
    {
        TypedValue { inner: TypedInner::Single(T::to_prim(value)) }
    }

    /// The null typed value.
    pub fn null() -> (r: TypedValue)
        ensures
            r@ is Null,
    {
        TypedValue { inner: TypedInner::Null }
    }

    /// A typed value holding a homogeneous list.
    pub fn from_list<T: PrimType>(values: Vec<T>) -> (r: TypedValue)
        ensures
            r@ matches TypedInner::ListOf(k, es) && k == T::kind_spec() && es@.map_values(
                |p: PrimValue| p@,
            ) == values@.map_values(|t: T| T::model_of(t)),
    {
        let n = values.len();
        let mut elems: Vec<PrimValue> = Vec::new();
        let mut i: usize = 0;
        proof {
            assert(elems@.map_values(|p: PrimValue| p@) =~= Seq::<PrimModel>::empty());
        }
        while i < n
            invariant
                i <= n,
                n == values@.len(),
                elems@.map_values(|p: PrimValue| p@) == values@.map_values(
                    |t: T| T::model_of(t),
                ).take(i as int),
            decreases n - i,
        {
            let ghost m0 = elems@.map_values(|p: PrimValue| p@);
            let p = T::to_prim(T::clone_val(&values[i]));
            let ghost pm = p@;
            elems.push(p);
            proof {
                let f = |p: PrimValue| p@;
                assert forall|j: int| 0 <= j < elems@.len() implies elems@.map_values(f)[j]
                    == m0.push(pm)[j] by {
                    if j < elems@.len() - 1 {
                        assert(elems@.map_values(f)[j] == f(elems@[j]));
                        assert(m0[j] == f(elems@[j]));
                    }
                }
                assert(elems@.map_values(f) =~= m0.push(pm));
                assert(values@.map_values(|t: T| T::model_of(t))[i as int] == T::model_of(
                    values@[i as int],
                ));
                assert(elems@.map_values(f) =~= values@.map_values(|t: T| T::model_of(t)).take(
                    i as int + 1,
                ));
            }
            i += 1;
        }
        proof {
            assert(values@.map_values(|t: T| T::model_of(t)).take(n as int) =~= values@.map_values(
                |t: T| T::model_of(t),
            ));
        }
        TypedValue { inner: TypedInner::ListOf(T::kind(), elems) }
    }

    /// A typed value holding a map of built-in keys and values.
    pub fn from_map<K: PrimType, V: PrimType>(entries: Vec<(K, V)>) -> (r: TypedValue)
        ensures
            r@ matches TypedInner::MapOf(kk, vk, ps) && kk == K::kind_spec() && vk
                == V::kind_spec() && ps@.len() == entries@.len() && forall|j: int|
                0 <= j < ps@.len() ==> (#[trigger] ps@[j]).0@ == K::model_of(entries@[j].0)
                    && ps@[j].1@ == V::model_of(entries@[j].1),
    {
        let n = entries.len();
        let mut ps: Vec<(PrimValue, PrimValue)> = Vec::new();
        let mut i: usize = 0;
        while i < n
            invariant
                i <= n,
                n == entries@.len(),
                ps@.len() == i,
                forall|j: int|
                    0 <= j < i ==> (#[trigger] ps@[j]).0@ == K::model_of(entries@[j].0)
                        && ps@[j].1@ == V::model_of(entries@[j].1),
            decreases n - i,
        {
            let pk = K::to_prim(K::clone_val(&entries[i].0));
            let pv = V::to_prim(V::clone_val(&entries[i].1));
            ps.push((pk, pv));
            i += 1;
        }
        TypedValue { inner: TypedInner::MapOf(K::kind(), V::kind(), ps) }
    }

    /// A typed value holding a record.
    pub fn from_struct(value: RecordValue) -> (r: TypedValue)
        ensures
            r@ matches TypedInner::Rec(rv) && rv@ == value@,
    {
        TypedValue { inner: TypedInner::Rec(value) }
    }

    /// The inner form.
    pub fn inner(&self) -> (r: &TypedInner)
        ensures
            *r == self@,
    {
        &self.inner
    }

    /// True iff this is the null value.
    pub fn is_null(&self) -> (r: bool)
        ensures
            r == (self@ is Null),
    {
        match &self.inner {
            TypedInner::Null => true,
            _ => false,
        }
    }

    /// Convert to a built-in type: a single value converts when its kind
    /// matches; raw bytes convert when they decode as the type.
    pub fn as_type<T: PrimType>(&self) -> (r: Result<T, ValueError>)
        ensures
            match self@ {
                TypedInner::Single(p) => match r {
                    Ok(v) => T::model_of(v) == p@,
                    Err(_) => kind_of_model(p@) != T::kind_spec(),
                },
                TypedInner::RawBytes(tb) => match r {
                    Ok(v) => spec_decode_prim(T::kind_spec(), tb.bytes@) matches Some((m, _))
                        && T::model_of(v) == m,
                    Err(_) => spec_decode_prim(T::kind_spec(), tb.bytes@) is None,
                },
                _ => r is Err,
            },
    {
        match &self.inner {
            TypedInner::Single(p) => match T::from_prim(p) {
                Some(v) => Ok(v),
                None => Err(
                    ValueError::TypeMismatch {
                        expected: String::from_str(T::type_name_str()),
                        actual: String::new(),
                    },
                ),
            },
            TypedInner::RawBytes(tb) => tb.deserialize::<T>(),
            _ => Err(
                ValueError::CategoryMismatch {
                    requested: crate::category::ValueCategory::Primitive,
                    held: crate::category::ValueCategory::Null,
                },
            ),
        }
    }

    /// A shared handle to the converted value; primitives are small, so
    /// the handle wraps a fresh copy.
    pub fn as_type_ref<T: PrimType>(&self) -> (r: Result<Arc<T>, ValueError>)
        ensures
            match self@ {
                TypedInner::Single(p) => match r {
                    Ok(a) => T::model_of(*a) == p@,
                    Err(_) => kind_of_model(p@) != T::kind_spec(),
                },
                TypedInner::RawBytes(tb) => match r {
                    Ok(a) => spec_decode_prim(T::kind_spec(), tb.bytes@) matches Some((m, _))
                        && T::model_of(*a) == m,
                    Err(_) => spec_decode_prim(T::kind_spec(), tb.bytes@) is None,
                },
                _ => r is Err,
            },
    {
        match self.as_type::<T>() {
            Ok(v) => Ok(Arc::new(v)),
            Err(e) => Err(e),
        }
    }

    /// Convert to a list of a built-in type: an eager list converts when
    /// its element kind matches; raw list bytes decode as a count followed
    /// by that many elements.
    pub fn as_list<T: PrimType>(&self) -> (r: Result<Vec<T>, ValueError>)
        ensures
            match self@ {
                TypedInner::ListOf(k, es) => match r {
                    Ok(v) => k == T::kind_spec() && v@.map_values(|t: T| T::model_of(t))
                        == es@.map_values(|p: PrimValue| p@),
                    Err(_) => k != T::kind_spec() || exists|j: int|
                        0 <= j < es@.len() && kind_of_model((#[trigger] es@[j])@) != k,
                },
                TypedInner::RawBytes(tb) => {
                    let good = tb.bytes@.len() >= 8 && crate::wire::spec_decode_prims(
                        T::kind_spec(),
                        tb.bytes@.skip(8),
                        vstd::bytes::spec_u64_from_le_bytes(tb.bytes@.subrange(0, 8)) as nat,
                    ) is Some;
                    match r {
                        Ok(v) => (crate::wire::spec_decode_prims(
                            T::kind_spec(),
                            tb.bytes@.skip(8),
                            vstd::bytes::spec_u64_from_le_bytes(tb.bytes@.subrange(0, 8)) as nat,
                        ) matches Some((ms, _)) && v@.map_values(|t: T| T::model_of(t)) == ms)
                            && good,
                        Err(_) => !good,
                    }
                },
                _ => r is Err,
            },
    {
        match &self.inner {
            TypedInner::ListOf(k, es) => {
                if !(*k == T::kind()) {
                    return Err(
                        ValueError::TypeMismatch {
                            expected: String::from_str(T::type_name_str()),
                            actual: String::from_str(crate::payload::kind_type_name(*k)),
                        },
                    );
                }
                let n = es.len();
                let mut out: Vec<T> = Vec::new();
                let mut i: usize = 0;
                proof {
                    assert(out@.map_values(|t: T| T::model_of(t)) =~= Seq::<PrimModel>::empty());
                    assert(es@.map_values(|p: PrimValue| p@).take(0) =~= Seq::<
                        PrimModel,
                    >::empty());
                }
                while i < n
                    invariant
                        i <= n,
                        n == es@.len(),
                        T::kind_spec() == k,
                        self@ is ListOf,
                        es@ == self@->ListOf_1@,
                        k == self@->ListOf_0,
                        out@.map_values(|t: T| T::model_of(t)) == es@.map_values(
                            |p: PrimValue| p@,
                        ).take(i as int),
                    decreases n - i,
                {
                    match T::from_prim(&es[i]) {
                        Some(v) => {
                            let ghost m0 = out@.map_values(|t: T| T::model_of(t));
                            let ghost vm = T::model_of(v);
                            out.push(v);
                            proof {
                                let f = |t: T| T::model_of(t);
                                assert forall|j: int|
                                    0 <= j < out@.len() implies out@.map_values(f)[j] == m0.push(
                                    vm,
                                )[j] by {
                                    if j < out@.len() - 1 {
                                        assert(out@.map_values(f)[j] == f(out@[j]));
                                        assert(m0[j] == f(out@[j]));
                                    }
                                }
                                assert(out@.map_values(f) =~= m0.push(vm));
                                assert(es@.map_values(|p: PrimValue| p@)[i as int]
                                    == es@[i as int]@);
                                assert(out@.map_values(f) =~= es@.map_values(
                                    |p: PrimValue| p@,
                                ).take(i as int + 1));
                            }
                        },
                        None => {
                            proof {
                                let ghost ses = self@->ListOf_1@;
                                assert(ses[i as int] == es@[i as int]);
                                assert(kind_of_model((ses[i as int])@) != self@->ListOf_0);
                                assert(exists|j: int|
                                    0 <= j < ses.len() && kind_of_model(
                                        (#[trigger] ses[j])@,
                                    ) != self@->ListOf_0);
                            }
                            return Err(
                                ValueError::TypeMismatch {
                                    expected: String::from_str(T::type_name_str()),
                                    actual: String::from_str(
                                        crate::payload::kind_type_name(T::kind()),
                                    ),
                                },
                            );
                        },
                    }
                    i += 1;
                }
                proof {
                    assert(es@.map_values(|p: PrimValue| p@).take(n as int) =~= es@.map_values(
                        |p: PrimValue| p@,
                    ));
                }
                Ok(out)
            },
            TypedInner::RawBytes(tb) => {
                let b: &Vec<u8> = &tb.bytes;
                let blen = b.len();
                if blen < 8 {
                    return Err(
                        ValueError::MalformedWire { fault: WireFault::TruncatedPayload },
                    );
                }
                let count_slice = slice_subrange(b.as_slice(), 0, 8);
                proof {
                    assert(count_slice@ =~= tb.bytes@.subrange(0, 8));
                }
                let count = vstd::bytes::u64_from_le_bytes(count_slice);
                proof {
                    lemma_typed_suffix_skip(tb.bytes@, 0, 8);
                    assert(tb.bytes@.subrange(0, tb.bytes@.len() as int) =~= tb.bytes@);
                }
                match crate::wire::decode_list::<T>(b.as_slice(), 8, count) {
                    Some((out, _)) => Ok(out),
                    None => Err(
                        ValueError::DecodeError {
                            type_name_str: String::from_str(T::type_name_str()),
                        },
                    ),
                }
            },
            _ => Err(
                ValueError::CategoryMismatch {
                    requested: crate::category::ValueCategory::List,
                    held: crate::category::ValueCategory::Primitive,
                },
            ),
        }
    }

    /// Convert to a map of built-in key and value types: an eager map
    /// converts when both kinds match; raw map bytes decode as a count
    /// followed by that many key/value pairs.
    pub fn as_map<K: PrimType, V: PrimType>(&self) -> (r: Result<Vec<(K, V)>, ValueError>)
        ensures
            match self@ {
                TypedInner::MapOf(kk, vk, ps) => match r {
                    Ok(v) => kk == K::kind_spec() && vk == V::kind_spec() && v@.len() == ps@.len()
                        && forall|j: int|
                        0 <= j < v@.len() ==> K::model_of((#[trigger] v@[j]).0) == ps@[j].0@
                            && V::model_of(v@[j].1) == ps@[j].1@,
                    Err(_) => kk != K::kind_spec() || vk != V::kind_spec() || exists|j: int|
                        0 <= j < ps@.len() && (kind_of_model((#[trigger] ps@[j]).0@) != kk
                            || kind_of_model(ps@[j].1@) != vk),
                },
                TypedInner::RawBytes(tb) => {
                    let good = tb.bytes@.len() >= 8 && spec_decode_kv_pairs(
                        K::kind_spec(),
                        V::kind_spec(),
                        tb.bytes@.skip(8),
                        vstd::bytes::spec_u64_from_le_bytes(tb.bytes@.subrange(0, 8)) as nat,
                    ) is Some;
                    match r {
                        Ok(v) => (spec_decode_kv_pairs(
                            K::kind_spec(),
                            V::kind_spec(),
                            tb.bytes@.skip(8),
                            vstd::bytes::spec_u64_from_le_bytes(tb.bytes@.subrange(0, 8)) as nat,
                        ) matches Some((pairs, _)) && v@.map_values(
                            |kv: (K, V)| (K::model_of(kv.0), V::model_of(kv.1)),
                        ) == pairs) && good,
                        Err(_) => !good,
                    }
                },
                _ => r is Err,
            },
    {
        match &self.inner {
            TypedInner::MapOf(kk, vk, ps) => {
                if !(*kk == K::kind()) || !(*vk == V::kind()) {
                    return Err(
                        ValueError::TypeMismatch {
                            expected: String::from_str(K::type_name_str()),
                            actual: String::from_str(crate::payload::kind_type_name(*kk)),
                        },
                    );
                }
                let n = ps.len();
                let mut out: Vec<(K, V)> = Vec::new();
                let mut i: usize = 0;
                while i < n
                    invariant
                        i <= n,
                        n == ps@.len(),
                        K::kind_spec() == kk,
                        V::kind_spec() == vk,
                        self@ is MapOf,
                        ps@ == self@->MapOf_2@,
                        kk == self@->MapOf_0,
                        vk == self@->MapOf_1,
                        out@.len() == i,
                        forall|j: int|
                            0 <= j < i ==> K::model_of((#[trigger] out@[j]).0) == ps@[j].0@
                                && V::model_of(out@[j].1) == ps@[j].1@,
                    decreases n - i,
                {
                    match (K::from_prim(&ps[i].0), V::from_prim(&ps[i].1)) {
                        (Some(kv), Some(vv)) => {
                            out.push((kv, vv));
                        },
                        _ => {
                            proof {
                                let ghost sps = self@->MapOf_2@;
                                assert(sps[i as int] == ps@[i as int]);
                                assert(kind_of_model(sps[i as int].0@) != self@->MapOf_0
                                    || kind_of_model(sps[i as int].1@) != self@->MapOf_1);
                                assert(exists|j: int|
                                    0 <= j < sps.len() && (kind_of_model(
                                        (#[trigger] sps[j]).0@,
                                    ) != self@->MapOf_0 || kind_of_model(sps[j].1@)
                                        != self@->MapOf_1));
                            }
                            return Err(
                                ValueError::TypeMismatch {
                                    expected: String::from_str(K::type_name_str()),
                                    actual: String::from_str(V::type_name_str()),
                                },
                            );
                        },
                    }
                    i += 1;
                }
                Ok(out)
            },
            TypedInner::RawBytes(tb) => {
                let b: &Vec<u8> = &tb.bytes;
                let blen = b.len();
                if blen < 8 {
                    return Err(
                        ValueError::MalformedWire { fault: WireFault::TruncatedPayload },
                    );
                }
                let count_slice = slice_subrange(b.as_slice(), 0, 8);
                proof {
                    assert(count_slice@ =~= tb.bytes@.subrange(0, 8));
                }
                let count = vstd::bytes::u64_from_le_bytes(count_slice);
                proof {
                    lemma_typed_suffix_skip(tb.bytes@, 0, 8);
                    assert(tb.bytes@.subrange(0, tb.bytes@.len() as int) =~= tb.bytes@);
                }
                match decode_kv_pairs::<K, V>(b.as_slice(), 8, count) {
                    Some((out, _)) => Ok(out),
                    None => Err(
                        ValueError::DecodeError {
                            type_name_str: String::from_str(K::type_name_str()),
                        },
                    ),
                }
            },
            _ => Err(
                ValueError::CategoryMismatch {
                    requested: crate::category::ValueCategory::Mapping,
                    held: crate::category::ValueCategory::Primitive,
                },
            ),
        }
    }

    /// Serialize with the one-byte marker convention.
    pub fn to_bytes(&self) -> (r: Result<Vec<u8>, ValueError>)
        ensures
            r is Ok,
            self@ is Null ==> (r matches Ok(v) && v@ == seq![5u8]),
            self@ matches TypedInner::Single(p) ==> r matches Ok(v) && v@ == seq![1u8]
                + spec_encode_prim(p@),
            self@ matches TypedInner::ListOf(k, es) ==> r matches Ok(v) && v@ == seq![2u8]
                + spec_u64_to_le_bytes(es@.len() as u64) + crate::wire::spec_encode_prims(
                es@.map_values(|p: PrimValue| p@),
            ),
            self@ matches TypedInner::MapOf(kk, vk, ps) ==> r matches Ok(v) && v@ == seq![3u8]
                + spec_u64_to_le_bytes(ps@.len() as u64) + spec_encode_kv_pairs(
                ps@.map_values(|kv: (PrimValue, PrimValue)| (kv.0@, kv.1@)),
            ),
            self@ matches TypedInner::Rec(rv) ==> r matches Ok(v) && v@ == seq![4u8]
                + spec_encode_prim(PrimModel::Text(rv@.0)) + crate::wire::spec_encode_prims(
                rv@.1,
            ),
            self@ matches TypedInner::RawBytes(tb) ==> r matches Ok(v) && v@ == (match tb.type_info {
                TypeInfo::List(_) => seq![2u8] + tb.bytes@,
                TypeInfo::Mapping(_, _) => seq![3u8] + tb.bytes@,
                TypeInfo::Struct(name) => seq![4u8] + spec_encode_prim(PrimModel::Text(name@))
                    + tb.bytes@,
                _ => seq![6u8] + tb.bytes@,
            }),
    {
        let mut out: Vec<u8> = Vec::new();
        match &self.inner {
            TypedInner::Single(p) => {
                out.push(1u8);
                encode_prim(p, &mut out);
                proof {
                    assert(out@ =~= seq![1u8] + spec_encode_prim(self@->Single_0@));
                }
            },
            TypedInner::ListOf(_, es) => {
                out.push(2u8);
                let mut len_b = u64_to_le_bytes(es.len() as u64);
                out.append(&mut len_b);
                let ghost models = es@.map_values(|p: PrimValue| p@);
                let n = es.len();
                let mut i: usize = 0;
                proof {
                    assert(models.take(0) =~= Seq::<PrimModel>::empty());
                    assert(crate::wire::spec_encode_prims(models.take(0)) =~= Seq::<u8>::empty());
                    assert(out@ =~= seq![2u8] + spec_u64_to_le_bytes(es@.len() as u64)
                        + crate::wire::spec_encode_prims(models.take(0)));
                }
                while i < n
                    invariant
                        i <= n,
                        n == es@.len(),
                        self@ is ListOf,
                        es@ == self@->ListOf_1@,
                        models == es@.map_values(|p: PrimValue| p@),
                        out@ == seq![2u8] + spec_u64_to_le_bytes(es@.len() as u64)
                            + crate::wire::spec_encode_prims(models.take(i as int)),
                    decreases n - i,
                {
                    encode_prim(&es[i], &mut out);
                    proof {
                        crate::wire::lemma_encode_prims_snoc(
                            models.take(i as int),
                            models[i as int],
                        );
                        assert(models.take(i as int).push(models[i as int]) =~= models.take(
                            i as int + 1,
                        ));
                        assert(out@ =~= seq![2u8] + spec_u64_to_le_bytes(es@.len() as u64)
                            + crate::wire::spec_encode_prims(models.take(i as int + 1)));
                    }
                    i += 1;
                }
                proof {
                    assert(models.take(n as int) =~= models);
                }
            },
            TypedInner::MapOf(_, _, ps) => {
                out.push(3u8);
                let mut len_b = u64_to_le_bytes(ps.len() as u64);
                out.append(&mut len_b);
                let ghost pairs = ps@.map_values(|kv: (PrimValue, PrimValue)| (kv.0@, kv.1@));
                let n = ps.len();
                let mut i: usize = 0;
                proof {
                    assert(pairs.take(0) =~= Seq::<(PrimModel, PrimModel)>::empty());
                    assert(spec_encode_kv_pairs(pairs.take(0)) =~= Seq::<u8>::empty());
                    assert(out@ =~= seq![3u8] + spec_u64_to_le_bytes(ps@.len() as u64)
                        + spec_encode_kv_pairs(pairs.take(0)));
                }
                while i < n
                    invariant
                        i <= n,
                        n == ps@.len(),
                        self@ is MapOf,
                        ps@ == self@->MapOf_2@,
                        pairs == ps@.map_values(|kv: (PrimValue, PrimValue)| (kv.0@, kv.1@)),
                        out@ == seq![3u8] + spec_u64_to_le_bytes(ps@.len() as u64)
                            + spec_encode_kv_pairs(pairs.take(i as int)),
                    decreases n - i,
                {
                    encode_prim(&ps[i].0, &mut out);
                    encode_prim(&ps[i].1, &mut out);
                    proof {
                        lemma_encode_kv_pairs_snoc(pairs.take(i as int), pairs[i as int]);
                        assert(pairs.take(i as int).push(pairs[i as int]) =~= pairs.take(
                            i as int + 1,
                        ));
                        assert(out@ =~= seq![3u8] + spec_u64_to_le_bytes(ps@.len() as u64)
                            + spec_encode_kv_pairs(pairs.take(i as int + 1)));
                    }
                    i += 1;
                }
                proof {
                    assert(pairs.take(n as int) =~= pairs);
                }
            },
            TypedInner::Rec(rv) => {
                out.push(4u8);
                let name = PrimValue::Text(rv.type_name_str.clone());
                encode_prim(&name, &mut out);
                let ghost models = rv.fields@.map_values(|p: PrimValue| p@);
                let n = rv.fields.len();
                let mut i: usize = 0;
                proof {
                    assert(models.take(0) =~= Seq::<PrimModel>::empty());
                    assert(crate::wire::spec_encode_prims(models.take(0)) =~= Seq::<u8>::empty());
                    assert(out@ =~= seq![4u8] + spec_encode_prim(PrimModel::Text(rv@.0))
                        + crate::wire::spec_encode_prims(models.take(0)));
                }
                while i < n
                    invariant
                        i <= n,
                        n == rv.fields@.len(),
                        self@ is Rec,
                        rv@ == self@->Rec_0@,
                        rv.fields@ == self@->Rec_0.fields@,
                        models == rv.fields@.map_values(|p: PrimValue| p@),
                        out@ == seq![4u8] + spec_encode_prim(PrimModel::Text(rv@.0))
                            + crate::wire::spec_encode_prims(models.take(i as int)),
                    decreases n - i,
                {
                    encode_prim(&rv.fields[i], &mut out);
                    proof {
                        crate::wire::lemma_encode_prims_snoc(
                            models.take(i as int),
                            models[i as int],
                        );
                        assert(models.take(i as int).push(models[i as int]) =~= models.take(
                            i as int + 1,
                        ));
                        assert(out@ =~= seq![4u8] + spec_encode_prim(PrimModel::Text(rv@.0))
                            + crate::wire::spec_encode_prims(models.take(i as int + 1)));
                    }
                    i += 1;
                }
                proof {
                    assert(models.take(n as int) =~= models);
                }
            },
            TypedInner::Null => {
                out.push(5u8);
                proof {
                    assert(out@ =~= seq![5u8]);
                }
            },
            TypedInner::RawBytes(tb) => {
                match &tb.type_info {
                    TypeInfo::List(_) => {
                        out.push(2u8);
                    },
                    TypeInfo::Mapping(_, _) => {
                        out.push(3u8);
                    },
                    TypeInfo::Struct(name) => {
                        out.push(4u8);
                        let namev = PrimValue::Text(name.clone());
                        encode_prim(&namev, &mut out);
                    },
                    _ => {
                        out.push(6u8);
                    },
                }
                let b: &Vec<u8> = &tb.bytes;
                out.extend_from_slice(b.as_slice());
                proof {
                    let tbg = self@->RawBytes_0;
                    match tbg.type_info {
                        TypeInfo::List(_) => {
                            assert(out@ =~= seq![2u8] + tbg.bytes@);
                        },
                        TypeInfo::Mapping(_, _) => {
                            assert(out@ =~= seq![3u8] + tbg.bytes@);
                        },
                        TypeInfo::Struct(name) => {
                            assert(out@ =~= seq![4u8] + spec_encode_prim(PrimModel::Text(name@))
                                + tbg.bytes@);
                        },
                        _ => {
                            assert(out@ =~= seq![6u8] + tbg.bytes@);
                        },
                    }
                }
            },
        }
        Ok(out)
    }
}

/// Reconstruct a typed value from marker-prefixed bytes. Every marker but
/// null yields a value whose payload stays as raw bytes with type
/// information until a conversion decodes it.
pub fn value_from_bytes(data: &[u8]) -> (r: Result<TypedValue, ValueError>)
    ensures
        data@.len() == 0 ==> r == Err::<TypedValue, ValueError>(
            ValueError::MalformedWire { fault: WireFault::Empty },
        ),
        data@.len() > 0 ==> match data@[0] {
            5u8 => r matches Ok(v) && v@ is Null,
            1u8 | 2u8 | 3u8 | 4u8 | 6u8 => r matches Ok(v) && (v@ matches TypedInner::RawBytes(
                tb,
            ) && (data@[0] != 4 ==> tb.bytes@ == data@.skip(1))),
            _ => r == Err::<TypedValue, ValueError>(
                ValueError::MalformedWire { fault: WireFault::BadMarker(data@[0]) },
            ),
        },
{
    let n = data.len();
    if n == 0 {
        return Err(ValueError::MalformedWire { fault: WireFault::Empty });
    }
    let marker = *vstd::slice::slice_index_get(data, 0);
    let rest = slice_subrange(data, 1, n);
    proof {
        assert(rest@ =~= data@.skip(1));
    }
    if marker == 1 {
        Ok(TypedValue::new(TypedInner::RawBytes(TypedBytes::new(slice_to_vec(rest), TypeInfo::Raw))))
    } else if marker == 2 {
        Ok(
            TypedValue::new(
                TypedInner::RawBytes(
                    TypedBytes::new(slice_to_vec(rest), TypeInfo::List(Box::new(TypeInfo::Raw))),
                ),
            ),
        )
    } else if marker == 3 {
        Ok(
            TypedValue::new(
                TypedInner::RawBytes(
                    TypedBytes::new(
                        slice_to_vec(rest),
                        TypeInfo::Mapping(Box::new(TypeInfo::Raw), Box::new(TypeInfo::Raw)),
                    ),
                ),
            ),
        )
    } else if marker == 4 {
        match decode_prim(PrimKind::Text, rest, 0) {
            Some((namev, used)) => {
                let name = match namev {
                    PrimValue::Text(s) => s,
                    _ => {
                        proof {
                            assert(false);
                        }
                        String::new()
                    },
                };
                let body = slice_subrange(rest, used, rest.len());
                Ok(
                    TypedValue::new(
                        TypedInner::RawBytes(
                            TypedBytes::new(slice_to_vec(body), TypeInfo::Struct(name)),
                        ),
                    ),
                )
            },
            None => Ok(
                TypedValue::new(
                    TypedInner::RawBytes(
                        TypedBytes::new(
                            slice_to_vec(rest),
                            TypeInfo::Struct(String::from_str("unknown")),
                        ),
                    ),
                ),
            ),
        }
    } else if marker == 5 {
        Ok(TypedValue::null())
    } else if marker == 6 {
        Ok(
            TypedValue::new(
                TypedInner::RawBytes(
                    TypedBytes::new(
                        slice_to_vec(rest),
                        TypeInfo::Primitive(PrimitiveType::Bytes),
                    ),
                ),
            ),
        )
    } else {
        Err(ValueError::MalformedWire { fault: WireFault::BadMarker(marker) })
    }
}

} // verus!
