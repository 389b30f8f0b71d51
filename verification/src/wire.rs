//! The binary codec of whole payloads.
//!
//! A list or map is written as an 8-byte little-endian entry count followed
//! by its entries; a map entry is the text-encoded key followed by the
//! value; a mixed-map entry additionally carries one kind-tag byte between
//! key and value. A record is its fields in declaration order, nothing
//! more. A raw byte blob is a 4-byte big-endian length followed by the
//! bytes. Decoding is driven by a [`CodecKind`], the registry's description
//! of a decoder.

use crate::codec::{decode_prim, encode_prim, prim_encodable, spec_decode_prim, spec_encode_prim};
use crate::payload::{
    DynPayload, ListArc, MapArc, PayloadModel, PrimArc, PrimType, RecordType, RecordValue,
};
use crate::prim::{kind_of_model, F32Bits, F64Bits, PrimKind, PrimModel, PrimValue};
use crate::strmap::StrMap;
use std::sync::Arc;
use vstd::bytes::{
    spec_u32_from_le_bytes, spec_u32_to_le_bytes, spec_u64_from_le_bytes, spec_u64_to_le_bytes,
    u32_from_le_bytes, u32_to_le_bytes, u64_from_le_bytes, u64_to_le_bytes,
};
use vstd::prelude::*;
use vstd::slice::slice_subrange;

verus! {

// --- big-endian 32-bit lengths, used by the raw-bytes payload ---

/// A 32-bit value as four big-endian bytes.
pub open spec fn spec_u32_to_be_bytes(x: u32) -> Seq<u8> {
    spec_u32_to_le_bytes(x).reverse()
}

/// Four big-endian bytes as a 32-bit value.
pub open spec fn spec_u32_from_be_bytes(s: Seq<u8>) -> u32 {
    spec_u32_from_le_bytes(s.reverse())
}

/// Emit four big-endian bytes.
pub fn u32_to_be_bytes(x: u32) -> (r: Vec<u8>)
    ensures
        r@ == spec_u32_to_be_bytes(x),
        r@.len() == 4,
{
    let le = u32_to_le_bytes(x);
    let mut r: Vec<u8> = Vec::new();
    r.push(le[3]);
    r.push(le[2]);
    r.push(le[1]);
    r.push(le[0]);
    proof {
        assert(r@ =~= spec_u32_to_le_bytes(x).reverse());
    }
    r
}

/// Read four big-endian bytes.
pub fn u32_from_be_bytes(s: &[u8]) -> (x: u32)
    requires
        s@.len() == 4,
    ensures
        x == spec_u32_from_be_bytes(s@),
{
    let mut rev: Vec<u8> = Vec::new();
    rev.push(*vstd::slice::slice_index_get(s, 3));
    rev.push(*vstd::slice::slice_index_get(s, 2));
    rev.push(*vstd::slice::slice_index_get(s, 1));
    rev.push(*vstd::slice::slice_index_get(s, 0));
    proof {
        assert(rev@ =~= s@.reverse());
    }
    u32_from_le_bytes(rev.as_slice())
}

/// Big-endian round trip.
pub broadcast proof fn lemma_u32_be_roundtrip(x: u32)
    ensures
        #[trigger] spec_u32_from_be_bytes(spec_u32_to_be_bytes(x)) == x,
        spec_u32_to_be_bytes(x).len() == 4,
{
    vstd::bytes::lemma_auto_spec_u32_to_from_le_bytes();
    assert(spec_u32_to_be_bytes(x).reverse() =~= spec_u32_to_le_bytes(x));
}

// --- kind tags of the mixed-value map ---

/// The tag byte of a primitive kind inside a mixed-value map.
pub open spec fn spec_kind_tag(k: PrimKind) -> u8 {
    match k {
        PrimKind::Unit => 0,
        PrimKind::Int32 => 1,
        PrimKind::Int64 => 2,
        PrimKind::Float32 => 3,
        PrimKind::Float64 => 4,
        PrimKind::Boolean => 5,
        PrimKind::Text => 6,
    }
}

/// The kind a tag byte stands for, if any.
pub open spec fn spec_kind_of_tag(b: u8) -> Option<PrimKind> {
    if b == 0 {
        Some(PrimKind::Unit)
    } else if b == 1 {
        Some(PrimKind::Int32)
    } else if b == 2 {
        Some(PrimKind::Int64)
    } else if b == 3 {
        Some(PrimKind::Float32)
    } else if b == 4 {
        Some(PrimKind::Float64)
    } else if b == 5 {
        Some(PrimKind::Boolean)
    } else if b == 6 {
        Some(PrimKind::Text)
    } else {
        None
    }
}

/// Exec form of [`spec_kind_tag`].
pub fn kind_tag(k: PrimKind) -> (r: u8)
    ensures
        r == spec_kind_tag(k),
{
    match k {
        PrimKind::Unit => 0,
        PrimKind::Int32 => 1,
        PrimKind::Int64 => 2,
        PrimKind::Float32 => 3,
        PrimKind::Float64 => 4,
        PrimKind::Boolean => 5,
        PrimKind::Text => 6,
    }
}

/// Exec form of [`spec_kind_of_tag`].
pub fn kind_of_tag(b: u8) -> (r: Option<PrimKind>)
    ensures
        r == spec_kind_of_tag(b),
{
    if b == 0 {
        Some(PrimKind::Unit)
    } else if b == 1 {
        Some(PrimKind::Int32)
    } else if b == 2 {
        Some(PrimKind::Int64)
    } else if b == 3 {
        Some(PrimKind::Float32)
    } else if b == 4 {
        Some(PrimKind::Float64)
    } else if b == 5 {
        Some(PrimKind::Boolean)
    } else if b == 6 {
        Some(PrimKind::Text)
    } else {
        None
    }
}

/// The tag mapping loses nothing.
pub broadcast proof fn lemma_kind_tag_roundtrip(k: PrimKind)
    ensures
        #[trigger] spec_kind_of_tag(spec_kind_tag(k)) == Some(k),
{
}

// --- encoding of element sequences ---

/// The concatenated encodings of a sequence of primitive models.
pub open spec fn spec_encode_prims(s: Seq<PrimModel>) -> Seq<u8>
    decreases s.len(),
{
    if s.len() == 0 {
        Seq::<u8>::empty()
    } else {
        spec_encode_prim(s[0]) + spec_encode_prims(s.drop_first())
    }
}

/// The concatenated encodings of homogeneous map entries.
pub open spec fn spec_encode_entries(s: Seq<(Seq<char>, PrimModel)>) -> Seq<u8>
    decreases s.len(),
{
    if s.len() == 0 {
        Seq::<u8>::empty()
    } else {
        spec_encode_prim(PrimModel::Text(s[0].0)) + spec_encode_prim(s[0].1)
            + spec_encode_entries(s.drop_first())
    }
}

/// The concatenated encodings of mixed map entries: key, kind tag, value.
pub open spec fn spec_encode_dyn_entries(s: Seq<(Seq<char>, PrimModel)>) -> Seq<u8>
    decreases s.len(),
{
    if s.len() == 0 {
        Seq::<u8>::empty()
    } else {
        spec_encode_prim(PrimModel::Text(s[0].0)) + seq![spec_kind_tag(kind_of_model(s[0].1))]
            + spec_encode_prim(s[0].1) + spec_encode_dyn_entries(s.drop_first())
    }
}

/// The encoded payload bytes of a payload model.
pub open spec fn spec_encode_payload(m: PayloadModel) -> Seq<u8> {
    match m {
        PayloadModel::Prim(p) => spec_encode_prim(p),
        PayloadModel::ListP(_, es) => spec_u64_to_le_bytes(es.len() as u64) + spec_encode_prims(es),
        PayloadModel::MapP(_, en) => spec_u64_to_le_bytes(en.len() as u64) + spec_encode_entries(
            en,
        ),
        PayloadModel::MapDyn(en) => spec_u64_to_le_bytes(en.len() as u64)
            + spec_encode_dyn_entries(en),
        PayloadModel::Rec(_, fs) => spec_encode_prims(fs),
        PayloadModel::Raw(b) => spec_u32_to_be_bytes(b.len() as u32) + b,
        PayloadModel::Unit => Seq::<u8>::empty(),
    }
}

/// A payload the machine can encode: entry counts fit the length prefixes,
/// texts fit theirs, list and map entries are homogeneous of the stated
/// kind.
pub open spec fn payload_encodable(m: PayloadModel) -> bool {
    match m {
        PayloadModel::Prim(p) => prim_encodable(p) && kind_of_model(p) != PrimKind::Unit,
        PayloadModel::ListP(k, es) => k != PrimKind::Unit && es.len() <= u64::MAX && forall|i: int|
            0 <= i < es.len() ==> kind_of_model(#[trigger] es[i]) == k && prim_encodable(es[i]),
        PayloadModel::MapP(k, en) => k != PrimKind::Unit && en.len() <= u64::MAX && forall|i: int|
            0 <= i < en.len() ==> kind_of_model((#[trigger] en[i]).1) == k && prim_encodable(
                en[i].1,
            ) && prim_encodable(PrimModel::Text(en[i].0)),
        PayloadModel::MapDyn(en) => en.len() <= u64::MAX && forall|i: int|
            0 <= i < en.len() ==> prim_encodable((#[trigger] en[i]).1) && prim_encodable(
                PrimModel::Text(en[i].0),
            ),
        PayloadModel::Rec(_, fs) => forall|i: int|
            0 <= i < fs.len() ==> prim_encodable(#[trigger] fs[i]),
        PayloadModel::Raw(b) => b.len() <= u32::MAX,
        PayloadModel::Unit => true,
    }
}

/// Appending one model to a sequence appends its encoding.
pub proof fn lemma_encode_prims_snoc(s: Seq<PrimModel>, x: PrimModel)
    ensures
        spec_encode_prims(s.push(x)) == spec_encode_prims(s) + spec_encode_prim(x),
    decreases s.len(),
{
    let t = s.push(x);
    if s.len() == 0 {
        assert(t[0] == x);
        assert(t.drop_first() =~= Seq::<PrimModel>::empty());
        assert(spec_encode_prims(t) == spec_encode_prim(x) + spec_encode_prims(t.drop_first()));
        assert(spec_encode_prims(t) =~= spec_encode_prims(s) + spec_encode_prim(x));
    } else {
        assert(t[0] == s[0]);
        assert(t.drop_first() =~= s.drop_first().push(x));
        lemma_encode_prims_snoc(s.drop_first(), x);
        assert(spec_encode_prims(t) == spec_encode_prim(s[0]) + spec_encode_prims(t.drop_first()));
        assert(spec_encode_prims(s) == spec_encode_prim(s[0]) + spec_encode_prims(s.drop_first()));
        assert(spec_encode_prims(t) =~= spec_encode_prims(s) + spec_encode_prim(x));
    }
}

/// Appending one entry to a map appends its encoding.
pub proof fn lemma_encode_entries_snoc(s: Seq<(Seq<char>, PrimModel)>, x: (Seq<char>, PrimModel))
    ensures
        spec_encode_entries(s.push(x)) == spec_encode_entries(s) + spec_encode_prim(
            PrimModel::Text(x.0),
        ) + spec_encode_prim(x.1),
    decreases s.len(),
{
    let t = s.push(x);
    if s.len() == 0 {
        assert(t[0] == x);
        assert(t.drop_first() =~= Seq::<(Seq<char>, PrimModel)>::empty());
        assert(spec_encode_entries(t) == spec_encode_prim(PrimModel::Text(x.0))
            + spec_encode_prim(x.1) + spec_encode_entries(t.drop_first()));
        assert(spec_encode_entries(t) =~= spec_encode_entries(s) + spec_encode_prim(
            PrimModel::Text(x.0),
        ) + spec_encode_prim(x.1));
    } else {
        assert(t[0] == s[0]);
        assert(t.drop_first() =~= s.drop_first().push(x));
        lemma_encode_entries_snoc(s.drop_first(), x);
        assert(spec_encode_entries(t) == spec_encode_prim(PrimModel::Text(s[0].0))
            + spec_encode_prim(s[0].1) + spec_encode_entries(t.drop_first()));
        assert(spec_encode_entries(s) == spec_encode_prim(PrimModel::Text(s[0].0))
            + spec_encode_prim(s[0].1) + spec_encode_entries(s.drop_first()));
        assert(spec_encode_entries(t) =~= spec_encode_entries(s) + spec_encode_prim(
            PrimModel::Text(x.0),
        ) + spec_encode_prim(x.1));
    }
}

/// Appending one entry to a mixed map appends its encoding.
pub proof fn lemma_encode_dyn_entries_snoc(
    s: Seq<(Seq<char>, PrimModel)>,
    x: (Seq<char>, PrimModel),
)
    ensures
        spec_encode_dyn_entries(s.push(x)) == spec_encode_dyn_entries(s) + spec_encode_prim(
            PrimModel::Text(x.0),
        ) + seq![spec_kind_tag(kind_of_model(x.1))] + spec_encode_prim(x.1),
    decreases s.len(),
{
    let t = s.push(x);
    if s.len() == 0 {
        assert(t[0] == x);
        assert(t.drop_first() =~= Seq::<(Seq<char>, PrimModel)>::empty());
        assert(spec_encode_dyn_entries(t) == spec_encode_prim(PrimModel::Text(x.0))
            + seq![spec_kind_tag(kind_of_model(x.1))] + spec_encode_prim(x.1)
            + spec_encode_dyn_entries(t.drop_first()));
        assert(spec_encode_dyn_entries(t) =~= spec_encode_dyn_entries(s) + spec_encode_prim(
            PrimModel::Text(x.0),
        ) + seq![spec_kind_tag(kind_of_model(x.1))] + spec_encode_prim(x.1));
    } else {
        assert(t[0] == s[0]);
        assert(t.drop_first() =~= s.drop_first().push(x));
        lemma_encode_dyn_entries_snoc(s.drop_first(), x);
        assert(spec_encode_dyn_entries(t) == spec_encode_prim(PrimModel::Text(s[0].0))
            + seq![spec_kind_tag(kind_of_model(s[0].1))] + spec_encode_prim(s[0].1)
            + spec_encode_dyn_entries(t.drop_first()));
        assert(spec_encode_dyn_entries(s) == spec_encode_prim(PrimModel::Text(s[0].0))
            + seq![spec_kind_tag(kind_of_model(s[0].1))] + spec_encode_prim(s[0].1)
            + spec_encode_dyn_entries(s.drop_first()));
        assert(spec_encode_dyn_entries(t) =~= spec_encode_dyn_entries(s) + spec_encode_prim(
            PrimModel::Text(x.0),
        ) + seq![spec_kind_tag(kind_of_model(x.1))] + spec_encode_prim(x.1));
    }
}

/// Append the encodings of a vector of built-in values.
fn encode_list_elems<T: PrimType>(v: &Vec<T>, out: &mut Vec<u8>)
    ensures
        final(out)@ == old(out)@ + spec_encode_prims(v@.map_values(|x: T| T::model_of(x))),
{
    let ghost models = v@.map_values(|x: T| T::model_of(x));
    let n = v.len();
    let mut i: usize = 0;
    proof {
        assert(models.take(0) =~= Seq::<PrimModel>::empty());
    }
    while i < n
        invariant
            n == v@.len(),
            i <= n,
            models == v@.map_values(|x: T| T::model_of(x)),
            out@ == old(out)@ + spec_encode_prims(models.take(i as int)),
        decreases n - i,
    {
        let p = T::to_prim(T::clone_val(&v[i]));
        encode_prim(&p, out);
        proof {
            lemma_encode_prims_snoc(models.take(i as int), models[i as int]);
            assert(models.take(i as int).push(models[i as int]) =~= models.take(i as int + 1));
        }
        i += 1;
    }
    proof {
        assert(models.take(n as int) =~= models);
    }
}

/// Append the encodings of a map of built-in values.
fn encode_map_entries<T: PrimType>(m: &StrMap<T>, out: &mut Vec<u8>)
    ensures
        final(out)@ == old(out)@ + spec_encode_entries(
            m@.map_values(|kv: (Seq<char>, T)| (kv.0, T::model_of(kv.1))),
        ),
{
    let ghost entries = m@.map_values(|kv: (Seq<char>, T)| (kv.0, T::model_of(kv.1)));
    let pairs = m.entries();
    let n = pairs.len();
    let mut i: usize = 0;
    proof {
        assert(entries.take(0) =~= Seq::<(Seq<char>, PrimModel)>::empty());
    }
    while i < n
        invariant
            n == entries.len(),
            i <= n,
            entries == m@.map_values(|kv: (Seq<char>, T)| (kv.0, T::model_of(kv.1))),
            pairs@.len() == m@.len(),
            forall|j: int| 0 <= j < m@.len() ==> #[trigger] m@[j] == (pairs@[j].0@, pairs@[j].1),
            out@ == old(out)@ + spec_encode_entries(entries.take(i as int)),
        decreases n - i,
    {
        let key = PrimValue::Text(pairs[i].0.clone());
        encode_prim(&key, out);
        let p = T::to_prim(T::clone_val(&pairs[i].1));
        encode_prim(&p, out);
        proof {
            lemma_encode_entries_snoc(entries.take(i as int), entries[i as int]);
            assert(entries.take(i as int).push(entries[i as int]) =~= entries.take(i as int + 1));
        }
        i += 1;
    }
    proof {
        assert(entries.take(n as int) =~= entries);
    }
}

/// Append the encodings of a mixed-value map.
fn encode_dyn_entries(m: &StrMap<PrimValue>, out: &mut Vec<u8>)
    ensures
        final(out)@ == old(out)@ + spec_encode_dyn_entries(
            m@.map_values(|kv: (Seq<char>, PrimValue)| (kv.0, kv.1@)),
        ),
{
    let ghost entries = m@.map_values(|kv: (Seq<char>, PrimValue)| (kv.0, kv.1@));
    let pairs = m.entries();
    let n = pairs.len();
    let mut i: usize = 0;
    proof {
        assert(entries.take(0) =~= Seq::<(Seq<char>, PrimModel)>::empty());
    }
    while i < n
        invariant
            n == entries.len(),
            i <= n,
            entries == m@.map_values(|kv: (Seq<char>, PrimValue)| (kv.0, kv.1@)),
            pairs@.len() == m@.len(),
            forall|j: int| 0 <= j < m@.len() ==> #[trigger] m@[j] == (pairs@[j].0@, pairs@[j].1),
            out@ == old(out)@ + spec_encode_dyn_entries(entries.take(i as int)),
        decreases n - i,
    {
        let key = PrimValue::Text(pairs[i].0.clone());
        encode_prim(&key, out);
        out.push(kind_tag(pairs[i].1.kind()));
        encode_prim(&pairs[i].1.clone_prim(), out);
        proof {
            lemma_encode_dyn_entries_snoc(entries.take(i as int), entries[i as int]);
            assert(entries.take(i as int).push(entries[i as int]) =~= entries.take(i as int + 1));
            assert(out@ =~= old(out)@ + spec_encode_dyn_entries(entries.take(i as int + 1)));
        }
        i += 1;
    }
    proof {
        assert(entries.take(n as int) =~= entries);
    }
}

/// Append the payload encoding of a concrete payload. A raw blob must fit
/// its 4-byte length prefix; every other payload is encodable as it stands.
pub fn encode_payload(p: &DynPayload, out: &mut Vec<u8>)
    requires
        match p@ {
            PayloadModel::Raw(b) => b.len() <= u32::MAX,
            _ => true,
        },
    ensures
        final(out)@ == old(out)@ + spec_encode_payload(p@),
{
    match p {
        DynPayload::Prim(pa) => {
            let pv = match pa {
                PrimArc::Int32(a) => PrimValue::Int32(**a),
                PrimArc::Int64(a) => PrimValue::Int64(**a),
                PrimArc::Float32(a) => PrimValue::Float32(**a),
                PrimArc::Float64(a) => PrimValue::Float64(**a),
                PrimArc::Boolean(a) => PrimValue::Boolean(**a),
                PrimArc::Text(a) => PrimValue::Text((**a).clone()),
            };
            proof {
                assert(pv@ == pa@);
            }
            encode_prim(&pv, out);
        },
        DynPayload::ListP(l) => {
            match l {
                ListArc::Int32(a) => {
                    let mut len_b = u64_to_le_bytes(a.len() as u64);
                    out.append(&mut len_b);
                    encode_list_elems(&**a, out);
                    proof {
                        assert(a@.map_values(|v: i32| PrimModel::Int32(v)) =~= a@.map_values(
                            |v: i32| <i32 as PrimType>::model_of(v),
                        ));
                        assert(out@ =~= old(out)@ + spec_encode_payload(p@));
                    }
                },
                ListArc::Int64(a) => {
                    let mut len_b = u64_to_le_bytes(a.len() as u64);
                    out.append(&mut len_b);
                    encode_list_elems(&**a, out);
                    proof {
                        assert(a@.map_values(|v: i64| PrimModel::Int64(v)) =~= a@.map_values(
                            |v: i64| <i64 as PrimType>::model_of(v),
                        ));
                        assert(out@ =~= old(out)@ + spec_encode_payload(p@));
                    }
                },
                ListArc::Float32(a) => {
                    let mut len_b = u64_to_le_bytes(a.len() as u64);
                    out.append(&mut len_b);
                    encode_list_elems(&**a, out);
                    proof {
                        assert(a@.map_values(|v: F32Bits| PrimModel::Float32(v.0)) =~= a@.map_values(
                            |v: F32Bits| <F32Bits as PrimType>::model_of(v),
                        ));
                        assert(out@ =~= old(out)@ + spec_encode_payload(p@));
                    }
                },
                ListArc::Float64(a) => {
                    let mut len_b = u64_to_le_bytes(a.len() as u64);
                    out.append(&mut len_b);
                    encode_list_elems(&**a, out);
                    proof {
                        assert(a@.map_values(|v: F64Bits| PrimModel::Float64(v.0)) =~= a@.map_values(
                            |v: F64Bits| <F64Bits as PrimType>::model_of(v),
                        ));
                        assert(out@ =~= old(out)@ + spec_encode_payload(p@));
                    }
                },
                ListArc::Boolean(a) => {
                    let mut len_b = u64_to_le_bytes(a.len() as u64);
                    out.append(&mut len_b);
                    encode_list_elems(&**a, out);
                    proof {
                        assert(a@.map_values(|v: bool| PrimModel::Boolean(v)) =~= a@.map_values(
                            |v: bool| <bool as PrimType>::model_of(v),
                        ));
                        assert(out@ =~= old(out)@ + spec_encode_payload(p@));
                    }
                },
                ListArc::Text(a) => {
                    let mut len_b = u64_to_le_bytes(a.len() as u64);
                    out.append(&mut len_b);
                    encode_list_elems(&**a, out);
                    proof {
                        assert(a@.map_values(|v: String| PrimModel::Text(v@)) =~= a@.map_values(
                            |v: String| <String as PrimType>::model_of(v),
                        ));
                        assert(out@ =~= old(out)@ + spec_encode_payload(p@));
                    }
                },
            }
        },
        DynPayload::MapP(m) => {
            match m {
                MapArc::Int32(a) => {
                    let mut len_b = u64_to_le_bytes(a.len() as u64);
                    out.append(&mut len_b);
                    encode_map_entries(&**a, out);
                    proof {
                        assert(a@.map_values(|kv: (Seq<char>, i32)| (kv.0, PrimModel::Int32(kv.1))) =~= a@.map_values(
                            |kv: (Seq<char>, i32)| (kv.0, <i32 as PrimType>::model_of(kv.1)),
                        ));
                        assert(out@ =~= old(out)@ + spec_encode_payload(p@));
                    }
                },
                MapArc::Int64(a) => {
                    let mut len_b = u64_to_le_bytes(a.len() as u64);
                    out.append(&mut len_b);
                    encode_map_entries(&**a, out);
                    proof {
                        assert(a@.map_values(|kv: (Seq<char>, i64)| (kv.0, PrimModel::Int64(kv.1))) =~= a@.map_values(
                            |kv: (Seq<char>, i64)| (kv.0, <i64 as PrimType>::model_of(kv.1)),
                        ));
                        assert(out@ =~= old(out)@ + spec_encode_payload(p@));
                    }
                },
                MapArc::Float32(a) => {
                    let mut len_b = u64_to_le_bytes(a.len() as u64);
                    out.append(&mut len_b);
                    encode_map_entries(&**a, out);
                    proof {
                        assert(a@.map_values(|kv: (Seq<char>, F32Bits)| (kv.0, PrimModel::Float32(kv.1.0))) =~= a@.map_values(
                            |kv: (Seq<char>, F32Bits)| (kv.0, <F32Bits as PrimType>::model_of(kv.1)),
                        ));
                        assert(out@ =~= old(out)@ + spec_encode_payload(p@));
                    }
                },
                MapArc::Float64(a) => {
                    let mut len_b = u64_to_le_bytes(a.len() as u64);
                    out.append(&mut len_b);
                    encode_map_entries(&**a, out);
                    proof {
                        assert(a@.map_values(|kv: (Seq<char>, F64Bits)| (kv.0, PrimModel::Float64(kv.1.0))) =~= a@.map_values(
                            |kv: (Seq<char>, F64Bits)| (kv.0, <F64Bits as PrimType>::model_of(kv.1)),
                        ));
                        assert(out@ =~= old(out)@ + spec_encode_payload(p@));
                    }
                },
                MapArc::Boolean(a) => {
                    let mut len_b = u64_to_le_bytes(a.len() as u64);
                    out.append(&mut len_b);
                    encode_map_entries(&**a, out);
                    proof {
                        assert(a@.map_values(|kv: (Seq<char>, bool)| (kv.0, PrimModel::Boolean(kv.1))) =~= a@.map_values(
                            |kv: (Seq<char>, bool)| (kv.0, <bool as PrimType>::model_of(kv.1)),
                        ));
                        assert(out@ =~= old(out)@ + spec_encode_payload(p@));
                    }
                },
                MapArc::Text(a) => {
                    let mut len_b = u64_to_le_bytes(a.len() as u64);
                    out.append(&mut len_b);
                    encode_map_entries(&**a, out);
                    proof {
                        assert(a@.map_values(|kv: (Seq<char>, String)| (kv.0, PrimModel::Text(kv.1@))) =~= a@.map_values(
                            |kv: (Seq<char>, String)| (kv.0, <String as PrimType>::model_of(kv.1)),
                        ));
                        assert(out@ =~= old(out)@ + spec_encode_payload(p@));
                    }
                },
            }
        },
        DynPayload::MapDyn(a) => {
            let mut len_b = u64_to_le_bytes(a.len() as u64);
            out.append(&mut len_b);
            encode_dyn_entries(&**a, out);
            proof {
                assert(out@ =~= old(out)@ + spec_encode_payload(p@));
            }
        },
        DynPayload::Rec(r) => {
            let ghost models = r.fields@.map_values(|x: PrimValue| x@);
            let n = r.fields.len();
            let mut i: usize = 0;
            proof {
                assert(models.take(0) =~= Seq::<PrimModel>::empty());
            }
            while i < n
                invariant
                    n == models.len(),
                    models == r.fields@.map_values(|x: PrimValue| x@),
                    i <= n,
                    out@ == old(out)@ + spec_encode_prims(models.take(i as int)),
                decreases n - i,
            {
                encode_prim(&r.fields[i], out);
                proof {
                    lemma_encode_prims_snoc(models.take(i as int), models[i as int]);
                    assert(models.take(i as int).push(models[i as int]) =~= models.take(
                        i as int + 1,
                    ));
                }
                i += 1;
            }
            proof {
                assert(models.take(n as int) =~= models);
                assert(models =~= r@.1);
                assert(out@ =~= old(out)@ + spec_encode_payload(p@));
            }
        },
        DynPayload::Raw(a) => {
            let mut len_b = u32_to_be_bytes(a.len() as u32);
            out.append(&mut len_b);
            out.extend_from_slice(a.as_slice());
            proof {
                assert(out@ =~= old(out)@ + spec_encode_payload(p@));
            }
        },
        DynPayload::Unit => {
            proof {
                assert(out@ =~= old(out)@ + spec_encode_payload(p@));
            }
        },
    }
}

// --- decoder descriptions ---

/// The registry's description of one decoder: what shape of payload a
/// registered type name decodes to.
#[derive(Debug, Clone)]
pub enum CodecKind {
    /// One primitive value of the kind.
    Prim(PrimKind),
    /// A homogeneous list of the element kind.
    ListOf(PrimKind),
    /// A homogeneous string-keyed map of the value kind.
    MapOf(PrimKind),
    /// A string-keyed map of mixed primitive values.
    DynMap,
    /// A record of the given type.
    Record(RecordType),
    /// A raw byte blob behind a 4-byte big-endian length.
    RawBytes,
}

/// The model of a decoder description.
pub enum CodecKindModel {
    Prim(PrimKind),
    ListOf(PrimKind),
    MapOf(PrimKind),
    DynMap,
    Record(Seq<char>, Seq<PrimKind>),
    RawBytes,
}

impl View for CodecKind {
    type V = CodecKindModel;

    open spec fn view(&self) -> CodecKindModel {
        match self {
            CodecKind::Prim(k) => CodecKindModel::Prim(*k),
            CodecKind::ListOf(k) => CodecKindModel::ListOf(*k),
            CodecKind::MapOf(k) => CodecKindModel::MapOf(*k),
            CodecKind::DynMap => CodecKindModel::DynMap,
            CodecKind::Record(t) => CodecKindModel::Record(t@.0, t@.1),
            CodecKind::RawBytes => CodecKindModel::RawBytes,
        }
    }
}

/// The type name a decoder description naturally decodes.
pub open spec fn spec_codec_type_name(ck: CodecKindModel) -> Seq<char> {
    match ck {
        CodecKindModel::Prim(k) => crate::payload::spec_kind_type_name(k),
        CodecKindModel::ListOf(k) => crate::payload::spec_list_type_name(k),
        CodecKindModel::MapOf(k) => crate::payload::spec_map_type_name(k),
        CodecKindModel::DynMap => crate::payload::spec_dyn_map_type_name(),
        CodecKindModel::Record(name, _) => name,
        CodecKindModel::RawBytes => crate::payload::spec_raw_type_name(),
    }
}

impl CodecKind {
    /// The type name this description naturally decodes.
    pub fn codec_type_name(&self) -> (r: String)
        ensures
            r@ == spec_codec_type_name(self@),
    {
        match self {
            CodecKind::Prim(k) => String::from_str(crate::payload::kind_type_name(*k)),
            CodecKind::ListOf(k) => String::from_str(crate::payload::list_type_name(*k)),
            CodecKind::MapOf(k) => String::from_str(crate::payload::map_type_name(*k)),
            CodecKind::DynMap => String::from_str(crate::payload::dyn_map_type_name()),
            CodecKind::Record(t) => t.name.clone(),
            CodecKind::RawBytes => String::from_str(crate::payload::raw_type_name()),
        }
    }

    /// A copy of this description with an equal model.
    pub fn clone_codec_kind(&self) -> (r: CodecKind)
        ensures
            r@ == self@,
    {
        match self {
            CodecKind::Prim(k) => CodecKind::Prim(*k),
            CodecKind::ListOf(k) => CodecKind::ListOf(*k),
            CodecKind::MapOf(k) => CodecKind::MapOf(*k),
            CodecKind::DynMap => CodecKind::DynMap,
            CodecKind::Record(t) => CodecKind::Record(t.clone_record_type()),
            CodecKind::RawBytes => CodecKind::RawBytes,
        }
    }
}

/// The decoder description a payload naturally decodes through.
pub open spec fn spec_codec_kind_of(m: PayloadModel) -> CodecKindModel {
    match m {
        PayloadModel::Prim(p) => CodecKindModel::Prim(kind_of_model(p)),
        PayloadModel::ListP(k, _) => CodecKindModel::ListOf(k),
        PayloadModel::MapP(k, _) => CodecKindModel::MapOf(k),
        PayloadModel::MapDyn(_) => CodecKindModel::DynMap,
        PayloadModel::Rec(name, fs) => CodecKindModel::Record(
            name,
            fs.map_values(|f: PrimModel| kind_of_model(f)),
        ),
        PayloadModel::Raw(_) => CodecKindModel::RawBytes,
        PayloadModel::Unit => CodecKindModel::Prim(PrimKind::Unit),
    }
}

// --- decoding of element sequences ---

/// Decoding `n` primitive values of one kind from the front of `s`.
pub open spec fn spec_decode_prims(k: PrimKind, s: Seq<u8>, n: nat) -> Option<(Seq<PrimModel>, int)>
    decreases n,
{
    if n == 0 {
        Some((Seq::<PrimModel>::empty(), 0))
    } else {
        match spec_decode_prim(k, s) {
            Some((m, u)) => match spec_decode_prims(k, s.skip(u), (n - 1) as nat) {
                Some((ms, u2)) => Some((seq![m] + ms, u + u2)),
                None => None,
            },
            None => None,
        }
    }
}

/// Decoding `n` homogeneous map entries from the front of `s`.
pub open spec fn spec_decode_entries(k: PrimKind, s: Seq<u8>, n: nat) -> Option<
    (Seq<(Seq<char>, PrimModel)>, int),
>
    decreases n,
{
    if n == 0 {
        Some((Seq::<(Seq<char>, PrimModel)>::empty(), 0))
    } else {
        match spec_decode_prim(PrimKind::Text, s) {
            Some((keym, u1)) => match keym {
                PrimModel::Text(key) => match spec_decode_prim(k, s.skip(u1)) {
                    Some((m, u2)) => match spec_decode_entries(k, s.skip(u1 + u2), (n - 1) as nat) {
                        Some((ens, u3)) => Some((seq![(key, m)] + ens, u1 + u2 + u3)),
                        None => None,
                    },
                    None => None,
                },
                _ => None,
            },
            None => None,
        }
    }
}

/// Decoding `n` mixed map entries (key, kind tag, value) from the front of
/// `s`.
pub open spec fn spec_decode_dyn_entries(s: Seq<u8>, n: nat) -> Option<
    (Seq<(Seq<char>, PrimModel)>, int),
>
    decreases n,
{
    if n == 0 {
        Some((Seq::<(Seq<char>, PrimModel)>::empty(), 0))
    } else {
        match spec_decode_prim(PrimKind::Text, s) {
            Some((keym, u1)) => match keym {
                PrimModel::Text(key) => if u1 < s.len() {
                    match spec_kind_of_tag(s[u1]) {
                        Some(k) => match spec_decode_prim(k, s.skip(u1 + 1)) {
                            Some((m, u2)) => match spec_decode_dyn_entries(
                                s.skip(u1 + 1 + u2),
                                (n - 1) as nat,
                            ) {
                                Some((ens, u3)) => Some((seq![(key, m)] + ens, u1 + 1 + u2 + u3)),
                                None => None,
                            },
                            None => None,
                        },
                        None => None,
                    }
                } else {
                    None
                },
                _ => None,
            },
            None => None,
        }
    }
}

/// Decoding record fields of the given shape from the front of `s`.
pub open spec fn spec_decode_fields(shape: Seq<PrimKind>, s: Seq<u8>) -> Option<
    (Seq<PrimModel>, int),
>
    decreases shape.len(),
{
    if shape.len() == 0 {
        Some((Seq::<PrimModel>::empty(), 0))
    } else {
        match spec_decode_prim(shape[0], s) {
            Some((m, u)) => match spec_decode_fields(shape.drop_first(), s.skip(u)) {
                Some((ms, u2)) => Some((seq![m] + ms, u + u2)),
                None => None,
            },
            None => None,
        }
    }
}

/// Decoding a payload through a decoder description: the decoded model and
/// the bytes consumed. Trailing bytes are allowed.
pub open spec fn spec_decode_payload(ck: CodecKindModel, s: Seq<u8>) -> Option<(PayloadModel, int)> {
    match ck {
        CodecKindModel::Prim(k) => if k is Unit {
            Some((PayloadModel::Unit, 0))
        } else {
            match spec_decode_prim(k, s) {
                Some((m, u)) => Some((PayloadModel::Prim(m), u)),
                None => None,
            }
        },
        CodecKindModel::ListOf(k) => if k is Unit {
            None
        } else if s.len() >= 8 {
            let n = spec_u64_from_le_bytes(s.subrange(0, 8));
            match spec_decode_prims(k, s.skip(8), n as nat) {
                Some((ms, u)) => Some((PayloadModel::ListP(k, ms), 8 + u)),
                None => None,
            }
        } else {
            None
        },
        CodecKindModel::MapOf(k) => if k is Unit {
            None
        } else if s.len() >= 8 {
            let n = spec_u64_from_le_bytes(s.subrange(0, 8));
            match spec_decode_entries(k, s.skip(8), n as nat) {
                Some((ens, u)) => Some((PayloadModel::MapP(k, ens), 8 + u)),
                None => None,
            }
        } else {
            None
        },
        CodecKindModel::DynMap => if s.len() >= 8 {
            let n = spec_u64_from_le_bytes(s.subrange(0, 8));
            match spec_decode_dyn_entries(s.skip(8), n as nat) {
                Some((ens, u)) => Some((PayloadModel::MapDyn(ens), 8 + u)),
                None => None,
            }
        } else {
            None
        },
        CodecKindModel::Record(name, shape) => match spec_decode_fields(shape, s) {
            Some((fs, u)) => Some((PayloadModel::Rec(name, fs), u)),
            None => None,
        },
        CodecKindModel::RawBytes => if s.len() >= 4 {
            let n = spec_u32_from_be_bytes(s.subrange(0, 4)) as int;
            if 4 + n <= s.len() {
                Some((PayloadModel::Raw(s.subrange(4, 4 + n)), 4 + n))
            } else {
                None
            }
        } else {
            None
        },
    }
}

/// A decoded primitive has the kind it was decoded as, and consumes no
/// more than the input.
pub proof fn lemma_decode_prim_shape(k: PrimKind, s: Seq<u8>)
    ensures
        spec_decode_prim(k, s) matches Some((m, u)) ==> kind_of_model(m) == k && 0 <= u <= s.len(),
{
}

/// A suffix taken further along is the skip of the earlier suffix.
proof fn lemma_suffix_skip(b: Seq<u8>, pos: int, u: int)
    requires
        0 <= pos,
        0 <= u,
        pos + u <= b.len(),
    ensures
        b.subrange(pos + u, b.len() as int) =~= b.subrange(pos, b.len() as int).skip(u),
{
}

/// Decode `count` values of one built-in type, starting at `pos`.
pub(crate) fn decode_list<T: PrimType>(b: &[u8], pos: usize, count: u64) -> (r: Option<(Vec<T>, usize)>)
    requires
        pos <= b@.len(),
    ensures
        ({
            let suffix = b@.subrange(pos as int, b@.len() as int);
            match r {
                Some((v, used)) => pos + used <= b@.len() && spec_decode_prims(
                    T::kind_spec(),
                    suffix,
                    count as nat,
                ) == Some((v@.map_values(|x: T| T::model_of(x)), used as int)),
                None => spec_decode_prims(T::kind_spec(), suffix, count as nat) is None,
            }
        }),
{
    let ghost suffix0 = b@.subrange(pos as int, b@.len() as int);
    let ghost goal = spec_decode_prims(T::kind_spec(), suffix0, count as nat);
    let blen = b.len();
    let mut acc: Vec<T> = Vec::new();
    let mut cur: usize = pos;
    let mut i: u64 = 0;
    proof {
        assert(acc@.map_values(|x: T| T::model_of(x)) =~= Seq::<PrimModel>::empty());
    }
    while i < count
        invariant
            pos <= cur <= b@.len(),
            blen == b@.len(),
            i <= count,
            suffix0 == b@.subrange(pos as int, b@.len() as int),
            goal == spec_decode_prims(T::kind_spec(), suffix0, count as nat),
            match goal {
                Some((ms, u)) => {
                    &&& ms.len() >= i
                    &&& acc@.map_values(|x: T| T::model_of(x)) == ms.take(i as int)
                    &&& spec_decode_prims(
                        T::kind_spec(),
                        b@.subrange(cur as int, b@.len() as int),
                        (count - i) as nat,
                    ) == Some((ms.skip(i as int), u - (cur - pos)))
                },
                None => spec_decode_prims(
                    T::kind_spec(),
                    b@.subrange(cur as int, b@.len() as int),
                    (count - i) as nat,
                ) is None,
            },
        decreases count - i,
    {
        let ghost cur_suffix = b@.subrange(cur as int, b@.len() as int);
        match decode_prim(T::kind(), b, cur) {
            Some((pv, u1)) => {
                proof {
                    lemma_decode_prim_shape(T::kind_spec(), cur_suffix);
                    lemma_suffix_skip(b@, cur as int, u1 as int);
                }
                match T::from_prim(&pv) {
                    Some(v) => {
                        let ghost old_acc = acc@;
                        acc.push(v);
                        proof {
                            if goal is Some {
                                let (ms, u) = goal->Some_0;
                                let tail = ms.skip(i as int);
                                assert(tail[0] == pv@);
                                assert(tail.len() == ms.len() - i);
                                assert(tail[0] == ms[i as int]);
                                assert(acc@.map_values(|x: T| T::model_of(x)) =~= ms.take(
                                    i as int + 1,
                                ));
                                assert(ms.skip(i as int).drop_first() =~= ms.skip(i as int + 1));
                            }
                        }
                        cur = cur + u1;
                        i = i + 1;
                    },
                    None => {
                        proof {
                            assert(false);
                        }
                        return None;
                    },
                }
            },
            None => {
                proof {
                    if goal is Some {
                        assert(spec_decode_prims(
                            T::kind_spec(),
                            cur_suffix,
                            (count - i) as nat,
                        ) is Some);
                        assert(spec_decode_prim(T::kind_spec(), cur_suffix) is Some);
                    }
                }
                return None;
            },
        }
    }
    proof {
        if goal is Some {
            let (ms, u) = goal->Some_0;
            assert(spec_decode_prims(
                T::kind_spec(),
                b@.subrange(cur as int, b@.len() as int),
                0,
            ) == Some((ms.skip(i as int), u - (cur - pos))));
            assert(ms.skip(i as int) =~= Seq::<PrimModel>::empty());
            assert(ms.len() == i);
            assert(ms.take(i as int) =~= ms);
        } else {
            assert(false);
        }
    }
    Some((acc, cur - pos))
}

/// Decode `count` map entries of one built-in value type, starting at
/// `pos`.
fn decode_map_entries<T: PrimType>(b: &[u8], pos: usize, count: u64) -> (r: Option<
    (StrMap<T>, usize),
>)
    requires
        pos <= b@.len(),
    ensures
        ({
            let suffix = b@.subrange(pos as int, b@.len() as int);
            match r {
                Some((m, used)) => pos + used <= b@.len() && spec_decode_entries(
                    T::kind_spec(),
                    suffix,
                    count as nat,
                ) == Some(
                    (m@.map_values(|kv: (Seq<char>, T)| (kv.0, T::model_of(kv.1))), used as int),
                ),
                None => spec_decode_entries(T::kind_spec(), suffix, count as nat) is None,
            }
        }),
{
    let ghost suffix0 = b@.subrange(pos as int, b@.len() as int);
    let ghost goal = spec_decode_entries(T::kind_spec(), suffix0, count as nat);
    let blen = b.len();
    let mut acc: StrMap<T> = StrMap::new();
    let mut cur: usize = pos;
    let mut i: u64 = 0;
    proof {
        assert(acc@.map_values(|kv: (Seq<char>, T)| (kv.0, T::model_of(kv.1))) =~= Seq::<
            (Seq<char>, PrimModel),
        >::empty());
    }
    while i < count
        invariant
            pos <= cur <= b@.len(),
            blen == b@.len(),
            i <= count,
            suffix0 == b@.subrange(pos as int, b@.len() as int),
            goal == spec_decode_entries(T::kind_spec(), suffix0, count as nat),
            match goal {
                Some((ens, u)) => {
                    &&& ens.len() >= i
                    &&& acc@.map_values(|kv: (Seq<char>, T)| (kv.0, T::model_of(kv.1)))
                        == ens.take(i as int)
                    &&& spec_decode_entries(
                        T::kind_spec(),
                        b@.subrange(cur as int, b@.len() as int),
                        (count - i) as nat,
                    ) == Some((ens.skip(i as int), u - (cur - pos)))
                },
                None => spec_decode_entries(
                    T::kind_spec(),
                    b@.subrange(cur as int, b@.len() as int),
                    (count - i) as nat,
                ) is None,
            },
        decreases count - i,
    {
        let ghost cur_suffix = b@.subrange(cur as int, b@.len() as int);
        let key = match decode_prim(PrimKind::Text, b, cur) {
            Some((kv, u1)) => match kv {
                PrimValue::Text(key) => (key, u1),
                _ => {
                    proof {
                        assert(false);
                    }
                    return None;
                },
            },
            None => {
                return None;
            },
        };
        let (key, u1) = key;
        proof {
            lemma_suffix_skip(b@, cur as int, u1 as int);
        }
        match decode_prim(T::kind(), b, cur + u1) {
            Some((pv, u2)) => {
                proof {
                    lemma_decode_prim_shape(
                        T::kind_spec(),
                        b@.subrange((cur + u1) as int, b@.len() as int),
                    );
                    lemma_suffix_skip(b@, cur as int, (u1 + u2) as int);
                    assert(cur_suffix.skip(u1 as int).skip(u2 as int) =~= cur_suffix.skip(
                        (u1 + u2) as int,
                    ));
                }
                match T::from_prim(&pv) {
                    Some(v) => {
                        acc.push_entry(key, v);
                        proof {
                            if goal is Some {
                                let (ens, u) = goal->Some_0;
                                let tail = ens.skip(i as int);
                                assert(tail[0] == (key@, pv@));
                                assert(tail.len() == ens.len() - i);
                                assert(tail[0] == ens[i as int]);
                                assert(acc@.map_values(
                                    |kv: (Seq<char>, T)| (kv.0, T::model_of(kv.1)),
                                ) =~= ens.take(i as int + 1));
                                assert(tail.drop_first() =~= ens.skip(i as int + 1));
                            }
                        }
                        cur = cur + u1 + u2;
                        i = i + 1;
                    },
                    None => {
                        proof {
                            assert(false);
                        }
                        return None;
                    },
                }
            },
            None => {
                return None;
            },
        }
    }
    proof {
        if goal is Some {
            let (ens, u) = goal->Some_0;
            assert(ens.skip(i as int) =~= Seq::<(Seq<char>, PrimModel)>::empty());
            assert(ens.len() == i);
            assert(ens.take(i as int) =~= ens);
        } else {
            assert(false);
        }
    }
    Some((acc, cur - pos))
}

/// Decode `count` mixed map entries (key, kind tag, value), starting at
/// `pos`.
fn decode_dyn_map(b: &[u8], pos: usize, count: u64) -> (r: Option<(StrMap<PrimValue>, usize)>)
    requires
        pos <= b@.len(),
    ensures
        ({
            let suffix = b@.subrange(pos as int, b@.len() as int);
            match r {
                Some((m, used)) => pos + used <= b@.len() && spec_decode_dyn_entries(
                    suffix,
                    count as nat,
                ) == Some(
                    (m@.map_values(|kv: (Seq<char>, PrimValue)| (kv.0, kv.1@)), used as int),
                ),
                None => spec_decode_dyn_entries(suffix, count as nat) is None,
            }
        }),
{
    let ghost suffix0 = b@.subrange(pos as int, b@.len() as int);
    let ghost goal = spec_decode_dyn_entries(suffix0, count as nat);
    let blen = b.len();
    let mut acc: StrMap<PrimValue> = StrMap::new();
    let mut cur: usize = pos;
    let mut i: u64 = 0;
    proof {
        assert(acc@.map_values(|kv: (Seq<char>, PrimValue)| (kv.0, kv.1@)) =~= Seq::<
            (Seq<char>, PrimModel),
        >::empty());
    }
    while i < count
        invariant
            pos <= cur <= b@.len(),
            blen == b@.len(),
            i <= count,
            suffix0 == b@.subrange(pos as int, b@.len() as int),
            goal == spec_decode_dyn_entries(suffix0, count as nat),
            match goal {
                Some((ens, u)) => {
                    &&& ens.len() >= i
                    &&& acc@.map_values(|kv: (Seq<char>, PrimValue)| (kv.0, kv.1@)) == ens.take(
                        i as int,
                    )
                    &&& spec_decode_dyn_entries(
                        b@.subrange(cur as int, b@.len() as int),
                        (count - i) as nat,
                    ) == Some((ens.skip(i as int), u - (cur - pos)))
                },
                None => spec_decode_dyn_entries(
                    b@.subrange(cur as int, b@.len() as int),
                    (count - i) as nat,
                ) is None,
            },
        decreases count - i,
    {
        let ghost cur_suffix = b@.subrange(cur as int, b@.len() as int);
        let key = match decode_prim(PrimKind::Text, b, cur) {
            Some((kv, u1)) => match kv {
                PrimValue::Text(key) => (key, u1),
                _ => {
                    proof {
                        assert(false);
                    }
                    return None;
                },
            },
            None => {
                return None;
            },
        };
        let (key, u1) = key;
        if cur + u1 >= blen {
            proof {
                assert(u1 >= cur_suffix.len());
            }
            return None;
        }
        let tag = *vstd::slice::slice_index_get(b, cur + u1);
        proof {
            assert(tag == cur_suffix[u1 as int]);
        }
        let k = match kind_of_tag(tag) {
            Some(k) => k,
            None => {
                return None;
            },
        };
        proof {
            lemma_suffix_skip(b@, cur as int, (u1 + 1) as int);
        }
        match decode_prim(k, b, cur + u1 + 1) {
            Some((pv, u2)) => {
                proof {
                    lemma_decode_prim_shape(
                        k,
                        b@.subrange((cur + u1 + 1) as int, b@.len() as int),
                    );
                    lemma_suffix_skip(b@, cur as int, (u1 + 1 + u2) as int);
                    assert(cur_suffix.skip((u1 + 1) as int).skip(u2 as int) =~= cur_suffix.skip(
                        (u1 + 1 + u2) as int,
                    ));
                }
                acc.push_entry(key, pv);
                proof {
                    if goal is Some {
                        let (ens, u) = goal->Some_0;
                        let tail = ens.skip(i as int);
                        assert(tail[0] == (key@, pv@));
                        assert(tail.len() == ens.len() - i);
                        assert(tail[0] == ens[i as int]);
                        assert(acc@.map_values(|kv: (Seq<char>, PrimValue)| (kv.0, kv.1@))
                            =~= ens.take(i as int + 1));
                        assert(tail.drop_first() =~= ens.skip(i as int + 1));
                    }
                }
                cur = cur + u1 + 1 + u2;
                i = i + 1;
            },
            None => {
                return None;
            },
        }
    }
    proof {
        if goal is Some {
            let (ens, u) = goal->Some_0;
            assert(ens.skip(i as int) =~= Seq::<(Seq<char>, PrimModel)>::empty());
            assert(ens.len() == i);
            assert(ens.take(i as int) =~= ens);
        } else {
            assert(false);
        }
    }
    Some((acc, cur - pos))
}

/// Decode record fields of the given shape, starting at `pos`.
fn decode_fields(shape: &Vec<PrimKind>, b: &[u8], pos: usize) -> (r: Option<(Vec<PrimValue>, usize)>)
    requires
        pos <= b@.len(),
    ensures
        ({
            let suffix = b@.subrange(pos as int, b@.len() as int);
            match r {
                Some((v, used)) => pos + used <= b@.len() && spec_decode_fields(shape@, suffix)
                    == Some((v@.map_values(|x: PrimValue| x@), used as int)),
                None => spec_decode_fields(shape@, suffix) is None,
            }
        }),
{
    let ghost suffix0 = b@.subrange(pos as int, b@.len() as int);
    let ghost goal = spec_decode_fields(shape@, suffix0);
    let blen = b.len();
    let n = shape.len();
    let mut acc: Vec<PrimValue> = Vec::new();
    let mut cur: usize = pos;
    let mut i: usize = 0;
    proof {
        assert(acc@.map_values(|x: PrimValue| x@) =~= Seq::<PrimModel>::empty());
        assert(shape@.skip(0) =~= shape@);
        if goal is Some {
            let (fs, u) = goal->Some_0;
            assert(fs.skip(0) =~= fs);
        }
    }
    while i < n
        invariant
            pos <= cur <= b@.len(),
            blen == b@.len(),
            i <= n,
            n == shape@.len(),
            suffix0 == b@.subrange(pos as int, b@.len() as int),
            goal == spec_decode_fields(shape@, suffix0),
            match goal {
                Some((fs, u)) => {
                    &&& fs.len() >= i
                    &&& acc@.map_values(|x: PrimValue| x@) == fs.take(i as int)
                    &&& spec_decode_fields(
                        shape@.skip(i as int),
                        b@.subrange(cur as int, b@.len() as int),
                    ) == Some((fs.skip(i as int), u - (cur - pos)))
                },
                None => spec_decode_fields(
                    shape@.skip(i as int),
                    b@.subrange(cur as int, b@.len() as int),
                ) is None,
            },
        decreases n - i,
    {
        let ghost cur_suffix = b@.subrange(cur as int, b@.len() as int);
        proof {
            assert(shape@.skip(i as int)[0] == shape@[i as int]);
        }
        match decode_prim(shape[i], b, cur) {
            Some((pv, u1)) => {
                proof {
                    lemma_suffix_skip(b@, cur as int, u1 as int);
                    assert(shape@.skip(i as int).drop_first() =~= shape@.skip(i as int + 1));
                }
                acc.push(pv);
                proof {
                    if goal is Some {
                        let (fs, u) = goal->Some_0;
                        let tail = fs.skip(i as int);
                        assert(tail[0] == pv@);
                        assert(tail.len() == fs.len() - i);
                        assert(tail[0] == fs[i as int]);
                        assert(acc@.map_values(|x: PrimValue| x@) =~= fs.take(i as int + 1));
                        assert(tail.drop_first() =~= fs.skip(i as int + 1));
                    }
                }
                cur = cur + u1;
                i = i + 1;
            },
            None => {
                return None;
            },
        }
    }
    proof {
        assert(shape@.skip(n as int) =~= Seq::<PrimKind>::empty());
        if goal is Some {
            let (fs, u) = goal->Some_0;
            assert(fs.skip(i as int) =~= Seq::<PrimModel>::empty());
            assert(fs.len() == i);
            assert(fs.take(i as int) =~= fs);
        } else {
            assert(false);
        }
    }
    Some((acc, cur - pos))
}

/// Wrap one decoded primitive value into a fresh payload.
fn prim_to_payload(pv: PrimValue) -> (d: DynPayload)
    ensures
        d@ == if pv@ is Unit {
            PayloadModel::Unit
        } else {
            PayloadModel::Prim(pv@)
        },
{
    match pv {
        PrimValue::Int32(v) => DynPayload::Prim(PrimArc::Int32(Arc::new(v))),
        PrimValue::Int64(v) => DynPayload::Prim(PrimArc::Int64(Arc::new(v))),
        PrimValue::Float32(v) => DynPayload::Prim(PrimArc::Float32(Arc::new(v))),
        PrimValue::Float64(v) => DynPayload::Prim(PrimArc::Float64(Arc::new(v))),
        PrimValue::Boolean(v) => DynPayload::Prim(PrimArc::Boolean(Arc::new(v))),
        PrimValue::Text(v) => DynPayload::Prim(PrimArc::Text(Arc::new(v))),
        PrimValue::Unit => DynPayload::Unit,
    }
}

/// Decode a payload through a decoder description, starting at `pos`: the
/// freshly built payload and the bytes consumed. Trailing bytes are the
/// caller's business.
pub fn decode_payload(ck: &CodecKind, b: &[u8], pos: usize) -> (r: Option<(DynPayload, usize)>)
    requires
        pos <= b@.len(),
    ensures
        ({
            let suffix = b@.subrange(pos as int, b@.len() as int);
            match r {
                Some((d, used)) => pos + used <= b@.len() && spec_decode_payload(ck@, suffix)
                    == Some((d@, used as int)),
                None => spec_decode_payload(ck@, suffix) is None,
            }
        }),
{
    let ghost suffix = b@.subrange(pos as int, b@.len() as int);
    let blen = b.len();
    match ck {
        CodecKind::Prim(k) => {
            match k {
                PrimKind::Unit => Some((DynPayload::Unit, 0)),
                _ => {
                    match decode_prim(*k, b, pos) {
                        Some((pv, u)) => {
                            proof {
                                lemma_decode_prim_shape(*k, suffix);
                            }
                            Some((prim_to_payload(pv), u))
                        },
                        None => None,
                    }
                },
            }
        },
        CodecKind::ListOf(k) => {
            if blen - pos < 8 {
                match k {
                    PrimKind::Unit => None,
                    _ => None,
                }
            } else {
                let chunk = slice_subrange(b, pos, pos + 8);
                proof {
                    assert(chunk@ =~= suffix.subrange(0, 8));
                }
                let n = u64_from_le_bytes(chunk);
                proof {
                    lemma_suffix_skip(b@, pos as int, 8);
                }
                match k {
                    PrimKind::Unit => None,
                    PrimKind::Int32 => match decode_list::<i32>(b, pos + 8, n) {
                        Some((v, u)) => Some((i32::wrap_list(Arc::new(v)), 8 + u)),
                        None => None,
                    },
                    PrimKind::Int64 => match decode_list::<i64>(b, pos + 8, n) {
                        Some((v, u)) => Some((i64::wrap_list(Arc::new(v)), 8 + u)),
                        None => None,
                    },
                    PrimKind::Float32 => match decode_list::<F32Bits>(b, pos + 8, n) {
                        Some((v, u)) => Some((F32Bits::wrap_list(Arc::new(v)), 8 + u)),
                        None => None,
                    },
                    PrimKind::Float64 => match decode_list::<F64Bits>(b, pos + 8, n) {
                        Some((v, u)) => Some((F64Bits::wrap_list(Arc::new(v)), 8 + u)),
                        None => None,
                    },
                    PrimKind::Boolean => match decode_list::<bool>(b, pos + 8, n) {
                        Some((v, u)) => Some((bool::wrap_list(Arc::new(v)), 8 + u)),
                        None => None,
                    },
                    PrimKind::Text => match decode_list::<String>(b, pos + 8, n) {
                        Some((v, u)) => Some((String::wrap_list(Arc::new(v)), 8 + u)),
                        None => None,
                    },
                }
            }
        },
        CodecKind::MapOf(k) => {
            if blen - pos < 8 {
                None
            } else {
                let chunk = slice_subrange(b, pos, pos + 8);
                proof {
                    assert(chunk@ =~= suffix.subrange(0, 8));
                }
                let n = u64_from_le_bytes(chunk);
                proof {
                    lemma_suffix_skip(b@, pos as int, 8);
                }
                match k {
                    PrimKind::Unit => None,
                    PrimKind::Int32 => match decode_map_entries::<i32>(b, pos + 8, n) {
                        Some((m, u)) => Some((i32::wrap_map(Arc::new(m)), 8 + u)),
                        None => None,
                    },
                    PrimKind::Int64 => match decode_map_entries::<i64>(b, pos + 8, n) {
                        Some((m, u)) => Some((i64::wrap_map(Arc::new(m)), 8 + u)),
                        None => None,
                    },
                    PrimKind::Float32 => match decode_map_entries::<F32Bits>(b, pos + 8, n) {
                        Some((m, u)) => Some((F32Bits::wrap_map(Arc::new(m)), 8 + u)),
                        None => None,
                    },
                    PrimKind::Float64 => match decode_map_entries::<F64Bits>(b, pos + 8, n) {
                        Some((m, u)) => Some((F64Bits::wrap_map(Arc::new(m)), 8 + u)),
                        None => None,
                    },
                    PrimKind::Boolean => match decode_map_entries::<bool>(b, pos + 8, n) {
                        Some((m, u)) => Some((bool::wrap_map(Arc::new(m)), 8 + u)),
                        None => None,
                    },
                    PrimKind::Text => match decode_map_entries::<String>(b, pos + 8, n) {
                        Some((m, u)) => Some((String::wrap_map(Arc::new(m)), 8 + u)),
                        None => None,
                    },
                }
            }
        },
        CodecKind::DynMap => {
            if blen - pos < 8 {
                None
            } else {
                let chunk = slice_subrange(b, pos, pos + 8);
                proof {
                    assert(chunk@ =~= suffix.subrange(0, 8));
                }
                let n = u64_from_le_bytes(chunk);
                proof {
                    lemma_suffix_skip(b@, pos as int, 8);
                }
                match decode_dyn_map(b, pos + 8, n) {
                    Some((m, u)) => {
                        let d = DynPayload::MapDyn(Arc::new(m));
                        Some((d, 8 + u))
                    },
                    None => None,
                }
            }
        },
        CodecKind::Record(t) => {
            match decode_fields(&t.shape, b, pos) {
                Some((fs, u)) => {
                    let d = DynPayload::Rec(
                        Arc::new(RecordValue { type_name_str: t.name.clone(), fields: fs }),
                    );
                    Some((d, u))
                },
                None => None,
            }
        },
        CodecKind::RawBytes => {
            if blen - pos < 4 {
                None
            } else {
                let chunk = slice_subrange(b, pos, pos + 4);
                proof {
                    assert(chunk@ =~= suffix.subrange(0, 4));
                }
                let n = u32_from_be_bytes(chunk);
                if (n as u64) > ((blen - pos - 4) as u64) {
                    None
                } else {
                    let n_usize = n as usize;
                    let body = slice_subrange(b, pos + 4, pos + 4 + n_usize);
                    proof {
                        assert(body@ =~= suffix.subrange(4, 4 + n as int));
                    }
                    let v = vstd::slice::slice_to_vec(body);
                    Some((DynPayload::Raw(Arc::new(v)), 4 + n_usize))
                }
            }
        },
    }
}

/// Decoding bytes that start with the encodings of `n` same-kind models
/// yields exactly those models.
pub proof fn lemma_decode_prims_roundtrip(k: PrimKind, es: Seq<PrimModel>, rest: Seq<u8>)
    requires
        forall|i: int| 0 <= i < es.len() ==> kind_of_model(#[trigger] es[i]) == k && prim_encodable(
            es[i],
        ),
    ensures
        spec_decode_prims(k, spec_encode_prims(es) + rest, es.len() as nat) == Some(
            (es, spec_encode_prims(es).len() as int),
        ),
    decreases es.len(),
{
    if es.len() == 0 {
        assert(es =~= Seq::<PrimModel>::empty());
    } else {
        let head = es[0];
        let tail = es.drop_first();
        let enc_h = spec_encode_prim(head);
        let enc_t = spec_encode_prims(tail);
        let s = spec_encode_prims(es) + rest;
        assert(s =~= enc_h + (enc_t + rest));
        crate::codec::lemma_prim_roundtrip(head, enc_t + rest);
        assert(spec_decode_prim(k, s) == Some((head, enc_h.len() as int)));
        assert(s.skip(enc_h.len() as int) =~= enc_t + rest);
        lemma_decode_prims_roundtrip(k, tail, rest);
        assert(seq![head] + tail =~= es);
    }
}

/// Decoding bytes that start with the encodings of `n` same-kind map
/// entries yields exactly those entries.
pub proof fn lemma_decode_entries_roundtrip(
    k: PrimKind,
    ens: Seq<(Seq<char>, PrimModel)>,
    rest: Seq<u8>,
)
    requires
        forall|i: int|
            0 <= i < ens.len() ==> kind_of_model((#[trigger] ens[i]).1) == k && prim_encodable(
                ens[i].1,
            ) && prim_encodable(PrimModel::Text(ens[i].0)),
    ensures
        spec_decode_entries(k, spec_encode_entries(ens) + rest, ens.len() as nat) == Some(
            (ens, spec_encode_entries(ens).len() as int),
        ),
    decreases ens.len(),
{
    if ens.len() == 0 {
        assert(ens =~= Seq::<(Seq<char>, PrimModel)>::empty());
    } else {
        let (key, val) = ens[0];
        let tail = ens.drop_first();
        let enc_k = spec_encode_prim(PrimModel::Text(key));
        let enc_v = spec_encode_prim(val);
        let enc_t = spec_encode_entries(tail);
        let s = spec_encode_entries(ens) + rest;
        assert(s =~= enc_k + (enc_v + (enc_t + rest)));
        crate::codec::lemma_prim_roundtrip(PrimModel::Text(key), enc_v + (enc_t + rest));
        assert(spec_decode_prim(PrimKind::Text, s) == Some(
            (PrimModel::Text(key), enc_k.len() as int),
        ));
        assert(s.skip(enc_k.len() as int) =~= enc_v + (enc_t + rest));
        crate::codec::lemma_prim_roundtrip(val, enc_t + rest);
        assert(s.skip(enc_k.len() as int).skip(enc_v.len() as int) =~= enc_t + rest);
        assert(s.skip(enc_k.len() as int + enc_v.len() as int) =~= enc_t + rest);
        lemma_decode_entries_roundtrip(k, tail, rest);
        assert(seq![(key, val)] + tail =~= ens);
    }
}

/// Decoding bytes that start with the encodings of `n` mixed map entries
/// yields exactly those entries.
pub proof fn lemma_decode_dyn_entries_roundtrip(ens: Seq<(Seq<char>, PrimModel)>, rest: Seq<u8>)
    requires
        forall|i: int|
            0 <= i < ens.len() ==> prim_encodable((#[trigger] ens[i]).1) && prim_encodable(
                PrimModel::Text(ens[i].0),
            ),
    ensures
        spec_decode_dyn_entries(spec_encode_dyn_entries(ens) + rest, ens.len() as nat) == Some(
            (ens, spec_encode_dyn_entries(ens).len() as int),
        ),
    decreases ens.len(),
{
    if ens.len() == 0 {
        assert(ens =~= Seq::<(Seq<char>, PrimModel)>::empty());
    } else {
        let (key, val) = ens[0];
        let vk = kind_of_model(val);
        let tail = ens.drop_first();
        let enc_k = spec_encode_prim(PrimModel::Text(key));
        let tag = seq![spec_kind_tag(vk)];
        let enc_v = spec_encode_prim(val);
        let enc_t = spec_encode_dyn_entries(tail);
        let s = spec_encode_dyn_entries(ens) + rest;
        assert(s =~= enc_k + (tag + (enc_v + (enc_t + rest))));
        crate::codec::lemma_prim_roundtrip(PrimModel::Text(key), tag + (enc_v + (enc_t + rest)));
        assert(spec_decode_prim(PrimKind::Text, s) == Some(
            (PrimModel::Text(key), enc_k.len() as int),
        ));
        let u1 = enc_k.len() as int;
        assert(s[u1] == spec_kind_tag(vk));
        lemma_kind_tag_roundtrip(vk);
        crate::codec::lemma_prim_roundtrip(val, enc_t + rest);
        assert(s.skip(u1 + 1) =~= enc_v + (enc_t + rest));
        assert(s.skip(u1 + 1 + enc_v.len()) =~= enc_t + rest);
        lemma_decode_dyn_entries_roundtrip(tail, rest);
        assert(seq![(key, val)] + tail =~= ens);
    }
}

/// Decoding bytes that start with the encodings of record fields, through
/// the fields' own shape, yields exactly those fields.
pub proof fn lemma_decode_fields_roundtrip(fs: Seq<PrimModel>, rest: Seq<u8>)
    requires
        forall|i: int| 0 <= i < fs.len() ==> prim_encodable(#[trigger] fs[i]),
    ensures
        spec_decode_fields(
            fs.map_values(|f: PrimModel| kind_of_model(f)),
            spec_encode_prims(fs) + rest,
        ) == Some((fs, spec_encode_prims(fs).len() as int)),
    decreases fs.len(),
{
    let shape = fs.map_values(|f: PrimModel| kind_of_model(f));
    if fs.len() == 0 {
        assert(fs =~= Seq::<PrimModel>::empty());
        assert(shape.len() == 0);
    } else {
        let head = fs[0];
        let tail = fs.drop_first();
        let enc_h = spec_encode_prim(head);
        let enc_t = spec_encode_prims(tail);
        let s = spec_encode_prims(fs) + rest;
        assert(s =~= enc_h + (enc_t + rest));
        assert(shape[0] == kind_of_model(head));
        crate::codec::lemma_prim_roundtrip(head, enc_t + rest);
        assert(spec_decode_prim(shape[0], s) == Some((head, enc_h.len() as int)));
        assert(s.skip(enc_h.len() as int) =~= enc_t + rest);
        lemma_decode_fields_roundtrip(tail, rest);
        assert(shape.drop_first() =~= tail.map_values(|f: PrimModel| kind_of_model(f)));
        assert(seq![head] + tail =~= fs);
    }
}

/// Round trip of a whole payload: decoding bytes that start with the
/// encoding of an encodable payload, through the payload's natural decoder
/// description, yields exactly that payload.
pub proof fn lemma_payload_roundtrip(m: PayloadModel, rest: Seq<u8>)
    requires
        payload_encodable(m),
    ensures
        spec_decode_payload(spec_codec_kind_of(m), spec_encode_payload(m) + rest) == Some(
            (m, spec_encode_payload(m).len() as int),
        ),
{
    let s = spec_encode_payload(m) + rest;
    match m {
        PayloadModel::Prim(p) => {
            crate::codec::lemma_prim_roundtrip(p, rest);
        },
        PayloadModel::ListP(k, es) => {
            vstd::bytes::lemma_auto_spec_u64_to_from_le_bytes();
            let lenb = spec_u64_to_le_bytes(es.len() as u64);
            assert(s.subrange(0, 8) =~= lenb);
            assert(s.skip(8) =~= spec_encode_prims(es) + rest);
            lemma_decode_prims_roundtrip(k, es, rest);
        },
        PayloadModel::MapP(k, en) => {
            vstd::bytes::lemma_auto_spec_u64_to_from_le_bytes();
            let lenb = spec_u64_to_le_bytes(en.len() as u64);
            assert(s.subrange(0, 8) =~= lenb);
            assert(s.skip(8) =~= spec_encode_entries(en) + rest);
            lemma_decode_entries_roundtrip(k, en, rest);
        },
        PayloadModel::MapDyn(en) => {
            vstd::bytes::lemma_auto_spec_u64_to_from_le_bytes();
            let lenb = spec_u64_to_le_bytes(en.len() as u64);
            assert(s.subrange(0, 8) =~= lenb);
            assert(s.skip(8) =~= spec_encode_dyn_entries(en) + rest);
            lemma_decode_dyn_entries_roundtrip(en, rest);
        },
        PayloadModel::Rec(name, fs) => {
            lemma_decode_fields_roundtrip(fs, rest);
        },
        PayloadModel::Raw(b) => {
            lemma_u32_be_roundtrip(b.len() as u32);
            assert(s.subrange(0, 4) =~= spec_u32_to_be_bytes(b.len() as u32));
            assert(s.subrange(4, 4 + b.len() as int) =~= b);
        },
        PayloadModel::Unit => {
        },
    }
}

} // verus!
