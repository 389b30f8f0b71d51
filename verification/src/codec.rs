//! The binary codec of primitive payload values.
//!
//! The payload convention is fixed-width little-endian: 32- and 64-bit
//! integers and float bit patterns are written as 4 or 8 bytes
//! little-endian, a boolean as one byte (0 or 1), text as an 8-byte
//! little-endian byte length followed by the UTF-8 bytes, and the unit
//! value as nothing. Decoding reads a prefix of the input and reports how
//! many bytes it consumed; trailing bytes are the caller's business.

use crate::prim::{F32Bits, F64Bits, PrimKind, PrimModel, PrimValue};
use crate::shims::bytes_to_string;
use vstd::bytes::{
    spec_u32_from_le_bytes, spec_u32_to_le_bytes, spec_u64_from_le_bytes, spec_u64_to_le_bytes,
    u32_from_le_bytes, u32_to_le_bytes, u64_from_le_bytes, u64_to_le_bytes,
};
use vstd::prelude::*;
use vstd::slice::{slice_subrange, slice_to_vec};
use vstd::utf8::{encode_utf8, valid_utf8};

verus! {

/// The unsigned bit pattern of a 32-bit signed integer.
pub open spec fn spec_u32_of_i32(v: i32) -> u32 {
    if v >= 0 {
        v as u32
    } else {
        (v + 0x1_0000_0000) as u32
    }
}

/// The signed reading of a 32-bit pattern.
pub open spec fn spec_i32_of_u32(u: u32) -> i32 {
    if u < 0x8000_0000 {
        u as i32
    } else {
        (u - 0x1_0000_0000) as i32
    }
}

/// The unsigned bit pattern of a 64-bit signed integer.
pub open spec fn spec_u64_of_i64(v: i64) -> u64 {
    if v >= 0 {
        v as u64
    } else {
        (v + 0x1_0000_0000_0000_0000) as u64
    }
}

/// The signed reading of a 64-bit pattern.
pub open spec fn spec_i64_of_u64(u: u64) -> i64 {
    if u < 0x8000_0000_0000_0000 {
        u as i64
    } else {
        (u - 0x1_0000_0000_0000_0000) as i64
    }
}

/// Sign conversions invert each other.
pub broadcast proof fn lemma_sign_roundtrip_32(v: i32)
    ensures
        #[trigger] spec_i32_of_u32(spec_u32_of_i32(v)) == v,
{
}

/// Sign conversions invert each other.
pub broadcast proof fn lemma_sign_roundtrip_64(v: i64)
    ensures
        #[trigger] spec_i64_of_u64(spec_u64_of_i64(v)) == v,
{
}

/// Exec form of [`spec_u32_of_i32`].
pub fn u32_of_i32(v: i32) -> (r: u32)
    ensures
        r == spec_u32_of_i32(v),
{
    if v >= 0 {
        v as u32
    } else {
        (((v as i64) + 0x1_0000_0000) as u64) as u32
    }
}

/// Exec form of [`spec_i32_of_u32`].
pub fn i32_of_u32(u: u32) -> (r: i32)
    ensures
        r == spec_i32_of_u32(u),
{
    if u < 0x8000_0000 {
        u as i32
    } else {
        ((u as i64) - 0x1_0000_0000) as i32
    }
}

/// Exec form of [`spec_u64_of_i64`].
pub fn u64_of_i64(v: i64) -> (r: u64)
    ensures
        r == spec_u64_of_i64(v),
{
    if v >= 0 {
        v as u64
    } else {
        (((v as i128) + 0x1_0000_0000_0000_0000) as u128) as u64
    }
}

/// Exec form of [`spec_i64_of_u64`].
pub fn i64_of_u64(u: u64) -> (r: i64)
    ensures
        r == spec_i64_of_u64(u),
{
    if u < 0x8000_0000_0000_0000 {
        u as i64
    } else {
        ((u as i128) - 0x1_0000_0000_0000_0000) as i64
    }
}

/// The encoded bytes of a primitive model.
pub open spec fn spec_encode_prim(m: PrimModel) -> Seq<u8> {
    match m {
        PrimModel::Int32(v) => spec_u32_to_le_bytes(spec_u32_of_i32(v)),
        PrimModel::Int64(v) => spec_u64_to_le_bytes(spec_u64_of_i64(v)),
        PrimModel::Float32(bits) => spec_u32_to_le_bytes(bits),
        PrimModel::Float64(bits) => spec_u64_to_le_bytes(bits),
        PrimModel::Boolean(b) => seq![if b { 1u8 } else { 0u8 }],
        PrimModel::Text(t) => spec_u64_to_le_bytes(encode_utf8(t).len() as u64) + encode_utf8(t),
        PrimModel::Unit => Seq::<u8>::empty(),
    }
}

/// A primitive model whose encoding the machine can hold: the byte length
/// of a text fits the length prefix.
pub open spec fn prim_encodable(m: PrimModel) -> bool {
    match m {
        PrimModel::Text(t) => encode_utf8(t).len() <= u64::MAX,
        _ => true,
    }
}

/// What decoding a suffix of the input as the given kind yields: the
/// decoded model and the number of bytes consumed, or nothing when the
/// bytes do not start with a valid encoding of that kind.
pub open spec fn spec_decode_prim(k: PrimKind, s: Seq<u8>) -> Option<(PrimModel, int)> {
    match k {
        PrimKind::Int32 => if s.len() >= 4 {
            Some((PrimModel::Int32(spec_i32_of_u32(spec_u32_from_le_bytes(s.subrange(0, 4)))), 4))
        } else {
            None
        },
        PrimKind::Int64 => if s.len() >= 8 {
            Some((PrimModel::Int64(spec_i64_of_u64(spec_u64_from_le_bytes(s.subrange(0, 8)))), 8))
        } else {
            None
        },
        PrimKind::Float32 => if s.len() >= 4 {
            Some((PrimModel::Float32(spec_u32_from_le_bytes(s.subrange(0, 4))), 4))
        } else {
            None
        },
        PrimKind::Float64 => if s.len() >= 8 {
            Some((PrimModel::Float64(spec_u64_from_le_bytes(s.subrange(0, 8))), 8))
        } else {
            None
        },
        PrimKind::Boolean => if s.len() >= 1 && (s[0] == 0 || s[0] == 1) {
            Some((PrimModel::Boolean(s[0] == 1), 1))
        } else {
            None
        },
        PrimKind::Text => if s.len() >= 8 {
            let n = spec_u64_from_le_bytes(s.subrange(0, 8)) as int;
            if 8 + n <= s.len() && valid_utf8(s.subrange(8, 8 + n)) {
                Some((PrimModel::Text(vstd::utf8::decode_utf8(s.subrange(8, 8 + n))), 8 + n))
            } else {
                None
            }
        } else {
            None
        },
        PrimKind::Unit => Some((PrimModel::Unit, 0)),
    }
}

/// Append the encoding of a primitive value to an output buffer.
pub fn encode_prim(p: &PrimValue, out: &mut Vec<u8>)
    ensures
        final(out)@ == old(out)@ + spec_encode_prim(p@),
{
    match p {
        PrimValue::Int32(v) => {
            let mut b = u32_to_le_bytes(u32_of_i32(*v));
            out.append(&mut b);
        },
        PrimValue::Int64(v) => {
            let mut b = u64_to_le_bytes(u64_of_i64(*v));
            out.append(&mut b);
        },
        PrimValue::Float32(bits) => {
            let mut b = u32_to_le_bytes(bits.0);
            out.append(&mut b);
        },
        PrimValue::Float64(bits) => {
            let mut b = u64_to_le_bytes(bits.0);
            out.append(&mut b);
        },
        PrimValue::Boolean(b) => {
            out.push(if *b { 1u8 } else { 0u8 });
            proof {
                assert(out@ =~= old(out)@ + spec_encode_prim(p@));
            }
        },
        PrimValue::Text(t) => {
            let bytes = t.as_str().as_bytes_vec();
            let mut len_b = u64_to_le_bytes(bytes.len() as u64);
            out.append(&mut len_b);
            out.extend_from_slice(bytes.as_slice());
            proof {
                assert(out@ =~= old(out)@ + spec_encode_prim(p@));
            }
        },
        PrimValue::Unit => {
            proof {
                assert(out@ =~= old(out)@ + spec_encode_prim(p@));
            }
        },
    }
}

/// Decode one primitive value of the given kind from `b`, starting at
/// `pos`. Returns the value and how many bytes were consumed.
pub fn decode_prim(k: PrimKind, b: &[u8], pos: usize) -> (r: Option<(PrimValue, usize)>)
    requires
        pos <= b@.len(),
    ensures
        match r {
            Some((v, n)) => {
                &&& spec_decode_prim(k, b@.subrange(pos as int, b@.len() as int)) == Some(
                    (v@, n as int),
                )
                &&& pos + n <= b@.len()
            },
            None => spec_decode_prim(k, b@.subrange(pos as int, b@.len() as int)) is None,
        },
{
    let ghost suffix = b@.subrange(pos as int, b@.len() as int);
    let remaining = b.len() - pos;
    match k {
        PrimKind::Int32 => {
            if remaining >= 4 {
                let chunk = slice_subrange(b, pos, pos + 4);
                proof {
                    assert(chunk@ =~= suffix.subrange(0, 4));
                }
                Some((PrimValue::Int32(i32_of_u32(u32_from_le_bytes(chunk))), 4))
            } else {
                None
            }
        },
        PrimKind::Int64 => {
            if remaining >= 8 {
                let chunk = slice_subrange(b, pos, pos + 8);
                proof {
                    assert(chunk@ =~= suffix.subrange(0, 8));
                }
                Some((PrimValue::Int64(i64_of_u64(u64_from_le_bytes(chunk))), 8))
            } else {
                None
            }
        },
        PrimKind::Float32 => {
            if remaining >= 4 {
                let chunk = slice_subrange(b, pos, pos + 4);
                proof {
                    assert(chunk@ =~= suffix.subrange(0, 4));
                }
                Some((PrimValue::Float32(F32Bits(u32_from_le_bytes(chunk))), 4))
            } else {
                None
            }
        },
        PrimKind::Float64 => {
            if remaining >= 8 {
                let chunk = slice_subrange(b, pos, pos + 8);
                proof {
                    assert(chunk@ =~= suffix.subrange(0, 8));
                }
                Some((PrimValue::Float64(F64Bits(u64_from_le_bytes(chunk))), 8))
            } else {
                None
            }
        },
        PrimKind::Boolean => {
            if remaining >= 1 {
                let byte = *vstd::slice::slice_index_get(b, pos);
                proof {
                    assert(byte == suffix[0]);
                }
                if byte == 0 {
                    Some((PrimValue::Boolean(false), 1))
                } else if byte == 1 {
                    Some((PrimValue::Boolean(true), 1))
                } else {
                    None
                }
            } else {
                None
            }
        },
        PrimKind::Text => {
            if remaining >= 8 {
                let len_chunk = slice_subrange(b, pos, pos + 8);
                proof {
                    assert(len_chunk@ =~= suffix.subrange(0, 8));
                }
                let n = u64_from_le_bytes(len_chunk);
                if n <= (remaining - 8) as u64 {
                    let n_usize = n as usize;
                    let body = slice_subrange(b, pos + 8, pos + 8 + n_usize);
                    proof {
                        assert(body@ =~= suffix.subrange(8, 8 + n as int));
                    }
                    let body_vec = slice_to_vec(body);
                    match bytes_to_string(body_vec) {
                        Some(s) => {
                            proof {
                                vstd::utf8::encode_utf8_valid_utf8(s@);
                                vstd::utf8::encode_utf8_decode_utf8(s@);
                            }
                            Some((PrimValue::Text(s), 8 + n_usize))
                        },
                        None => None,
                    }
                } else {
                    None
                }
            } else {
                None
            }
        },
        PrimKind::Unit => Some((PrimValue::Unit, 0)),
    }
}

/// Round trip at the model level: decoding bytes that start with the
/// encoding of a primitive model yields exactly that model and consumes
/// exactly its encoding.
pub proof fn lemma_prim_roundtrip(m: PrimModel, rest: Seq<u8>)
    requires
        prim_encodable(m),
    ensures
        spec_decode_prim(crate::prim::kind_of_model(m), spec_encode_prim(m) + rest) == Some(
            (m, spec_encode_prim(m).len() as int),
        ),
{
    let enc = spec_encode_prim(m);
    let s = enc + rest;
    match m {
        PrimModel::Int32(v) => {
            vstd::bytes::lemma_auto_spec_u32_to_from_le_bytes();
            assert(s.subrange(0, 4) =~= enc);
            lemma_sign_roundtrip_32(v);
        },
        PrimModel::Int64(v) => {
            vstd::bytes::lemma_auto_spec_u64_to_from_le_bytes();
            assert(s.subrange(0, 8) =~= enc);
            lemma_sign_roundtrip_64(v);
        },
        PrimModel::Float32(bits) => {
            vstd::bytes::lemma_auto_spec_u32_to_from_le_bytes();
            assert(s.subrange(0, 4) =~= enc);
        },
        PrimModel::Float64(bits) => {
            vstd::bytes::lemma_auto_spec_u64_to_from_le_bytes();
            assert(s.subrange(0, 8) =~= enc);
        },
        PrimModel::Boolean(b) => {
            assert(s[0] == if b { 1u8 } else { 0u8 });
        },
        PrimModel::Text(t) => {
            let body = encode_utf8(t);
            let n = body.len() as int;
            vstd::bytes::lemma_auto_spec_u64_to_from_le_bytes();
            assert(s.subrange(0, 8) =~= spec_u64_to_le_bytes(body.len() as u64));
            assert(spec_u64_from_le_bytes(s.subrange(0, 8)) == body.len() as u64);
            assert(s.subrange(8, 8 + n) =~= body);
            vstd::utf8::encode_utf8_valid_utf8(t);
            vstd::utf8::encode_utf8_decode_utf8(t);
        },
        PrimModel::Unit => {
        },
    }
}

/// Two models with the same encoding and kind are the same model.
pub proof fn lemma_prim_encoding_injective(a: PrimModel, b: PrimModel, rest_a: Seq<u8>, rest_b: Seq<u8>)
    requires
        prim_encodable(a),
        prim_encodable(b),
        crate::prim::kind_of_model(a) == crate::prim::kind_of_model(b),
        spec_encode_prim(a) + rest_a == spec_encode_prim(b) + rest_b,
    ensures
        a == b,
        rest_a == rest_b,
{
    lemma_prim_roundtrip(a, rest_a);
    lemma_prim_roundtrip(b, rest_b);
    let k = crate::prim::kind_of_model(a);
    let s = spec_encode_prim(a) + rest_a;
    assert(spec_decode_prim(k, s) == Some((a, spec_encode_prim(a).len() as int)));
    assert(spec_decode_prim(k, s) == Some((b, spec_encode_prim(b).len() as int)));
    assert(a == b);
    assert(rest_a.len() == rest_b.len());
    assert forall|i: int| 0 <= i < rest_a.len() implies rest_a[i] == rest_b[i] by {
        let n = spec_encode_prim(a).len();
        assert(rest_a[i] == s[n + i]);
        assert(rest_b[i] == (spec_encode_prim(b) + rest_b)[n + i]);
    }
    assert(rest_a =~= rest_b);
}

} // verus!
