//! The laws that tie the pieces together, stated and proved once over the
//! models that the public contracts speak of.

use crate::category::ValueCategory;
use crate::erased::ErasedModel;
use crate::payload::{spec_payload_type_name, PayloadModel};
use crate::registry::{lemma_header_roundtrip, spec_emit_header, spec_parse_header};
use crate::value::{spec_resolve, ResolveOutcome};
use crate::wire::{
    lemma_payload_roundtrip, payload_encodable, spec_codec_kind_of, spec_encode_payload,
    CodecKindModel,
};
use vstd::prelude::*;
use vstd::utf8::encode_utf8;

verus! {

/// A header followed by anything parses back to exactly what was emitted.
pub proof fn lemma_header_emit_parse(cat: ValueCategory, name: Seq<char>, rest: Seq<u8>)
    requires
        encode_utf8(name).len() <= 255,
        !(cat is Null),
    ensures
        spec_parse_header(spec_emit_header(cat, name) + rest) == Ok::<
            (ValueCategory, Seq<char>, int),
            crate::errors::WireFault,
        >((cat, name, spec_emit_header(cat, name).len() as int)),
{
    let hdr = spec_emit_header(cat, name);
    let b = hdr + rest;
    crate::category::lemma_marker_roundtrip(cat);
    assert(b[0] == crate::category::spec_marker_byte(cat));
    let nb = encode_utf8(name);
    assert(b[1] == nb.len() as u8);
    assert(b.subrange(2, 2 + nb.len() as int) =~= nb);
    vstd::utf8::encode_utf8_valid_utf8(name);
    vstd::utf8::encode_utf8_decode_utf8(name);
}

/// Resolving at most once: a resolution that produced an eager payload is
/// idempotent, so a second accessor call neither decodes again nor
/// changes the container.
pub proof fn lemma_resolve_once(ck: CodecKindModel, expected: Seq<char>, body: ErasedModel)
    ensures
        ({
            let (b1, o1) = spec_resolve(ck, expected, body);
            o1 is Resolved ==> spec_resolve(ck, expected, b1) == (b1, o1)
        }),
{
}

/// Independent clones: a clone carries an equal container model, and two
/// equal containers resolve to equal eager payloads, each through its own
/// decode.
pub proof fn lemma_independent_clones(
    ck: CodecKindModel,
    expected: Seq<char>,
    original: ErasedModel,
    duplicate: ErasedModel,
)
    requires
        original == duplicate,
    ensures
        spec_resolve(ck, expected, original) == spec_resolve(ck, expected, duplicate),
{
}

/// Round trip over the wire: serializing an eager payload under its own
/// name, parsing the bytes back and resolving the resulting undecoded
/// range through the payload's natural decoder yields exactly the
/// payload that went in.
pub proof fn lemma_wire_round_trip(m: PayloadModel, cat: ValueCategory)
    requires
        payload_encodable(m),
        !(m is Unit),
        !(cat is Null),
        encode_utf8(spec_payload_type_name(m)).len() <= 255,
    ensures
        ({
            let name = spec_payload_type_name(m);
            let hdr = spec_emit_header(cat, name);
            let wire = hdr + spec_encode_payload(m);
            &&& spec_parse_header(wire) == Ok::<
                (ValueCategory, Seq<char>, int),
                crate::errors::WireFault,
            >((cat, name, hdr.len() as int))
            &&& spec_resolve(
                spec_codec_kind_of(m),
                name,
                ErasedModel::Lazy(name, wire.subrange(hdr.len() as int, wire.len() as int)),
            ) == (ErasedModel::Eager(name, m), ResolveOutcome::Resolved(m))
        }),
{
    let name = spec_payload_type_name(m);
    let hdr = spec_emit_header(cat, name);
    let wire = hdr + spec_encode_payload(m);
    lemma_header_emit_parse(cat, name, spec_encode_payload(m));
    let seg = wire.subrange(hdr.len() as int, wire.len() as int);
    assert(seg =~= spec_encode_payload(m));
    assert(crate::textutil::spec_names_compatible(name, name));
    lemma_payload_roundtrip(m, Seq::<u8>::empty());
    assert(spec_encode_payload(m) + Seq::<u8>::empty() =~= spec_encode_payload(m));
}

/// Verbatim re-emission: the wire bytes of a structured value that was
/// deserialized and never resolved are reproduced byte for byte when the
/// still-lazy value is serialized again.
pub proof fn lemma_verbatim_reemission(b: Seq<u8>)
    requires
        spec_parse_header(b) is Ok,
    ensures
        ({
            let (cat, name, off) = spec_parse_header(b)->Ok_0;
            spec_emit_header(cat, name) + b.subrange(off, b.len() as int) =~= b
        }),
{
    lemma_header_roundtrip(b);
    let (cat, name, off) = spec_parse_header(b)->Ok_0;
    assert(spec_emit_header(cat, name) =~= b.subrange(0, off));
}

/// Every built-in type name is short ASCII text: it fits the one-byte
/// name-length field of the header.
pub proof fn lemma_builtin_name_fits(k: crate::prim::PrimKind)
    ensures
        encode_utf8(crate::payload::spec_kind_type_name(k)).len() <= 255,
        encode_utf8(crate::payload::spec_list_type_name(k)).len() <= 255,
        encode_utf8(crate::payload::spec_map_type_name(k)).len() <= 255,
        encode_utf8(crate::payload::spec_dyn_map_type_name()).len() <= 255,
        encode_utf8(crate::payload::spec_raw_type_name()).len() <= 255,
{
    reveal_strlit("i32");
    reveal_strlit("i64");
    reveal_strlit("f32");
    reveal_strlit("f64");
    reveal_strlit("bool");
    reveal_strlit("alloc::string::String");
    reveal_strlit("()");
    reveal_strlit("alloc::vec::Vec<i32>");
    reveal_strlit("alloc::vec::Vec<i64>");
    reveal_strlit("alloc::vec::Vec<f32>");
    reveal_strlit("alloc::vec::Vec<f64>");
    reveal_strlit("alloc::vec::Vec<bool>");
    reveal_strlit("alloc::vec::Vec<alloc::string::String>");
    reveal_strlit("alloc::vec::Vec<()>");
    reveal_strlit("std::collections::hash::map::HashMap<alloc::string::String, i32>");
    reveal_strlit("std::collections::hash::map::HashMap<alloc::string::String, i64>");
    reveal_strlit("std::collections::hash::map::HashMap<alloc::string::String, f32>");
    reveal_strlit("std::collections::hash::map::HashMap<alloc::string::String, f64>");
    reveal_strlit("std::collections::hash::map::HashMap<alloc::string::String, bool>");
    reveal_strlit(
        "std::collections::hash::map::HashMap<alloc::string::String, alloc::string::String>",
    );
    reveal_strlit("std::collections::hash::map::HashMap<alloc::string::String, ()>");
    reveal_strlit("runar_common::types::VMap");
    reveal_strlit("alloc::vec::Vec<u8>");
    lemma_short_ascii_name(crate::payload::spec_kind_type_name(k));
    lemma_short_ascii_name(crate::payload::spec_list_type_name(k));
    lemma_short_ascii_name(crate::payload::spec_map_type_name(k));
    lemma_short_ascii_name(crate::payload::spec_dyn_map_type_name());
    lemma_short_ascii_name(crate::payload::spec_raw_type_name());
}

/// An ASCII character sequence encodes to one byte per character.
proof fn lemma_short_ascii_name(s: Seq<char>)
    requires
        vstd::utf8::is_ascii_chars(s),
        s.len() <= 255,
    ensures
        encode_utf8(s).len() == s.len(),
{
    vstd::utf8::is_ascii_chars_encode_utf8(s);
}

/// Round trip of a primitive value, with nothing asked of the caller: the
/// built-in names always fit the header.
pub proof fn lemma_primitive_round_trip(p: crate::prim::PrimModel)
    requires
        crate::codec::prim_encodable(p),
        crate::prim::kind_of_model(p) != crate::prim::PrimKind::Unit,
    ensures
        ({
            let m = PayloadModel::Prim(p);
            let name = spec_payload_type_name(m);
            let hdr = spec_emit_header(ValueCategory::Primitive, name);
            let wire = hdr + spec_encode_payload(m);
            &&& spec_parse_header(wire) == Ok::<
                (ValueCategory, Seq<char>, int),
                crate::errors::WireFault,
            >((ValueCategory::Primitive, name, hdr.len() as int))
            &&& spec_resolve(
                spec_codec_kind_of(m),
                name,
                ErasedModel::Lazy(name, wire.subrange(hdr.len() as int, wire.len() as int)),
            ) == (ErasedModel::Eager(name, m), ResolveOutcome::Resolved(m))
        }),
{
    lemma_builtin_name_fits(crate::prim::kind_of_model(p));
    lemma_wire_round_trip(PayloadModel::Prim(p), ValueCategory::Primitive);
}

} // verus!
