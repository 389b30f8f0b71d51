//! The type registry and the wire format it owns.
//!
//! The registry maps type names to codec descriptions and is the only
//! place that produces or consumes wire bytes. The wire layout is: one
//! category marker byte; for every category but Null one type-name length
//! byte and the UTF-8 type name; then the payload bytes. Deserializing a
//! structured value stores an undecoded byte range instead of decoding;
//! re-serializing such a value re-emits its original payload bytes
//! verbatim. Sealing the registry irreversibly refuses further
//! registrations.

use crate::category::{
    category_of_marker, marker_byte, spec_category_of_marker, spec_marker_byte, ValueCategory,
};
use crate::erased::{ErasedArc, ErasedModel, LazyDataWithOffset};
use crate::errors::{ValueError, WireFault};
use crate::logging::{Component, Logger};
use crate::payload::{
    dyn_map_type_name, list_type_name, map_type_name, spec_payload_type_name,
    DynPayload, PayloadModel, PrimType, RecordType,
};
use crate::prim::{F32Bits, F64Bits, PrimKind};
use crate::strmap::{assoc_get, assoc_insert, StrMap};
use crate::textutil::{last_segment, spec_last_segment};
use crate::value::ArcValueType;
use crate::wire::{encode_payload, CodecKind, CodecKindModel};
use std::sync::Arc;
use vstd::prelude::*;
use vstd::utf8::{decode_utf8, encode_utf8, valid_utf8};

verus! {

/// A first-class decoder handle: the codec description a type name was
/// registered with.
#[derive(Debug, Clone)]
pub struct DeserializerFnWrapper {
    /// The decoder description this handle dispatches to.
    pub kind: CodecKind,
}

impl View for DeserializerFnWrapper {
    type V = crate::wire::CodecKindModel;

    open spec fn view(&self) -> crate::wire::CodecKindModel {
        self.kind@
    }
}

impl DeserializerFnWrapper {
    /// Wrap a decoder description.
    pub fn new(kind: CodecKind) -> (r: DeserializerFnWrapper)
        ensures
            r@ == kind@,
    {
        DeserializerFnWrapper { kind }
    }

    /// Run the decoder on payload bytes.
    pub fn call(&self, bytes: &[u8]) -> (r: Result<DynPayload, ValueError>)
        ensures
            match r {
                Ok(d) => crate::wire::spec_decode_payload(self@, bytes@) matches Some((m, _))
                    && d@ == m,
                Err(e) => crate::wire::spec_decode_payload(self@, bytes@) is None && (e
                    matches ValueError::DecodeError { type_name_str } && type_name_str@
                    == crate::wire::spec_codec_type_name(self@)),
            },
    {
        proof {
            assert(bytes@.subrange(0, bytes@.len() as int) =~= bytes@);
        }
        match crate::wire::decode_payload(&self.kind, bytes, 0) {
            Some((d, _)) => Ok(d),
            None => Err(
                ValueError::DecodeError { type_name_str: self.kind.codec_type_name() },
            ),
        }
    }
}

/// The model of a registry: the two name-indexed codec tables and the
/// sealed flag.
pub struct RegistryModel {
    /// The serializer table, keyed by full type name.
    pub serializers: Seq<(Seq<char>, CodecKindModel)>,
    /// The deserializer table, keyed by full and short type names.
    pub deserializers: Seq<(Seq<char>, CodecKindModel)>,
    /// Once set, registration fails forever.
    pub sealed: bool,
}

/// The model view of a codec table.
pub open spec fn spec_table_view(s: Seq<(Seq<char>, CodecKind)>) -> Seq<
    (Seq<char>, CodecKindModel),
> {
    s.map_values(|kv: (Seq<char>, CodecKind)| (kv.0, kv.1@))
}

/// Looking a name up in the model view looks the codec's view up.
pub proof fn lemma_table_view_get(s: Seq<(Seq<char>, CodecKind)>, k: Seq<char>)
    ensures
        assoc_get(spec_table_view(s), k) == match assoc_get(s, k) {
            Some(v) => Some(v@),
            None => None::<CodecKindModel>,
        },
    decreases s.len(),
{
    if s.len() > 0 {
        assert(spec_table_view(s)[0] == (s[0].0, s[0].1@));
        assert(spec_table_view(s).drop_first() =~= spec_table_view(s.drop_first()));
        lemma_table_view_get(s.drop_first(), k);
    }
}

/// The first binding of a name sits at the same place in the model view.
pub proof fn lemma_table_view_first_index(s: Seq<(Seq<char>, CodecKind)>, k: Seq<char>)
    ensures
        crate::strmap::assoc_first_index(spec_table_view(s), k)
            == crate::strmap::assoc_first_index(s, k),
    decreases s.len(),
{
    if s.len() > 0 {
        assert(spec_table_view(s)[0] == (s[0].0, s[0].1@));
        assert(spec_table_view(s).drop_first() =~= spec_table_view(s.drop_first()));
        lemma_table_view_first_index(s.drop_first(), k);
    }
}

/// Inserting into the table inserts the codec's view into the model view.
pub proof fn lemma_table_view_insert(s: Seq<(Seq<char>, CodecKind)>, k: Seq<char>, v: CodecKind)
    ensures
        spec_table_view(assoc_insert(s, k, v)) == assoc_insert(spec_table_view(s), k, v@),
{
    lemma_table_view_first_index(s, k);
    let fi = crate::strmap::assoc_first_index(s, k);
    crate::strmap::lemma_first_index_bounds(s, k);
    if fi < s.len() {
        assert(spec_table_view(assoc_insert(s, k, v)) =~= assoc_insert(
            spec_table_view(s),
            k,
            v@,
        ));
    } else {
        assert(spec_table_view(assoc_insert(s, k, v)) =~= assoc_insert(
            spec_table_view(s),
            k,
            v@,
        ));
    }
}

/// What one registration adds: the serializer under the full name, the
/// deserializer under the full name and, when free, under the short name.
pub open spec fn spec_register(m: RegistryModel, full: Seq<char>, ck: CodecKindModel) -> RegistryModel {
    let simple = spec_last_segment(full);
    let d1 = assoc_insert(m.deserializers, full, ck);
    let d2 = if simple != full && assoc_get(d1, simple) is None {
        assoc_insert(d1, simple, ck)
    } else {
        d1
    };
    RegistryModel {
        serializers: assoc_insert(m.serializers, full, ck),
        deserializers: d2,
        sealed: m.sealed,
    }
}

/// The registry model after the built-in registrations, in order: the six
/// primitive codecs, their six list codecs, the five built-in map codecs,
/// and the mixed-value map.
pub open spec fn spec_register_defaults(m: RegistryModel) -> RegistryModel {
    let k = |pk: PrimKind| crate::payload::spec_kind_type_name(pk);
    let l = |pk: PrimKind| crate::payload::spec_list_type_name(pk);
    let mp = |pk: PrimKind| crate::payload::spec_map_type_name(pk);
    let m1 = spec_register(m, k(PrimKind::Int32), CodecKindModel::Prim(PrimKind::Int32));
    let m2 = spec_register(m1, k(PrimKind::Int64), CodecKindModel::Prim(PrimKind::Int64));
    let m3 = spec_register(m2, k(PrimKind::Float32), CodecKindModel::Prim(PrimKind::Float32));
    let m4 = spec_register(m3, k(PrimKind::Float64), CodecKindModel::Prim(PrimKind::Float64));
    let m5 = spec_register(m4, k(PrimKind::Boolean), CodecKindModel::Prim(PrimKind::Boolean));
    let m6 = spec_register(m5, k(PrimKind::Text), CodecKindModel::Prim(PrimKind::Text));
    let m7 = spec_register(m6, l(PrimKind::Int32), CodecKindModel::ListOf(PrimKind::Int32));
    let m8 = spec_register(m7, l(PrimKind::Int64), CodecKindModel::ListOf(PrimKind::Int64));
    let m9 = spec_register(m8, l(PrimKind::Float32), CodecKindModel::ListOf(PrimKind::Float32));
    let m10 = spec_register(m9, l(PrimKind::Float64), CodecKindModel::ListOf(PrimKind::Float64));
    let m11 = spec_register(m10, l(PrimKind::Boolean), CodecKindModel::ListOf(PrimKind::Boolean));
    let m12 = spec_register(m11, l(PrimKind::Text), CodecKindModel::ListOf(PrimKind::Text));
    let m13 = spec_register(m12, mp(PrimKind::Text), CodecKindModel::MapOf(PrimKind::Text));
    let m14 = spec_register(m13, mp(PrimKind::Int32), CodecKindModel::MapOf(PrimKind::Int32));
    let m15 = spec_register(m14, mp(PrimKind::Int64), CodecKindModel::MapOf(PrimKind::Int64));
    let m16 = spec_register(m15, mp(PrimKind::Float64), CodecKindModel::MapOf(PrimKind::Float64));
    let m17 = spec_register(m16, mp(PrimKind::Boolean), CodecKindModel::MapOf(PrimKind::Boolean));
    spec_register(m17, crate::payload::spec_dyn_map_type_name(), CodecKindModel::DynMap)
}

/// Registry for type-specific serialization and deserialization handlers.
#[derive(Debug)]
pub struct SerializerRegistry {
    serializers: StrMap<CodecKind>,
    deserializers: StrMap<CodecKind>,
    is_sealed: bool,
    logger: Logger,
}

impl View for SerializerRegistry {
    type V = RegistryModel;

    closed spec fn view(&self) -> RegistryModel {
        RegistryModel {
            serializers: spec_table_view(self.serializers@),
            deserializers: spec_table_view(self.deserializers@),
            sealed: self.is_sealed,
        }
    }
}

impl SerializerRegistry {
    /// An empty, unsealed registry with a default logger.
    pub fn new() -> (r: SerializerRegistry)
        ensures
            r@ == (RegistryModel {
                serializers: Seq::<(Seq<char>, CodecKindModel)>::empty(),
                deserializers: Seq::<(Seq<char>, CodecKindModel)>::empty(),
                sealed: false,
            }),
    {
        let r = SerializerRegistry {
            serializers: StrMap::new(),
            deserializers: StrMap::new(),
            is_sealed: false,
            logger: Logger::new_root(Component::System, "default"),
        };
        proof {
            assert(r@.serializers =~= Seq::<(Seq<char>, CodecKindModel)>::empty());
            assert(r@.deserializers =~= Seq::<(Seq<char>, CodecKindModel)>::empty());
        }
        r
    }

    /// An empty, unsealed registry with the given logger.
    pub fn with_logger(logger: Logger) -> (r: SerializerRegistry)
        ensures
            r@ == (RegistryModel {
                serializers: Seq::<(Seq<char>, CodecKindModel)>::empty(),
                deserializers: Seq::<(Seq<char>, CodecKindModel)>::empty(),
                sealed: false,
            }),
    {
        let r = SerializerRegistry {
            serializers: StrMap::new(),
            deserializers: StrMap::new(),
            is_sealed: false,
            logger,
        };
        proof {
            assert(r@.serializers =~= Seq::<(Seq<char>, CodecKindModel)>::empty());
            assert(r@.deserializers =~= Seq::<(Seq<char>, CodecKindModel)>::empty());
        }
        r
    }

    /// A registry pre-populated with the built-in codecs.
    pub fn with_defaults() -> (r: SerializerRegistry)
        ensures
            r@ == spec_register_defaults(
                RegistryModel {
                    serializers: Seq::<(Seq<char>, CodecKindModel)>::empty(),
                    deserializers: Seq::<(Seq<char>, CodecKindModel)>::empty(),
                    sealed: false,
                },
            ),
    {
        let mut registry = SerializerRegistry::new();
        registry.register_defaults();
        registry
    }

    /// A registry pre-populated with the built-in codecs, using the given
    /// logger.
    pub fn with_defaults_and_logger(logger: Logger) -> (r: SerializerRegistry)
        ensures
            r@ == spec_register_defaults(
                RegistryModel {
                    serializers: Seq::<(Seq<char>, CodecKindModel)>::empty(),
                    deserializers: Seq::<(Seq<char>, CodecKindModel)>::empty(),
                    sealed: false,
                },
            ),
    {
        let mut registry = SerializerRegistry::with_logger(logger);
        registry.register_defaults();
        registry
    }

    /// Register the built-in primitive, list and map codecs, and the
    /// mixed-value map.
    fn register_defaults(&mut self)
        requires
            !old(self)@.sealed,
        ensures
            final(self)@ == spec_register_defaults(old(self)@),
    {
        let r1 = self.register::<i32>();
        let r2 = self.register::<i64>();
        let r3 = self.register::<F32Bits>();
        let r4 = self.register::<F64Bits>();
        let r5 = self.register::<bool>();
        let r6 = self.register::<String>();

        let r7 = self.register_list::<i32>();
        let r8 = self.register_list::<i64>();
        let r9 = self.register_list::<F32Bits>();
        let r10 = self.register_list::<F64Bits>();
        let r11 = self.register_list::<bool>();
        let r12 = self.register_list::<String>();

        let r13 = self.register_map::<String>();
        let r14 = self.register_map::<i32>();
        let r15 = self.register_map::<i64>();
        let r16 = self.register_map::<F64Bits>();
        let r17 = self.register_map::<bool>();

        let r18 = self.register_name(dyn_map_type_name(), CodecKind::DynMap);
    }

    /// Seal the registry: no further registrations are accepted, and the
    /// codec tables stay exactly as they are.
    pub fn seal(&mut self)
        ensures
            final(self)@ == (RegistryModel { sealed: true, ..old(self)@ }),
    {
        self.is_sealed = true;
    }

    /// True iff the registry is sealed.
    pub fn is_sealed(&self) -> (r: bool)
        ensures
            r == self@.sealed,
    {
        self.is_sealed
    }

    /// Register a built-in primitive type under its full name, and under
    /// its short name when that is still free. After a seal this fails
    /// with the sealed-registry error and changes nothing.
    pub fn register<T: PrimType>(&mut self) -> (r: Result<(), ValueError>)
        ensures
            old(self)@.sealed ==> r == Err::<(), ValueError>(ValueError::SealedRegistry)
                && final(self)@ == old(self)@,
            !old(self)@.sealed ==> r is Ok && final(self)@ == spec_register(
                old(self)@,
                crate::payload::spec_kind_type_name(T::kind_spec()),
                CodecKindModel::Prim(T::kind_spec()),
            ),
    {
        let name = T::type_name_str();
        let ck = CodecKind::Prim(T::kind());
        self.register_name(name, ck)
    }

    /// Register the homogeneous list of a built-in type.
    pub fn register_list<T: PrimType>(&mut self) -> (r: Result<(), ValueError>)
        ensures
            old(self)@.sealed ==> r == Err::<(), ValueError>(ValueError::SealedRegistry)
                && final(self)@ == old(self)@,
            !old(self)@.sealed ==> r is Ok && final(self)@ == spec_register(
                old(self)@,
                crate::payload::spec_list_type_name(T::kind_spec()),
                CodecKindModel::ListOf(T::kind_spec()),
            ),
    {
        let name = list_type_name(T::kind());
        let ck = CodecKind::ListOf(T::kind());
        self.register_name(name, ck)
    }

    /// Register the string-keyed map of a built-in value type.
    pub fn register_map<T: PrimType>(&mut self) -> (r: Result<(), ValueError>)
        ensures
            old(self)@.sealed ==> r == Err::<(), ValueError>(ValueError::SealedRegistry)
                && final(self)@ == old(self)@,
            !old(self)@.sealed ==> r is Ok && final(self)@ == spec_register(
                old(self)@,
                crate::payload::spec_map_type_name(T::kind_spec()),
                CodecKindModel::MapOf(T::kind_spec()),
            ),
    {
        let name = map_type_name(T::kind());
        let ck = CodecKind::MapOf(T::kind());
        self.register_name(name, ck)
    }

    /// Register a user-defined record type under its full name.
    pub fn register_record(&mut self, ty: &RecordType) -> (r: Result<(), ValueError>)
        ensures
            old(self)@.sealed ==> r == Err::<(), ValueError>(ValueError::SealedRegistry)
                && final(self)@ == old(self)@,
            !old(self)@.sealed ==> r is Ok && final(self)@ == spec_register(
                old(self)@,
                ty@.0,
                CodecKindModel::Record(ty@.0, ty@.1),
            ),
    {
        let ck = CodecKind::Record(ty.clone_record_type());
        let name = ty.name.clone();
        self.register_name_owned(name, ck)
    }

    /// Register a codec under one full and its short name.
    fn register_name(&mut self, name: &str, ck: CodecKind) -> (r: Result<(), ValueError>)
        ensures
            old(self)@.sealed ==> r == Err::<(), ValueError>(ValueError::SealedRegistry)
                && final(self)@ == old(self)@,
            !old(self)@.sealed ==> r is Ok && final(self)@ == spec_register(
                old(self)@,
                name@,
                ck@,
            ),
    {
        self.register_name_owned(name.to_owned(), ck)
    }

    /// Register a codec under one full and its short name.
    fn register_name_owned(&mut self, name: String, ck: CodecKind) -> (r: Result<
        (),
        ValueError,
    >)
        ensures
            old(self)@.sealed ==> r == Err::<(), ValueError>(ValueError::SealedRegistry)
                && final(self)@ == old(self)@,
            !old(self)@.sealed ==> r is Ok && final(self)@ == spec_register(
                old(self)@,
                name@,
                ck@,
            ),
    {
        if self.is_sealed {
            return Err(ValueError::SealedRegistry);
        }
        let ghost ser0 = self.serializers@;
        let ghost des0 = self.deserializers@;
        let simple = last_segment(name.as_str()).to_owned();
        let ck2 = ck.clone_codec_kind();
        let ck3 = ck.clone_codec_kind();
        let ghost ck2g = ck2;
        let ghost ck3g = ck3;
        let ghost ckg = ck;
        self.serializers.insert(name.clone(), ck2);
        proof {
            lemma_table_view_insert(ser0, name@, ck2g);
        }
        self.deserializers.insert(name.clone(), ck3);
        proof {
            lemma_table_view_insert(des0, name@, ck3g);
            lemma_table_view_get(self.deserializers@, simple@);
        }
        if !crate::prim::str_eq(simple.as_str(), name.as_str()) {
            if !self.deserializers.contains_key(simple.as_str()) {
                let ghost des1 = self.deserializers@;
                self.deserializers.insert(simple, ck);
                proof {
                    lemma_table_view_insert(des1, spec_last_segment(name@), ckg);
                }
            }
        }
        Ok(())
    }

    /// Register a custom decoder under exactly the given name. After a
    /// seal this fails with the sealed-registry error and changes nothing.
    pub fn register_custom_deserializer(
        &mut self,
        name: &str,
        deserializer: DeserializerFnWrapper,
    ) -> (r: Result<(), ValueError>)
        ensures
            old(self)@.sealed ==> r == Err::<(), ValueError>(ValueError::SealedRegistry)
                && final(self)@ == old(self)@,
            !old(self)@.sealed ==> r is Ok && final(self)@ == (RegistryModel {
                deserializers: assoc_insert(
                    old(self)@.deserializers,
                    name@,
                    deserializer@,
                ),
                ..old(self)@
            }),
    {
        if self.is_sealed {
            return Err(ValueError::SealedRegistry);
        }
        let ghost des0 = self.deserializers@;
        let ghost ckv = deserializer.kind;
        self.deserializers.insert(name.to_owned(), deserializer.kind);
        proof {
            lemma_table_view_insert(des0, name@, ckv);
        }
        Ok(())
    }

    /// The registered decoder of a type name, if any.
    pub fn get_deserializer_arc(&self, name: &str) -> (r: Option<DeserializerFnWrapper>)
        ensures
            match r {
                Some(w) => assoc_get(self@.deserializers, name@) == Some(w@),
                None => assoc_get(self@.deserializers, name@) is None,
            },
    {
        proof {
            lemma_table_view_get(self.deserializers@, name@);
        }
        match self.deserializers.get(name) {
            Some(ck) => Some(DeserializerFnWrapper { kind: ck.clone_codec_kind() }),
            None => None,
        }
    }

    /// Log every registered decoder name at debug level.
    pub fn debug_print_deserializers(&self) {
        let entries = self.deserializers.entries();
        let n = entries.len();
        let mut i: usize = 0;
        while i < n
            invariant
                n == entries@.len(),
                i <= n,
            decreases n - i,
        {
            let mut line = String::from_str("  - ");
            line.append(entries[i].0.as_str());
            self.logger.debug(line.as_str());
            i += 1;
        }
    }
}

/// What parsing the wire header yields: the category, the type name and
/// the offset where the payload starts.
pub open spec fn spec_parse_header(b: Seq<u8>) -> Result<(ValueCategory, Seq<char>, int), WireFault> {
    if b.len() == 0 {
        Err(WireFault::Empty)
    } else {
        match spec_category_of_marker(b[0]) {
            None => Err(WireFault::BadMarker(b[0])),
            Some(cat) => if cat is Null {
                Ok((cat, Seq::<char>::empty(), 1))
            } else if b.len() < 2 {
                Err(WireFault::TruncatedHeader)
            } else {
                let n = b[1] as int;
                if b.len() < 2 + n {
                    Err(WireFault::TruncatedName)
                } else if valid_utf8(b.subrange(2, 2 + n)) {
                    Ok((cat, decode_utf8(b.subrange(2, 2 + n)), 2 + n))
                } else {
                    Err(WireFault::InvalidNameEncoding)
                }
            },
        }
    }
}

/// The wire header of a category and type name.
pub open spec fn spec_emit_header(cat: ValueCategory, name: Seq<char>) -> Seq<u8> {
    if cat is Null {
        seq![spec_marker_byte(cat)]
    } else {
        seq![spec_marker_byte(cat), encode_utf8(name).len() as u8] + encode_utf8(name)
    }
}

/// Re-emitting a parsed header reproduces the bytes it was parsed from.
pub proof fn lemma_header_roundtrip(b: Seq<u8>)
    ensures
        spec_parse_header(b) matches Ok((cat, name, off)) ==> {
            &&& 0 < off <= b.len()
            &&& spec_emit_header(cat, name) =~= b.subrange(0, off)
            &&& encode_utf8(name).len() <= 255
        },
{
    if spec_parse_header(b) is Ok {
        let (cat, name, off) = spec_parse_header(b)->Ok_0;
        crate::category::lemma_marker_roundtrip(cat);
        if !(cat is Null) {
            let n = b[1] as int;
            vstd::utf8::decode_utf8_encode_utf8(b.subrange(2, 2 + n));
            assert(encode_utf8(name) =~= b.subrange(2, 2 + n));
        }
    }
}

impl SerializerRegistry {
    /// Parse the wire header of a buffer: the category, the type name and
    /// the offset where the payload starts.
    fn extract_header_from_slice(&self, bytes: &[u8]) -> (r: Result<
        (ValueCategory, String, usize),
        ValueError,
    >)
        ensures
            match r {
                Ok((cat, name, off)) => spec_parse_header(bytes@) == Ok::<
                    (ValueCategory, Seq<char>, int),
                    WireFault,
                >((cat, name@, off as int)) && off <= bytes@.len(),
                Err(e) => e matches ValueError::MalformedWire { fault } && spec_parse_header(
                    bytes@,
                ) == Err::<(ValueCategory, Seq<char>, int), WireFault>(fault),
            },
    {
        let blen = bytes.len();
        if blen == 0 {
            return Err(ValueError::MalformedWire { fault: WireFault::Empty });
        }
        let marker = *vstd::slice::slice_index_get(bytes, 0);
        let cat = match category_of_marker(marker) {
            Some(c) => c,
            None => {
                return Err(ValueError::MalformedWire { fault: WireFault::BadMarker(marker) });
            },
        };
        let is_null = match cat {
            ValueCategory::Null => true,
            _ => false,
        };
        if is_null {
            return Ok((cat, String::new(), 1));
        }
        if blen < 2 {
            return Err(ValueError::MalformedWire { fault: WireFault::TruncatedHeader });
        }
        let n = *vstd::slice::slice_index_get(bytes, 1) as usize;
        if blen < 2 + n {
            return Err(ValueError::MalformedWire { fault: WireFault::TruncatedName });
        }
        let name_slice = vstd::slice::slice_subrange(bytes, 2, 2 + n);
        let name_vec = vstd::slice::slice_to_vec(name_slice);
        match crate::shims::bytes_to_string(name_vec) {
            Some(name) => {
                proof {
                    vstd::utf8::encode_utf8_valid_utf8(name@);
                    vstd::utf8::encode_utf8_decode_utf8(name@);
                }
                Ok((cat, name, 2 + n))
            },
            None => Err(ValueError::MalformedWire { fault: WireFault::InvalidNameEncoding }),
        }
    }

    /// Serialize a bare payload that was registered under the given type
    /// name: the payload bytes without any header.
    pub fn serialize(&self, payload: &DynPayload, name: &str) -> (r: Result<Vec<u8>, ValueError>)
        ensures
            match r {
                Ok(v) => {
                    &&& assoc_get(self@.serializers, name@) is Some
                    &&& spec_payload_type_name(payload@) == name@
                    &&& v@ == crate::wire::spec_encode_payload(payload@)
                },
                Err(e) => match e {
                    ValueError::UnknownType { type_name_str } => type_name_str@ == name@
                        && assoc_get(self@.serializers, name@) is None,
                    ValueError::TypeMismatch { .. } => spec_payload_type_name(payload@) != name@,
                    ValueError::PayloadTooLarge => (payload@ matches PayloadModel::Raw(b) && b.len()
                        > u32::MAX),
                    _ => false,
                },
            },
    {
        proof {
            lemma_table_view_get(self.serializers@, name@);
        }
        if !self.serializers.contains_key(name) {
            return Err(ValueError::UnknownType { type_name_str: name.to_owned() });
        }
        let own_name = payload.payload_type_name();
        if !crate::prim::str_eq(own_name.as_str(), name) {
            return Err(ValueError::TypeMismatch { expected: name.to_owned(), actual: own_name });
        }
        if let DynPayload::Raw(blob) = payload {
            if blob.len() > (u32::MAX as usize) {
                return Err(ValueError::PayloadTooLarge);
            }
        }
        let mut out: Vec<u8> = Vec::new();
        encode_payload(payload, &mut out);
        proof {
            assert(out@ =~= crate::wire::spec_encode_payload(payload@));
        }
        Ok(out)
    }

    /// Serialize a tagged value to wire bytes: the header, then either the
    /// original undecoded payload bytes verbatim (for a value that is
    /// still lazy) or the freshly encoded payload.
    pub fn serialize_value(&self, value: &ArcValueType) -> (r: Result<Vec<u8>, ValueError>)
        ensures
            match value@.body {
                ErasedModel::Lazy(n, seg) => {
                    if value@.category is Null {
                        r matches Err(e) && e matches ValueError::DecodeError { .. }
                    } else if encode_utf8(n).len() > 255 {
                        r matches Err(e) && e matches ValueError::TypeNameTooLong { .. }
                    } else {
                        r matches Ok(v) && v@ == spec_emit_header(value@.category, n) + seg
                    }
                },
                ErasedModel::Eager(n, p) => {
                    if value@.category is Null {
                        r matches Ok(v) && v@ == spec_emit_header(
                            ValueCategory::Null,
                            Seq::<char>::empty(),
                        )
                    } else if encode_utf8(n).len() > 255 {
                        r matches Err(e) && e matches ValueError::TypeNameTooLong { .. }
                    } else if p matches PayloadModel::Raw(blob) && blob.len() > u32::MAX {
                        r == Err::<Vec<u8>, ValueError>(ValueError::PayloadTooLarge)
                    } else if !(value@.category is Bytes) && assoc_get(self@.serializers, n)
                        is None {
                        r matches Err(e) && e matches ValueError::UnknownType { type_name_str }
                            && type_name_str@ == n
                    } else {
                        r matches Ok(v) && v@ == spec_emit_header(value@.category, n)
                            + crate::wire::spec_encode_payload(p)
                    }
                },
            },
    {
        let is_null_cat = match value.category {
            ValueCategory::Null => true,
            _ => false,
        };
        if value.value.is_lazy() {
            let lazy = match value.value.get_lazy_data() {
                Ok(l) => l,
                Err(e) => {
                    proof {
                        assert(false);
                    }
                    return Err(e);
                },
            };
            if is_null_cat {
                return Err(
                    ValueError::DecodeError { type_name_str: lazy.type_name_str.clone() },
                );
            }
            let mut msg = String::from_str("Serializing lazy value with type: ");
            msg.append(lazy.type_name_str.as_str());
            self.logger.debug(msg.as_str());
            let mut out: Vec<u8> = Vec::new();
            out.push(marker_byte(value.category));
            let name_bytes = lazy.type_name_str.as_str().as_bytes_vec();
            if name_bytes.len() > 255 {
                return Err(
                    ValueError::TypeNameTooLong { type_name_str: lazy.type_name_str.clone() },
                );
            }
            out.push(name_bytes.len() as u8);
            out.extend_from_slice(name_bytes.as_slice());
            let buf: &Vec<u8> = &lazy.original_buffer;
            let seg = vstd::slice::slice_subrange(
                buf.as_slice(),
                lazy.start_offset,
                lazy.end_offset,
            );
            out.extend_from_slice(seg);
            proof {
                assert(seg@ =~= lazy.spec_segment());
                assert(out@ =~= spec_emit_header(value@.category, lazy.type_name_str@)
                    + lazy.spec_segment());
            }
            return Ok(out);
        }
        let mut out: Vec<u8> = Vec::new();
        out.push(marker_byte(value.category));
        if is_null_cat {
            proof {
                assert(out@ =~= spec_emit_header(ValueCategory::Null, Seq::<char>::empty()));
            }
            return Ok(out);
        }
        let name = value.value.type_name_str().to_owned();
        let mut msg = String::from_str("Serializing eager value with type: ");
        msg.append(name.as_str());
        self.logger.debug(msg.as_str());
        let name_bytes = name.as_str().as_bytes_vec();
        if name_bytes.len() > 255 {
            return Err(ValueError::TypeNameTooLong { type_name_str: name });
        }
        out.push(name_bytes.len() as u8);
        out.extend_from_slice(name_bytes.as_slice());
        let payload = match value.value.as_any() {
            Ok(p) => p,
            Err(e) => {
                proof {
                    assert(false);
                }
                return Err(e);
            },
        };
        if let DynPayload::Raw(blob) = payload {
            if blob.len() > (u32::MAX as usize) {
                return Err(ValueError::PayloadTooLarge);
            }
        }
        let is_bytes_cat = match value.category {
            ValueCategory::Bytes => true,
            _ => false,
        };
        if !is_bytes_cat {
            proof {
                lemma_table_view_get(self.serializers@, name@);
            }
            if !self.serializers.contains_key(name.as_str()) {
                return Err(ValueError::UnknownType { type_name_str: name });
            }
        }
        encode_payload(payload, &mut out);
        proof {
            assert(out@ =~= spec_emit_header(value@.category, value@.body->Eager_0)
                + crate::wire::spec_encode_payload(value@.body->Eager_1));
        }
        Ok(out)
    }

    /// Deserialize wire bytes into a tagged value. The null value comes
    /// back immediately; a byte blob is validated against its length
    /// prefix; every other category becomes a lazy value over the input
    /// buffer, provided a decoder is registered for the reported type
    /// name.
    pub fn deserialize_value(&self, bytes: Arc<Vec<u8>>) -> (r: Result<ArcValueType, ValueError>)
        ensures
            match spec_parse_header(bytes@) {
                Err(f) => r == Err::<ArcValueType, ValueError>(
                    ValueError::MalformedWire { fault: f },
                ),
                Ok((cat, name, off)) => {
                    if cat is Null {
                        r matches Ok(v) && v@.category == ValueCategory::Null && (v@.body
                            matches ErasedModel::Eager(_, p) && p is Unit)
                    } else if cat is Bytes {
                        let seg = bytes@.subrange(off, bytes@.len() as int);
                        if seg.len() >= 4 && crate::wire::spec_u32_from_be_bytes(
                            seg.subrange(0, 4),
                        ) as int == seg.len() - 4 {
                            r matches Ok(v) && v@.category == cat && v@.body
                                == ErasedModel::Lazy(name, seg)
                        } else {
                            r == Err::<ArcValueType, ValueError>(
                                ValueError::MalformedWire { fault: WireFault::TruncatedPayload },
                            )
                        }
                    } else {
                        match assoc_get(self@.deserializers, name) {
                            Some(_) => r matches Ok(v) && v@.category == cat && v@.body
                                == ErasedModel::Lazy(name, bytes@.subrange(off, bytes@.len() as int)),
                            None => r matches Err(e) && e matches ValueError::UnknownType {
                                type_name_str,
                            } && type_name_str@ == name,
                        }
                    }
                },
            },
    {
        let blen = bytes.len();
        let (cat, name, off) = match self.extract_header_from_slice(bytes.as_slice()) {
            Ok(h) => h,
            Err(e) => {
                return Err(e);
            },
        };
        let is_null_cat = match cat {
            ValueCategory::Null => true,
            _ => false,
        };
        if is_null_cat {
            return Ok(ArcValueType::null());
        }
        let mut msg = String::from_str("Deserializing value with type: ");
        msg.append(name.as_str());
        self.logger.debug(msg.as_str());
        let is_bytes_cat = match cat {
            ValueCategory::Bytes => true,
            _ => false,
        };
        if is_bytes_cat {
            if blen - off < 4 {
                return Err(ValueError::MalformedWire { fault: WireFault::TruncatedPayload });
            }
            let len_slice = vstd::slice::slice_subrange(bytes.as_slice(), off, off + 4);
            proof {
                assert(len_slice@ =~= bytes@.subrange(off as int, blen as int).subrange(0, 4));
            }
            let declared = crate::wire::u32_from_be_bytes(len_slice);
            if (declared as u64) != ((blen - off - 4) as u64) {
                return Err(ValueError::MalformedWire { fault: WireFault::TruncatedPayload });
            }
            let lazy = LazyDataWithOffset {
                type_name_str: name,
                original_buffer: bytes,
                start_offset: off,
                end_offset: blen,
            };
            return Ok(ArcValueType::new(ErasedArc::from_lazy(lazy), cat));
        }
        proof {
            lemma_table_view_get(self.deserializers@, name@);
        }
        if !self.deserializers.contains_key(name.as_str()) {
            return Err(ValueError::UnknownType { type_name_str: name });
        }
        let lazy = LazyDataWithOffset {
            type_name_str: name,
            original_buffer: bytes,
            start_offset: off,
            end_offset: blen,
        };
        Ok(ArcValueType::new(ErasedArc::from_lazy(lazy), cat))
    }
}

} // verus!
