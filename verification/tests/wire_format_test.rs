use std::sync::Arc;

use runar_common::logging::{Component, Logger};
use runar_common::prim::{F32Bits, F64Bits, PrimValue};
use runar_common::registry::SerializerRegistry;
use runar_common::strmap::StrMap;
use runar_common::value::ArcValueType;
use runar_common::textutil::compare_type_names;
use runar_common::{ValueCategory, ValueError};

fn registry() -> SerializerRegistry {
    SerializerRegistry::with_defaults_and_logger(Logger::new_root(
        Component::Custom("Test"),
        "wire-test",
    ))
}

#[test]
fn test_round_trip_every_builtin_primitive() {
    let reg = registry();

    let mut v = reg
        .deserialize_value(Arc::new(
            reg.serialize_value(&ArcValueType::new_primitive(-7i32)).unwrap(),
        ))
        .unwrap();
    assert_eq!(v.as_type::<i32>().unwrap(), -7);

    let mut v = reg
        .deserialize_value(Arc::new(
            reg.serialize_value(&ArcValueType::new_primitive(-900000000000i64))
                .unwrap(),
        ))
        .unwrap();
    assert_eq!(v.as_type::<i64>().unwrap(), -900000000000);

    let mut v = reg
        .deserialize_value(Arc::new(
            reg.serialize_value(&ArcValueType::new_primitive(F32Bits((2.5f32).to_bits())))
                .unwrap(),
        ))
        .unwrap();
    assert_eq!(f32::from_bits(v.as_type::<F32Bits>().unwrap().0), 2.5);

    let mut v = reg
        .deserialize_value(Arc::new(
            reg.serialize_value(&ArcValueType::new_primitive(F64Bits((6.25f64).to_bits())))
                .unwrap(),
        ))
        .unwrap();
    assert_eq!(f64::from_bits(v.as_type::<F64Bits>().unwrap().0), 6.25);

    let mut v = reg
        .deserialize_value(Arc::new(
            reg.serialize_value(&ArcValueType::new_primitive(true)).unwrap(),
        ))
        .unwrap();
    assert_eq!(v.as_type::<bool>().unwrap(), true);

    let mut v = reg
        .deserialize_value(Arc::new(
            reg.serialize_value(&ArcValueType::new_primitive("héllo wörld".to_string()))
                .unwrap(),
        ))
        .unwrap();
    assert_eq!(v.as_type::<String>().unwrap(), "héllo wörld");
}

#[test]
fn test_round_trip_lists_and_maps() {
    let reg = registry();

    let mut v = reg
        .deserialize_value(Arc::new(
            reg.serialize_value(&ArcValueType::new_list(vec![
                "a".to_string(),
                "b".to_string(),
            ]))
            .unwrap(),
        ))
        .unwrap();
    assert_eq!(v.category, ValueCategory::List);
    let got = v.as_list_ref::<String>().unwrap();
    assert_eq!(*got, vec!["a".to_string(), "b".to_string()]);

    let mut map: StrMap<i64> = StrMap::new();
    map.insert("x".to_string(), 10);
    map.insert("y".to_string(), -20);
    let mut v = reg
        .deserialize_value(Arc::new(
            reg.serialize_value(&ArcValueType::new_map(map)).unwrap(),
        ))
        .unwrap();
    let got = v.as_map_ref::<i64>().unwrap();
    assert_eq!(got.len(), 2);
    assert_eq!(got.get("x"), Some(&10));
    assert_eq!(got.get("y"), Some(&-20));
}

#[test]
fn test_primitive_payload_matches_reference_codec() {
    // The wire payload of a registered built-in equals the reference
    // binary encoding of the value, behind the category/type-name header.
    let reg = registry();

    let bytes = reg
        .serialize_value(&ArcValueType::new_primitive(123456i32))
        .unwrap();
    assert_eq!(bytes[0], 0x01);
    let name_len = bytes[1] as usize;
    assert_eq!(&bytes[2..2 + name_len], "i32".as_bytes());
    assert_eq!(&bytes[2 + name_len..], &bincode::serialize(&123456i32).unwrap()[..]);

    let bytes = reg
        .serialize_value(&ArcValueType::new_primitive("hello".to_string()))
        .unwrap();
    assert_eq!(bytes[0], 0x01);
    let name_len = bytes[1] as usize;
    assert_eq!(&bytes[2..2 + name_len], "alloc::string::String".as_bytes());
    assert_eq!(
        &bytes[2 + name_len..],
        &bincode::serialize(&"hello".to_string()).unwrap()[..]
    );

    let bytes = reg
        .serialize_value(&ArcValueType::new_list(vec![1i32, 2, 3]))
        .unwrap();
    assert_eq!(bytes[0], 0x02);
    let name_len = bytes[1] as usize;
    assert_eq!(&bytes[2..2 + name_len], "alloc::vec::Vec<i32>".as_bytes());
    assert_eq!(
        &bytes[2 + name_len..],
        &bincode::serialize(&vec![1i32, 2, 3]).unwrap()[..]
    );
}

#[test]
fn test_verbatim_reemission_without_access() {
    // serialize(deserialize(bytes)) reproduces the bytes exactly when no
    // accessor ran in between: the lazy payload is re-emitted verbatim.
    let reg = registry();
    let mut map: StrMap<String> = StrMap::new();
    map.insert("k".to_string(), "v".to_string());
    let original = reg
        .serialize_value(&ArcValueType::new_map(map))
        .unwrap();

    let lazy = reg.deserialize_value(Arc::new(original.clone())).unwrap();
    assert!(lazy.value.is_lazy());
    let reemitted = reg.serialize_value(&lazy).unwrap();
    assert_eq!(reemitted, original);

    // the same holds for a struct payload
    let rec = runar_common::RecordValue {
        type_name_str: "wire_format_test::Widget".to_string(),
        fields: vec![PrimValue::Int64(5)],
    };
    let mut reg2 = registry();
    reg2.register_record(&runar_common::RecordType {
        name: "wire_format_test::Widget".to_string(),
        shape: vec![runar_common::PrimKind::Int64],
    })
    .unwrap();
    let original = reg2
        .serialize_value(&ArcValueType::from_struct(rec))
        .unwrap();
    let lazy = reg2.deserialize_value(Arc::new(original.clone())).unwrap();
    let reemitted = reg2.serialize_value(&lazy).unwrap();
    assert_eq!(reemitted, original);
}

#[test]
fn test_malformed_inputs_are_rejected() {
    let reg = registry();

    // empty input
    match reg.deserialize_value(Arc::new(vec![])) {
        Err(ValueError::MalformedWire { .. }) => {}
        _ => panic!("empty input must be rejected"),
    }

    // invalid category marker
    match reg.deserialize_value(Arc::new(vec![0x00, 1, 2, 3])) {
        Err(ValueError::MalformedWire { .. }) => {}
        _ => panic!("marker 0 must be rejected"),
    }

    // type-name length overruns the buffer
    match reg.deserialize_value(Arc::new(vec![0x01, 200, b'i'])) {
        Err(ValueError::MalformedWire { .. }) => {}
        _ => panic!("overlong name must be rejected"),
    }

    // header cut off before the name length
    match reg.deserialize_value(Arc::new(vec![0x02])) {
        Err(ValueError::MalformedWire { .. }) => {}
        _ => panic!("truncated header must be rejected"),
    }

    // byte payload whose 4-byte length disagrees with the buffer
    let mut bad_bytes = vec![0x06, 1, b'b'];
    bad_bytes.extend_from_slice(&[0, 0, 0, 9]);
    bad_bytes.extend_from_slice(&[1, 2]);
    match reg.deserialize_value(Arc::new(bad_bytes)) {
        Err(ValueError::MalformedWire { .. }) => {}
        _ => panic!("truncated byte payload must be rejected"),
    }

    // corrupt payload: declared as bool but holding an invalid byte
    let good = reg
        .serialize_value(&ArcValueType::new_primitive(true))
        .unwrap();
    let mut corrupt = good.clone();
    let last = corrupt.len() - 1;
    corrupt[last] = 9;
    let mut lazy = reg.deserialize_value(Arc::new(corrupt)).unwrap();
    match lazy.as_type_ref::<bool>() {
        Err(ValueError::DecodeError { .. }) => {}
        _ => panic!("corrupt payload must fail to decode"),
    }
    // the segment is left unresolved
    assert!(lazy.value.is_lazy());
}

#[test]
fn test_unknown_type_is_refused_at_deserialize() {
    // the registry refuses to produce an unresolvable lazy reference
    let reg = registry();
    let rec = runar_common::RecordValue {
        type_name_str: "wire_format_test::Widget".to_string(),
        fields: vec![PrimValue::Int64(5)],
    };
    let mut reg2 = registry();
    reg2.register_record(&runar_common::RecordType {
        name: "wire_format_test::Widget".to_string(),
        shape: vec![runar_common::PrimKind::Int64],
    })
    .unwrap();
    let bytes = reg2
        .serialize_value(&ArcValueType::from_struct(rec))
        .unwrap();
    // reg never registered the widget type
    match reg.deserialize_value(Arc::new(bytes)) {
        Err(ValueError::UnknownType { type_name_str }) => {
            assert_eq!(type_name_str, "wire_format_test::Widget");
        }
        _ => panic!("an unregistered type name must be refused"),
    }
}

#[test]
fn test_sealed_registry_rejects_registration() {
    let mut reg = registry();
    assert!(!reg.is_sealed());
    reg.seal();
    assert!(reg.is_sealed());

    // registering after the seal fails with the sealed-registry error
    let widget = runar_common::RecordType {
        name: "wire_format_test::Widget".to_string(),
        shape: vec![runar_common::PrimKind::Int64],
    };
    match reg.register_record(&widget) {
        Err(ValueError::SealedRegistry) => {}
        _ => panic!("registration after seal must fail"),
    }
    // and the codec table is unchanged: the type stays unregistered
    assert!(reg.get_deserializer_arc("wire_format_test::Widget").is_none());
    assert!(reg
        .get_deserializer_arc("wire_format_test::Widget")
        .is_none());
}

#[test]
fn test_mixed_map_scenario() {
    // build a map value {"a": 1, "b": "x"}, serialize and deserialize it
    let reg = registry();
    let mut map: StrMap<PrimValue> = StrMap::new();
    map.insert("a".to_string(), PrimValue::Int64(1));
    map.insert("b".to_string(), PrimValue::Text("x".to_string()));
    let value = ArcValueType::from_dyn_map(map);

    let bytes = reg.serialize_value(&value).unwrap();
    let mut lazy = reg.deserialize_value(Arc::new(bytes)).unwrap();

    // the reconstructed value is a lazy map, not null
    assert!(!lazy.is_null());
    assert_eq!(lazy.category, ValueCategory::Mapping);
    assert!(lazy.value.is_lazy());

    // a homogeneous string/string accessor must fail: the "a" entry holds
    // an integer payload, and the recorded type name says so
    match lazy.as_map_ref::<String>() {
        Err(ValueError::TypeMismatch { .. }) => {}
        _ => panic!("mixed map must not read as a homogeneous string map"),
    }
    assert!(lazy.value.is_lazy());

    // the correctly-typed accessor returns the original contents
    let got = lazy.as_dyn_map_ref().unwrap();
    assert_eq!(got.len(), 2);
    assert_eq!(got.get("a"), Some(&PrimValue::Int64(1)));
    assert_eq!(got.get("b"), Some(&PrimValue::Text("x".to_string())));
}

#[test]
fn test_bytes_category_round_trip() {
    let reg = registry();
    let value = ArcValueType::new_bytes(vec![9, 8, 7, 6]);
    let bytes = reg.serialize_value(&value).unwrap();
    let mut back = reg.deserialize_value(Arc::new(bytes.clone())).unwrap();
    assert_eq!(back.category, ValueCategory::Bytes);
    let blob = back.as_bytes_ref().unwrap();
    assert_eq!(*blob, vec![9, 8, 7, 6]);

    // re-emission of the still-lazy blob reproduces the wire bytes
    let lazy = reg.deserialize_value(Arc::new(bytes.clone())).unwrap();
    assert_eq!(reg.serialize_value(&lazy).unwrap(), bytes);
}

#[test]
fn test_category_mismatch_errors() {
    let mut v = ArcValueType::new_primitive(1i32);
    match v.as_list_ref::<i32>() {
        Err(ValueError::CategoryMismatch { requested, held }) => {
            assert_eq!(requested, ValueCategory::List);
            assert_eq!(held, ValueCategory::Primitive);
        }
        _ => panic!("expected a category mismatch"),
    }
    assert!(v.as_map_ref::<String>().is_err());
    assert!(v.as_bytes_ref().is_err());
}

#[test]
fn test_error_messages() {
    let e = ValueError::TypeMismatch {
        expected: "i32".to_string(),
        actual: "bool".to_string(),
    };
    assert_eq!(e.message(), "Type mismatch: expected i32, but has bool");
    assert!(e.is_type_mismatch());

    let e = ValueError::SealedRegistry;
    assert_eq!(
        e.message(),
        "Cannot register new types after registry is sealed"
    );

    let e = ValueError::UnknownType {
        type_name_str: "Widget".to_string(),
    };
    assert_eq!(e.message(), "No codec registered for type: Widget");
}

#[test]
fn test_compare_type_names() {
    // exact
    assert!(compare_type_names("i32", "i32"));
    // full vs short spelling of the same type
    assert!(compare_type_names("alloc::string::String", "String"));
    assert!(compare_type_names("String", "alloc::string::String"));
    // one name carries the other's final segment
    assert!(compare_type_names(
        "alloc::vec::Vec<i32>",
        "alloc::vec::Vec<i32>"
    ));
    // unrelated names stay apart
    assert!(!compare_type_names("i32", "bool"));
    assert!(!compare_type_names(
        "alloc::vec::Vec<i32>",
        "runar_common::types::VMap"
    ));
}

#[test]
fn test_null_serialization_is_one_marker_byte() {
    let reg = registry();
    let bytes = reg.serialize_value(&ArcValueType::null()).unwrap();
    assert_eq!(bytes, vec![0x05]);
    let back = reg.deserialize_value(Arc::new(bytes)).unwrap();
    assert!(back.is_null());
}

#[test]
fn test_describe() {
    assert_eq!(ArcValueType::new_primitive(42i32).describe(), "42");
    assert_eq!(ArcValueType::new_primitive(-7i64).describe(), "-7");
    assert_eq!(
        ArcValueType::new_primitive("hi".to_string()).describe(),
        "\"hi\""
    );
    assert_eq!(ArcValueType::new_primitive(true).describe(), "true");
    assert_eq!(ArcValueType::null().describe(), "null");
    assert_eq!(
        ArcValueType::new_list(vec![1i32]).describe(),
        "List<alloc::vec::Vec<i32>>"
    );
    assert_eq!(
        ArcValueType::new_bytes(vec![1, 2, 3]).describe(),
        "Bytes(size: 3 bytes)"
    );

    // a lazy value names its reported type and undecoded size
    let reg = registry();
    let bytes = reg
        .serialize_value(&ArcValueType::new_primitive(0i64))
        .unwrap();
    let lazy = reg.deserialize_value(Arc::new(bytes)).unwrap();
    assert_eq!(lazy.describe(), "Lazy<i64>(size: 8 bytes)");
}

#[test]
fn test_describe_decimal_extremes() {
    assert_eq!(ArcValueType::new_primitive(0i32).describe(), "0");
    assert_eq!(
        ArcValueType::new_primitive(i64::MIN).describe(),
        "-9223372036854775808"
    );
    assert_eq!(
        ArcValueType::new_primitive(i64::MAX).describe(),
        "9223372036854775807"
    );
}

#[test]
fn test_deserializer_wrapper_decodes_payload_bytes() {
    // The registered decoder handle decodes bare payload bytes.
    let reg = registry();
    let wrapper = reg.get_deserializer_arc("i32").expect("i32 is registered");
    let payload = reg
        .serialize(
            &runar_common::DynPayload::Prim(runar_common::payload::PrimArc::Int32(
                Arc::new(77),
            )),
            "i32",
        )
        .unwrap();
    let decoded = wrapper.call(&payload).unwrap();
    match decoded {
        runar_common::DynPayload::Prim(runar_common::payload::PrimArc::Int32(v)) => {
            assert_eq!(*v, 77);
        }
        _ => panic!("expected an i32 payload"),
    }
    // corrupt bytes fail to decode
    assert!(wrapper.call(&payload[..2]).is_err());
}
