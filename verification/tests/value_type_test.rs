use std::sync::Arc;

use runar_common::logging::{Component, Logger};
use runar_common::payload::{RecordType, RecordValue};
use runar_common::prim::{PrimKind, PrimValue};
use runar_common::registry::SerializerRegistry;
use runar_common::strmap::StrMap;
use runar_common::value::ArcValueType;
use runar_common::ValueError;

// The record description of the test struct: a text field and a 32-bit
// integer field, in that order.
fn test_struct_type() -> RecordType {
    RecordType {
        name: "value_type_test::TestStruct".to_string(),
        shape: vec![PrimKind::Text, PrimKind::Int32],
    }
}

fn test_struct_value(field1: &str, field2: i32) -> RecordValue {
    RecordValue {
        type_name_str: "value_type_test::TestStruct".to_string(),
        fields: vec![
            PrimValue::Text(field1.to_string()),
            PrimValue::Int32(field2),
        ],
    }
}

// Create a test registry for use in tests
fn create_test_registry() -> SerializerRegistry {
    let mut registry = SerializerRegistry::with_defaults_and_logger(Logger::new_root(
        Component::Custom("Test"),
        "test-node",
    ));

    // Register the test struct for serialization
    registry.register_record(&test_struct_type()).unwrap();

    // Explicitly register HashMap<String, String> for map tests
    registry.register_map::<String>().unwrap();

    registry
}

#[test]
fn test_primitives_arc_preservation() {
    // Create a value with a string
    let string_value = "Hello, world!".to_string();
    let mut value = ArcValueType::new_primitive(string_value);

    // Get reference to the string
    let ref1 = value.as_type_ref::<String>().unwrap();
    let ref2 = value.as_type_ref::<String>().unwrap();

    // Verify identity (same Arc pointer)
    assert!(Arc::ptr_eq(&ref1, &ref2));

    // Verify content
    assert_eq!(&*ref1, "Hello, world!");
    assert_eq!(&*ref2, "Hello, world!");
}

#[test]
fn test_list_arc_preservation() {
    // Create a value with a list
    let list = vec![1, 2, 3, 4, 5];
    let mut value = ArcValueType::new_list(list);

    // Get references
    let ref1 = value.as_list_ref::<i32>().unwrap();
    let ref2 = value.as_list_ref::<i32>().unwrap();

    // Verify identity
    assert!(Arc::ptr_eq(&ref1, &ref2));

    // Verify content
    assert_eq!(*ref1, vec![1, 2, 3, 4, 5]);
    assert_eq!(*ref2, vec![1, 2, 3, 4, 5]);
}

#[test]
fn test_map_arc_preservation() {
    // Create a map
    let mut map: StrMap<String> = StrMap::new();
    map.insert("key1".to_string(), "value1".to_string());
    map.insert("key2".to_string(), "value2".to_string());

    let mut value = ArcValueType::new_map(map);

    // Get references
    let ref1 = value.as_map_ref::<String>().unwrap();
    let ref2 = value.as_map_ref::<String>().unwrap();

    // Verify identity
    assert!(Arc::ptr_eq(&ref1, &ref2));

    // Verify content
    assert_eq!(ref1.len(), 2);
    assert_eq!(ref1.get("key1"), Some(&"value1".to_string()));
    assert_eq!(ref1.get("key2"), Some(&"value2".to_string()));

    assert_eq!(ref2.len(), 2);
    assert_eq!(ref2.get("key1"), Some(&"value1".to_string()));
    assert_eq!(ref2.get("key2"), Some(&"value2".to_string()));

    // Let's check serialization
    let registry = create_test_registry();
    let bytes = registry.serialize_value(&value).unwrap();
    let mut value_from_bytes = registry.deserialize_value(Arc::new(bytes)).unwrap();
    let ref3 = value_from_bytes.as_map_ref::<String>().unwrap();
    assert_eq!(ref3.len(), 2);
    assert_eq!(ref3.get("key1"), Some(&"value1".to_string()));
    assert_eq!(ref3.get("key2"), Some(&"value2".to_string()));
}

#[test]
fn test_struct_arc_preservation() {
    // Create a struct
    let test_struct = test_struct_value("Hello", 42);

    let mut value = ArcValueType::from_struct(test_struct);

    // Get references
    let ref1 = value.as_struct_ref(&test_struct_type()).unwrap();
    let ref2 = value.as_struct_ref(&test_struct_type()).unwrap();

    // Verify identity
    assert!(Arc::ptr_eq(&ref1, &ref2));

    // Verify content
    assert_eq!(
        ref1.fields[0],
        PrimValue::Text("Hello".to_string())
    );
    assert_eq!(ref1.fields[1], PrimValue::Int32(42));
    assert_eq!(ref2.type_name_str, "value_type_test::TestStruct");
}

#[test]
fn test_struct_serialization() {
    // Create test struct
    let test_struct = test_struct_value("Hello", 42);

    // Create a registry
    let registry = create_test_registry();

    // First, directly create a value from the struct
    let value = ArcValueType::from_struct(test_struct);

    // Manually serialize it
    let serialized_bytes = registry.serialize_value(&value).unwrap();

    // Now we should be able to deserialize it back
    let mut deserialized_value = registry
        .deserialize_value(Arc::new(serialized_bytes))
        .unwrap();

    // Extract to validate
    let deserialized_struct = deserialized_value
        .as_struct_ref(&test_struct_type())
        .unwrap();

    // Verify the deserialized content
    assert_eq!(
        deserialized_struct.fields[0],
        PrimValue::Text("Hello".to_string())
    );
    assert_eq!(deserialized_struct.fields[1], PrimValue::Int32(42));

    // again
    let deserialized_struct = deserialized_value
        .as_struct_ref(&test_struct_type())
        .unwrap();
    assert_eq!(
        deserialized_struct.fields[0],
        PrimValue::Text("Hello".to_string())
    );
    assert_eq!(deserialized_struct.fields[1], PrimValue::Int32(42));
}

#[test]
fn test_type_mismatch_errors() {
    // Create a value with a string
    let mut value = ArcValueType::new_primitive("Hello, world!".to_string());

    // Try to get it as an integer - should fail
    let result = value.as_type_ref::<i32>();
    assert!(result.is_err());

    // Try to get it as a list - should fail
    let result = value.as_list_ref::<String>();
    assert!(result.is_err());
}

#[test]
fn test_null_value() {
    let value = ArcValueType::null();
    assert!(value.is_null());
}

#[test]
fn test_primitive_cloning() {
    // Test that as_type (not as_type_ref) does clone the value
    let string_value = "Hello, world!".to_string();
    let mut value = ArcValueType::new_primitive(string_value);

    // Get a cloned value
    let cloned_value: String = value.as_type().unwrap();

    // Verify it's a clone, not the original
    let ref_value = value.as_type_ref::<String>().unwrap();
    assert_eq!(cloned_value, *ref_value);

    // Modifying the clone should not affect the original
    let mut cloned_value = cloned_value;
    cloned_value.push_str(" Modified");

    // Original should remain unchanged
    let ref_value = value.as_type_ref::<String>().unwrap();
    assert_eq!(&*ref_value, "Hello, world!");
    assert_eq!(cloned_value, "Hello, world! Modified");

    let registry = create_test_registry();
    // serialize and deserialize
    let serialized_bytes = registry.serialize_value(&value).unwrap();
    let mut value_from_bytes = registry
        .deserialize_value(Arc::new(serialized_bytes))
        .unwrap();
    let ref_value = value_from_bytes.as_type_ref::<String>().unwrap();
    assert_eq!(&*ref_value, "Hello, world!");
}

#[test]
fn test_registry_with_defaults() {
    // Create a registry with defaults
    let registry = SerializerRegistry::with_defaults_and_logger(Logger::new_root(
        Component::Custom("Test"),
        "test-node",
    ));

    // Test serialization and deserialization of a primitive
    let value = ArcValueType::new_primitive(42i32);
    let bytes = registry.serialize_value(&value).unwrap();
    let mut value_from_bytes = registry.deserialize_value(Arc::new(bytes)).unwrap();
    let num: i32 = value_from_bytes.as_type().unwrap();
    assert_eq!(num, 42);
}

#[test]
fn test_lazy_type_mismatch_leaves_value_unresolved() {
    // A deserialized struct stays lazy; asking for an incompatible record
    // type fails with a type mismatch and keeps it lazy.
    let registry = create_test_registry();
    let value = ArcValueType::from_struct(test_struct_value("widget data", 7));
    let bytes = registry.serialize_value(&value).unwrap();
    let mut lazy_value = registry.deserialize_value(Arc::new(bytes)).unwrap();
    assert!(lazy_value.value.is_lazy());

    let other = RecordType {
        name: "value_type_test::OtherType".to_string(),
        shape: vec![PrimKind::Int64],
    };
    let result = lazy_value.as_struct_ref(&other);
    match result {
        Err(ValueError::TypeMismatch { expected, actual }) => {
            assert_eq!(expected, "value_type_test::OtherType");
            assert_eq!(actual, "value_type_test::TestStruct");
        }
        _ => panic!("expected a type mismatch"),
    }
    // still lazy: the failed attempt consumed nothing
    assert!(lazy_value.value.is_lazy());

    // the correctly typed accessor then resolves it
    let resolved = lazy_value.as_struct_ref(&test_struct_type()).unwrap();
    assert_eq!(resolved.fields[1], PrimValue::Int32(7));
    assert!(!lazy_value.value.is_lazy());
}

#[test]
fn test_resolve_happens_once() {
    // After the first accessor call the value is eager; a second call
    // returns a handle to the very same allocation without decoding.
    let registry = create_test_registry();
    let value = ArcValueType::new_primitive("cache me".to_string());
    let bytes = registry.serialize_value(&value).unwrap();
    let mut lazy_value = registry.deserialize_value(Arc::new(bytes)).unwrap();
    assert!(lazy_value.value.is_lazy());

    let first = lazy_value.as_type_ref::<String>().unwrap();
    assert!(!lazy_value.value.is_lazy());
    let second = lazy_value.as_type_ref::<String>().unwrap();
    assert!(Arc::ptr_eq(&first, &second));
    assert_eq!(&*first, "cache me");
}

#[test]
fn test_independent_clones_resolve_separately() {
    // Cloning before resolution duplicates only the descriptor: each clone
    // decodes on its own and the results are value-equal.
    let registry = create_test_registry();
    let value = ArcValueType::new_primitive(1234i64);
    let bytes = registry.serialize_value(&value).unwrap();
    let mut original = registry.deserialize_value(Arc::new(bytes)).unwrap();
    let mut duplicate = original.clone();

    let a = original.as_type_ref::<i64>().unwrap();
    // resolving the original leaves the clone lazy
    assert!(duplicate.value.is_lazy());
    let b = duplicate.as_type_ref::<i64>().unwrap();
    assert_eq!(*a, *b);
    // two independent decodes, two independent allocations
    assert!(!Arc::ptr_eq(&a, &b));
}

#[test]
fn test_eq_value_is_identity_based() {
    let v1 = ArcValueType::new_primitive(5i32);
    let v2 = ArcValueType::new_primitive(5i32);
    let v3 = v1.clone();

    // structurally equal but independently constructed: not equal
    assert!(!v1.value.eq_value(&v2.value));
    // a clone shares the allocation: equal
    assert!(v1.value.eq_value(&v3.value));
    assert_eq!(v1.value.as_ptr(), v3.value.as_ptr());
    assert!(v1.value.strong_count() >= 2);
}

#[test]
fn test_equality_is_identity_and_category() {
    let v1 = ArcValueType::new_primitive(5i32);
    let v2 = ArcValueType::new_primitive(5i32);
    let v3 = v1.clone();

    // structurally equal, independently constructed: unequal
    assert!(v1 != v2);
    // a clone shares the allocation: equal
    assert!(v1 == v3);
    // different categories: unequal
    assert!(ArcValueType::null() != v1);
}
