use runar_common::payload::RecordValue;
use runar_common::prim::{F64Bits, PrimValue};
use runar_common::typed::{value_from_bytes, TypedValue, Value};
use std::sync::Arc;

// A record standing for a person with a name, an age and an email.
fn person(name: &str, age: i32, email: &str) -> RecordValue {
    RecordValue {
        type_name_str: "value_typed_test::Person".to_string(),
        fields: vec![
            PrimValue::Text(name.to_string()),
            PrimValue::Int32(age),
            PrimValue::Text(email.to_string()),
        ],
    }
}

#[test]
fn test_primitives() {
    // Create basic primitive values with the TypedValue API
    let s = TypedValue::from_value("Hello".to_string());
    let i = TypedValue::from_value(42);
    let f = TypedValue::from_value(F64Bits((3.14159f64).to_bits()));
    let b = TypedValue::from_value(true);

    // Create null value
    let null = TypedValue::null();

    // Test type conversion
    let str_value: String = s.as_type().unwrap();
    assert_eq!(str_value, "Hello");

    let i32_value: i32 = i.as_type().unwrap();
    assert_eq!(i32_value, 42);

    let f64_value: F64Bits = f.as_type().unwrap();
    assert_eq!(f64::from_bits(f64_value.0), 3.14159);

    let bool_value: bool = b.as_type().unwrap();
    assert_eq!(bool_value, true);

    // Test if null is correctly identified
    assert!(null.is_null());

    // Test type conversion - the API is strongly typed, so extracting an
    // incompatible type fails
    let incompatible: Result<i32, _> = s.as_type();
    assert!(incompatible.is_err());
}

#[test]
fn test_lists() {
    // Create lists with the TypedValue API
    let str_list = TypedValue::from_list(vec![
        "one".to_string(),
        "two".to_string(),
        "three".to_string(),
    ]);
    let int_list = TypedValue::from_list(vec![1, 2, 3, 4, 5]);

    // Using the list conversion API
    let str_vec: Vec<String> = str_list.as_list().unwrap();
    assert_eq!(
        str_vec,
        vec!["one".to_string(), "two".to_string(), "three".to_string()]
    );

    let int_vec: Vec<i32> = int_list.as_list().unwrap();
    assert_eq!(int_vec, vec![1, 2, 3, 4, 5]);

    // Try a conversion that should fail
    let result: Result<Vec<F64Bits>, _> = int_list.as_list();
    assert!(result.is_err());
}

#[test]
fn test_maps() {
    // Create maps
    let str_to_int = vec![
        ("one".to_string(), 1),
        ("two".to_string(), 2),
        ("three".to_string(), 3),
    ];
    let int_to_str = vec![
        (1, "one".to_string()),
        (2, "two".to_string()),
        (3, "three".to_string()),
    ];

    // Create map values with TypedValue API
    let typed_str_to_int = TypedValue::from_map(str_to_int.clone());
    let typed_int_to_str = TypedValue::from_map(int_to_str.clone());

    // Using the map conversion API
    let map1: Vec<(String, i32)> = typed_str_to_int.as_map().unwrap();
    assert_eq!(map1, str_to_int);

    let map2: Vec<(i32, String)> = typed_int_to_str.as_map().unwrap();
    assert_eq!(map2, int_to_str);

    // Try a conversion that should fail
    let result: Result<Vec<(bool, i64)>, _> = typed_str_to_int.as_map();
    assert!(result.is_err());
}

#[test]
fn test_serialization() {
    // Create a value to serialize
    let original = TypedValue::from_value(42);

    // Serialize to bytes
    let bytes = original.to_bytes().unwrap();
    assert!(!bytes.is_empty());

    // Create a value from the serialized bytes
    let deserialized = value_from_bytes(&bytes).unwrap();

    // Type-safe access to the deserialized value
    let val: i32 = deserialized.as_type().unwrap();
    assert_eq!(val, 42);
}

#[test]
fn test_zero_copy() {
    // Create complex object
    let map = vec![
        ("name".to_string(), "John Doe".to_string()),
        ("email".to_string(), "john@example.com".to_string()),
        ("role".to_string(), "Admin".to_string()),
    ];

    // Create with TypedValue API
    let typed_user_map = TypedValue::from_map(map.clone());

    // Use the API to get the map
    let map_data: Vec<(String, String)> = typed_user_map.as_map().unwrap();
    assert_eq!(map_data, map);
    assert_eq!(map_data[0].1, "John Doe");
    assert_eq!(map_data[1].1, "john@example.com");
    assert_eq!(map_data[2].1, "Admin");
}

#[test]
fn test_custom_structs() {
    // Create a person record
    let p = person("Alice Smith", 32, "alice@example.com");

    // Create a TypedValue containing the record
    let typed_person = TypedValue::from_struct(p);

    // Serialize the struct
    let bytes = typed_person.to_bytes().unwrap();
    assert!(!bytes.is_empty());

    // Deserialize
    let typed_value = value_from_bytes(&bytes).unwrap();

    // The record's fields decode in declaration order: the name comes
    // first, so a text conversion yields it
    let name: String = typed_value.as_type().unwrap();
    assert_eq!(name, "Alice Smith");
}

#[test]
fn test_improved_as_type_api() {
    // Test direct value conversion
    let typed_value = TypedValue::from_value(42);
    let i: i32 = typed_value.as_type().unwrap();
    assert_eq!(i, 42);

    // Test bytes conversion
    let typed_value = TypedValue::from_value(F64Bits((3.14159f64).to_bits()));
    let bytes = typed_value.to_bytes().unwrap();
    let from_bytes = value_from_bytes(&bytes).unwrap();
    let f: F64Bits = from_bytes.as_type().unwrap();
    assert_eq!(f64::from_bits(f.0), 3.14159);

    // Test list conversion
    let typed_list = TypedValue::from_list(vec!["one".to_string(), "two".to_string()]);
    let bytes = typed_list.to_bytes().unwrap();
    let list_from_bytes = value_from_bytes(&bytes).unwrap();
    let str_vec: Vec<String> = list_from_bytes.as_list().unwrap();
    assert_eq!(str_vec, vec!["one".to_string(), "two".to_string()]);
}

#[test]
fn test_chained_operations() {
    // Create a more complex structure - maps of person data
    let person_map = vec![
        ("name".to_string(), "Alice".to_string()),
        ("email".to_string(), "alice@example.com".to_string()),
    ];
    let age_map = vec![
        ("alice@example.com".to_string(), 35),
        ("john@example.com".to_string(), 45),
    ];

    let typed_map = TypedValue::from_map(person_map.clone());
    let typed_age_map = TypedValue::from_map(age_map.clone());

    // check in memory access (no serialization)
    let person_map_from_memory: Vec<(String, String)> = typed_map.as_map().unwrap();
    assert_eq!(person_map_from_memory, person_map);

    let age_map_from_memory: Vec<(String, i32)> = typed_age_map.as_map().unwrap();
    assert_eq!(age_map_from_memory, age_map);

    // Serialize and deserialize
    let bytes = typed_map.to_bytes().unwrap();
    let typed_map = value_from_bytes(&bytes).unwrap();

    // Extract
    let extracted_map: Vec<(String, String)> = typed_map.as_map().unwrap();
    assert_eq!(extracted_map, person_map);

    // Serialize and deserialize
    let bytes = typed_age_map.to_bytes().unwrap();
    let typed_age_map = value_from_bytes(&bytes).unwrap();

    // Extract
    let extracted_age_map: Vec<(String, i32)> = typed_age_map.as_map().unwrap();
    assert_eq!(extracted_age_map, age_map);

    // Test multiple layers of serialization/deserialization
    let re_serialized = typed_map.to_bytes().unwrap();
    let re_typed_map = value_from_bytes(&re_serialized).unwrap();
    let final_map: Vec<(String, String)> = re_typed_map.as_map().unwrap();
    assert_eq!(final_map[1].1, "alice@example.com");
}

#[test]
fn test_basic_value_construction() {
    // Test primitive values
    let s = Value::<String>::new("Hello".to_string());
    let i = Value::<i32>::new(42);
    let _f = Value::<f64>::new(3.14159);
    let _b = Value::<bool>::new(true);

    // Test null
    let null = Value::<()>::null();

    // Basic assertions to check the types
    if let Value::Value(val) = &s {
        assert_eq!(&**val, "Hello");
    } else {
        panic!("Expected Value::Value variant");
    }

    if let Value::Value(val) = &i {
        assert_eq!(**val, 42);
    } else {
        panic!("Expected Value::Value variant");
    }

    if let Value::Null = &null {
        // This is expected
    } else {
        panic!("Expected Value::Null variant");
    }
}

#[test]
fn test_list_construction() {
    // Test list of strings
    let str_list = Value::<String>::new_list(vec!["one".to_string(), "two".to_string()]);

    // Test list of integers
    let int_list = Value::<i32>::new_list(vec![1, 2, 3]);

    // Basic assertions
    if let Value::List(values) = &str_list {
        assert_eq!(values.len(), 2);
        assert_eq!(&values[0], "one");
    } else {
        panic!("Expected Value::List variant");
    }

    if let Value::List(values) = &int_list {
        assert_eq!(values.len(), 3);
        assert_eq!(values[1], 2);
    } else {
        panic!("Expected Value::List variant");
    }
}

#[test]
fn test_map_construction() {
    // Create string to int map
    let map = vec![("one".to_string(), 1), ("two".to_string(), 2)];

    let map_val = runar_common::typed::MapValue::<String, i32>::new(map.clone());

    // Test map entries
    assert_eq!(map_val.entries.len(), 2);
    assert_eq!(map_val.get(&"one".to_string()), Some(&1));
    assert_eq!(map_val.get(&"two".to_string()), Some(&2));
}

#[test]
fn test_as_type_conversion() {
    // Create a value
    let i = Value::<i32>::new(42);

    // Try to convert to the correct type
    let result: Result<i32, _> = i.as_type();
    assert!(result.is_ok());
    assert_eq!(result.unwrap(), 42);

    // Try to convert to the wrong type (should fail)
    let result: Result<String, _> = i.as_type();
    assert!(result.is_err());
}

#[test]
fn test_as_list_conversion() {
    // Create a list of integers
    let int_list = Value::<i32>::new_list(vec![1, 2, 3]);

    // Try to convert to the correct type
    let result: Result<Vec<i32>, _> = int_list.as_list();
    assert!(result.is_ok());
    assert_eq!(result.unwrap(), vec![1, 2, 3]);

    // Try to convert to the wrong type (should fail)
    let result: Result<Vec<String>, _> = int_list.as_list();
    assert!(result.is_err());
}

#[test]
fn test_as_map_conversion() {
    // Create string to int map
    let map = vec![("one".to_string(), 1), ("two".to_string(), 2)];

    let map_val = runar_common::typed::MapValue::<String, i32>::new(map.clone());

    // Try to convert to the correct type
    let result: Result<Vec<(String, i32)>, _> = map_val.as_map();
    assert!(result.is_ok());
    let converted = result.unwrap();
    assert_eq!(converted[0], ("one".to_string(), 1));

    // Try to convert to the wrong type (should fail)
    let result: Result<Vec<(i32, String)>, _> = map_val.as_map();
    assert!(result.is_err());
}

#[test]
fn test_typed_bytes_wire_form_matches_bincode() {
    // The typed-value wire forms use fixed-width little-endian integers
    // and length-prefixed strings, byte-compatible with bincode's fixint
    // convention.
    let v = TypedValue::from_value(42i32);
    let bytes = v.to_bytes().unwrap();
    let mut expected = vec![1u8];
    expected.extend_from_slice(&bincode::serialize(&42i32).unwrap());
    assert_eq!(bytes, expected);

    let s = TypedValue::from_value("hi".to_string());
    let bytes = s.to_bytes().unwrap();
    let mut expected = vec![1u8];
    expected.extend_from_slice(&bincode::serialize(&"hi".to_string()).unwrap());
    assert_eq!(bytes, expected);

    let l = TypedValue::from_list(vec![7i64, -1i64]);
    let bytes = l.to_bytes().unwrap();
    let mut expected = vec![2u8];
    expected.extend_from_slice(&bincode::serialize(&vec![7i64, -1i64]).unwrap());
    assert_eq!(bytes, expected);

    // A record's field encoding is the concatenation of its fields'
    // encodings, which is how bincode writes a struct
    let rec = TypedValue::from_struct(person("Charlie Brown", 25, "charlie@example.com"));
    let bytes = rec.to_bytes().unwrap();
    let mut expected = vec![4u8];
    expected
        .extend_from_slice(&bincode::serialize(&"value_typed_test::Person".to_string()).unwrap());
    expected.extend_from_slice(&bincode::serialize(&"Charlie Brown".to_string()).unwrap());
    expected.extend_from_slice(&bincode::serialize(&25i32).unwrap());
    expected.extend_from_slice(&bincode::serialize(&"charlie@example.com".to_string()).unwrap());
    assert_eq!(bytes, expected);
}

#[test]
fn test_value_from_bytes_rejects_bad_marker() {
    assert!(value_from_bytes(&[]).is_err());
    assert!(value_from_bytes(&[0x09, 1, 2]).is_err());
    let null_value = value_from_bytes(&[0x05]).unwrap();
    assert!(null_value.is_null());
}

#[test]
fn test_typed_value_clone_shares_allocation() {
    let v = Value::<String>::new("shared".to_string());
    let w = v.clone();
    match (&v, &w) {
        (Value::Value(a), Value::Value(b)) => {
            assert!(Arc::ptr_eq(a, b));
        }
        _ => panic!("Expected Value::Value variants"),
    }
}
