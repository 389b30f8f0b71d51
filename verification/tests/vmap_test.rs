use runar_common::prim::{F64Bits, PrimValue};
use runar_common::strmap::StrMap;
use runar_common::value::ArcValueType;
use runar_common::vmap::VMap;

// Test implementation
fn create_test_vmap() -> VMap<ArcValueType> {
    let mut map: StrMap<ArcValueType> = StrMap::new();
    map.insert(
        "key1".to_string(),
        ArcValueType::new_primitive("value1".to_string()),
    );
    map.insert(
        "key2".to_string(),
        ArcValueType::new_primitive(F64Bits((42.0f64).to_bits())),
    );
    map.insert("key3".to_string(), ArcValueType::new_primitive(true));
    VMap::from_hashmap(map)
}

#[test]
fn test_basics() {
    let vmap = create_test_vmap();

    // Test direct key access
    let mut value1 = vmap.get("key1").unwrap().clone();
    let typed_value1: String = value1.as_type().unwrap();
    assert_eq!(typed_value1, "value1");

    // Test number value
    let mut value2 = vmap.get("key2").unwrap().clone();
    let typed_value2: F64Bits = value2.as_type().unwrap();
    assert_eq!(f64::from_bits(typed_value2.0), 42.0);

    // Test boolean value
    let mut value3 = vmap.get("key3").unwrap().clone();
    let typed_value3: bool = value3.as_type().unwrap();
    assert!(typed_value3);

    // Test missing key
    let missing = vmap.get("missing");
    assert!(missing.is_none());
}

#[test]
fn test_error_handling() {
    let vmap = create_test_vmap();

    // Try to get a string as a number
    let mut value1 = vmap.get("key1").unwrap().clone();
    let result: Result<F64Bits, _> = value1.as_type();
    assert!(result.is_err());

    // Check that the error message contains information about the wrong type
    let err = result.unwrap_err();
    let err_msg = err.message();
    assert!(
        err_msg.contains("mismatch"),
        "Error message should mention type conversion issue: {}",
        err_msg
    );
}

#[test]
fn test_clone() {
    let vmap = create_test_vmap();
    let cloned = vmap.clone();

    // Verify cloned map has the same values
    assert_eq!(vmap.as_hashmap().len(), cloned.as_hashmap().len());

    // Verify all keys and values are cloned
    let keys = vec!["key1", "key2", "key3"];
    for key in keys {
        let mut value = vmap.get(key).unwrap().clone();
        let mut cloned_value = cloned.get(key).unwrap().clone();

        // Compare string values
        if let Ok(v1) = value.as_type::<String>() {
            let v2: String = cloned_value.as_type().unwrap();
            assert_eq!(v1, v2);
        }

        // Compare number values
        if let Ok(v1) = value.as_type::<F64Bits>() {
            let v2: F64Bits = cloned_value.as_type().unwrap();
            assert_eq!(v1, v2);
        }

        // Compare boolean values
        if let Ok(v1) = value.as_type::<bool>() {
            let v2: bool = cloned_value.as_type().unwrap();
            assert_eq!(v1, v2);
        }
    }
}

#[test]
fn test_vmap_insert_replaces_existing_binding() {
    let mut vmap: VMap<PrimValue> = VMap::new();
    vmap.insert("a".to_string(), PrimValue::Int32(1));
    vmap.insert("a".to_string(), PrimValue::Int32(2));
    assert_eq!(vmap.as_hashmap().len(), 1);
    assert_eq!(vmap.get("a"), Some(&PrimValue::Int32(2)));
}
