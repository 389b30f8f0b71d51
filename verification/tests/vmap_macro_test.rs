use runar_common::prim::{F64Bits, PrimValue};
use runar_common::value::ArcValueType;
use runar_common::vmap::VMap;
use runar_common::ValueCategory;

// A simplified test to verify basic vmap functionality
#[test]
fn test_vmap_basic() {
    // Create a map of mixed values
    let mut map: VMap<PrimValue> = VMap::new();
    map.insert("string".to_string(), PrimValue::Text("value".to_string()));
    map.insert("number".to_string(), PrimValue::Int32(42));
    map.insert(
        "float".to_string(),
        PrimValue::Float64(F64Bits((3.14f64).to_bits())),
    );
    map.insert("bool".to_string(), PrimValue::Boolean(true));
    map.insert("null".to_string(), PrimValue::Unit);
    let map: ArcValueType = map.to_arc_value_type();

    // Verify the map was created successfully
    assert_eq!(map.category, ValueCategory::Mapping);

    // get map from the vmap and check all values
    let mut map = map;
    let map_ref = map.as_dyn_map_ref().unwrap();
    assert_eq!(map_ref.get("string"), Some(&PrimValue::Text("value".to_string())));
    assert_eq!(map_ref.get("number"), Some(&PrimValue::Int32(42)));
    assert_eq!(
        map_ref.get("float"),
        Some(&PrimValue::Float64(F64Bits((3.14f64).to_bits())))
    );
    assert_eq!(map_ref.get("bool"), Some(&PrimValue::Boolean(true)));
    assert_eq!(map_ref.get("null"), Some(&PrimValue::Unit));
}

// Test type conversion
#[test]
fn test_vmap_type_conversion() {
    let mut map: VMap<PrimValue> = VMap::new();
    map.insert("number_as_string".to_string(), PrimValue::Int32(42));
    map.insert("bool_as_string".to_string(), PrimValue::Boolean(true));
    map.insert(
        "string_as_number".to_string(),
        PrimValue::Text("42".to_string()),
    );
    map.insert(
        "string_as_bool".to_string(),
        PrimValue::Text("true".to_string()),
    );
    let map: ArcValueType = map.to_arc_value_type();

    // Verify the map was created successfully
    assert_eq!(map.category, ValueCategory::Mapping);
}
