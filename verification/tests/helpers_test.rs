use runar_common::prim::PrimValue;
use runar_common::schemas::{FieldSchema, SchemaDataType};
use runar_common::strmap::StrMap;
use runar_common::textutil::{decimal_string, last_segment};
use runar_common::typed::{CustomStruct, TypeInfo, TypedBytes, Value, ValueBase};
use runar_common::utils::{bool_value, error_to_string_value, null_value, string_value};
use runar_common::{RecordValue, ValueCategory, ValueError};

#[test]
fn test_value_helpers() {
    assert!(null_value().is_null());

    let mut s = string_value("abc".to_string());
    assert_eq!(s.category, ValueCategory::Primitive);
    assert_eq!(s.as_type::<String>().unwrap(), "abc");

    let mut b = bool_value(true);
    assert_eq!(b.as_type::<bool>().unwrap(), true);

    let mut e = error_to_string_value(&ValueError::SealedRegistry);
    assert_eq!(
        e.as_type::<String>().unwrap(),
        "Cannot register new types after registry is sealed"
    );
}

#[test]
fn test_schema_builders() {
    let s = FieldSchema::string("name");
    assert_eq!(s.name, "name");
    assert!(matches!(s.data_type, SchemaDataType::String));
    assert!(s.description.is_none());

    assert!(matches!(
        FieldSchema::integer("n").data_type,
        SchemaDataType::Int32
    ));
    assert!(matches!(
        FieldSchema::long("n").data_type,
        SchemaDataType::Int64
    ));
    assert!(matches!(
        FieldSchema::float("n").data_type,
        SchemaDataType::Float
    ));
    assert!(matches!(
        FieldSchema::double("n").data_type,
        SchemaDataType::Double
    ));
    assert!(matches!(
        FieldSchema::boolean("n").data_type,
        SchemaDataType::Boolean
    ));
    assert!(matches!(
        FieldSchema::timestamp("n").data_type,
        SchemaDataType::Timestamp
    ));

    let mut props: StrMap<Box<FieldSchema>> = StrMap::new();
    props.insert("age".to_string(), Box::new(FieldSchema::integer("age")));
    let obj = FieldSchema::object("person", props, Some(vec!["age".to_string()]));
    assert!(matches!(obj.data_type, SchemaDataType::Object));
    assert!(obj.properties.is_some());

    let arr = FieldSchema::array("xs", Box::new(FieldSchema::string("x")));
    assert!(matches!(arr.data_type, SchemaDataType::Array));
    assert!(arr.items.is_some());
}

#[test]
fn test_strmap_semantics() {
    let mut m: StrMap<i32> = StrMap::new();
    assert!(m.is_empty());
    m.insert("a".to_string(), 1);
    m.insert("b".to_string(), 2);
    // replacing keeps the key's position and count
    m.insert("a".to_string(), 10);
    assert_eq!(m.len(), 2);
    assert_eq!(m.get("a"), Some(&10));
    assert_eq!(m.get("b"), Some(&2));
    assert_eq!(m.get("c"), None);
    assert!(m.contains_key("a"));
    assert!(!m.contains_key("c"));
    assert_eq!(m.entries()[0].0, "a");
    assert_eq!(m.entries()[1].0, "b");

    // appended duplicates stay, but lookups keep seeing the first binding
    m.push_entry("a".to_string(), 99);
    assert_eq!(m.len(), 3);
    assert_eq!(m.get("a"), Some(&10));
}

#[test]
fn test_text_helpers() {
    assert_eq!(last_segment("alloc::string::String"), "String");
    assert_eq!(last_segment("i32"), "i32");
    assert_eq!(last_segment("a::"), "");
    assert_eq!(last_segment("::b"), "b");
    assert_eq!(decimal_string(0), "0");
    assert_eq!(decimal_string(907), "907");
    assert_eq!(decimal_string(u64::MAX), "18446744073709551615");
}

#[test]
fn test_value_base_and_custom_struct() {
    let v = Value::<i32>::new(3);
    assert!(matches!(v.type_info(), TypeInfo::Primitive(_)));
    let bytes = v.to_bytes_wire().unwrap();
    assert_eq!(bytes, v.to_bytes().unwrap());

    let rec = RecordValue {
        type_name_str: "helpers_test::Pair".to_string(),
        fields: vec![PrimValue::Int32(1), PrimValue::Int32(2)],
    };
    assert_eq!(CustomStruct::type_name_str(&rec), "helpers_test::Pair");
    let field_bytes = CustomStruct::to_bytes_wire(&rec).unwrap();
    assert_eq!(field_bytes, bincode::serialize(&(1i32, 2i32)).unwrap());

    let tb = TypedBytes::new(bincode::serialize(&5i64).unwrap(), TypeInfo::Raw);
    assert_eq!(tb.deserialize::<i64>().unwrap(), 5);
    assert!(tb.deserialize::<String>().is_err());
}
