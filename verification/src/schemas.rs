//! Schema definitions for service metadata.
//!
//! Numeric bounds are carried as 64-bit float bit patterns; a consumer
//! reads them back with the float conversion of its choice.

use crate::prim::F64Bits;
use vstd::prelude::*;

verus! {

/// The data type of a schema field.
#[derive(Debug)]
pub enum SchemaDataType {
    /// A string value.
    String,
    /// A 32-bit signed integer.
    Int32,
    /// A 64-bit signed integer.
    Int64,
    /// A 32-bit floating point number.
    Float,
    /// A 64-bit floating point number.
    Double,
    /// A boolean value.
    Boolean,
    /// A timestamp, carried as an ISO 8601 string.
    Timestamp,
    /// A binary blob, carried as a base64 string.
    Binary,
    /// A nested object with its own schema.
    Object,
    /// An array of values of one schema.
    Array,
    /// A reference to another type by name.
    Reference(String),
    /// A union of several possible types.
    Union(Vec<SchemaDataType>),
    /// Any value.
    Any,
}

/// The schema of one field or structure.
#[derive(Debug)]
pub struct FieldSchema {
    /// The field name.
    pub name: String,
    /// The data type of the field.
    pub data_type: SchemaDataType,
    /// A description of the field.
    pub description: Option<String>,
    /// Whether the field may be null.
    pub nullable: Option<bool>,
    /// The default value, as a string to be parsed by the consumer.
    pub default_value: Option<String>,
    /// For objects: the schema of each property.
    pub properties: Option<crate::strmap::StrMap<Box<FieldSchema>>>,
    /// For objects: the required property names.
    pub required: Option<Vec<String>>,
    /// For arrays: the schema of the items.
    pub items: Option<Box<FieldSchema>>,
    /// A validation pattern for strings.
    pub pattern: Option<String>,
    /// The allowed enumeration values, as strings.
    pub enum_values: Option<Vec<String>>,
    /// The lower numeric bound, as float bits.
    pub minimum: Option<F64Bits>,
    /// The upper numeric bound, as float bits.
    pub maximum: Option<F64Bits>,
    /// Whether the lower bound is exclusive.
    pub exclusive_minimum: Option<bool>,
    /// Whether the upper bound is exclusive.
    pub exclusive_maximum: Option<bool>,
    /// The least string length.
    pub min_length: Option<usize>,
    /// The greatest string length.
    pub max_length: Option<usize>,
    /// The least item count.
    pub min_items: Option<usize>,
    /// The greatest item count.
    pub max_items: Option<usize>,
    /// An example value, as a string.
    pub example: Option<String>,
}

impl FieldSchema {
    /// A schema of the given name and type, with everything else unset.
    pub fn new(name: &str, data_type: SchemaDataType) -> (r: FieldSchema)
        ensures
            r.name@ == name@,
            r.data_type == data_type,
            r.description is None,
            r.nullable is None,
            r.properties is None,
            r.items is None,
    {
        FieldSchema {
            name: name.to_owned(),
            data_type,
            description: None,
            nullable: None,
            default_value: None,
            properties: None,
            required: None,
            items: None,
            pattern: None,
            enum_values: None,
            minimum: None,
            maximum: None,
            exclusive_minimum: None,
            exclusive_maximum: None,
            min_length: None,
            max_length: None,
            min_items: None,
            max_items: None,
            example: None,
        }
    }

    /// A string field.
    pub fn string(name: &str) -> (r: FieldSchema)
        ensures
            r.name@ == name@,
            r.data_type is String,
    {
        FieldSchema::new(name, SchemaDataType::String)
    }

    /// A 32-bit integer field.
    pub fn integer(name: &str) -> (r: FieldSchema)
        ensures
            r.name@ == name@,
            r.data_type is Int32,
    {
        FieldSchema::new(name, SchemaDataType::Int32)
    }

    /// A 64-bit integer field.
    pub fn long(name: &str) -> (r: FieldSchema)
        ensures
            r.name@ == name@,
            r.data_type is Int64,
    {
        FieldSchema::new(name, SchemaDataType::Int64)
    }

    /// A 32-bit float field.
    pub fn float(name: &str) -> (r: FieldSchema)
        ensures
            r.name@ == name@,
            r.data_type is Float,
    {
        FieldSchema::new(name, SchemaDataType::Float)
    }

    /// A 64-bit float field.
    pub fn double(name: &str) -> (r: FieldSchema)
        ensures
            r.name@ == name@,
            r.data_type is Double,
    {
        FieldSchema::new(name, SchemaDataType::Double)
    }

    /// A boolean field.
    pub fn boolean(name: &str) -> (r: FieldSchema)
        ensures
            r.name@ == name@,
            r.data_type is Boolean,
    {
        FieldSchema::new(name, SchemaDataType::Boolean)
    }

    /// A timestamp field.
    pub fn timestamp(name: &str) -> (r: FieldSchema)
        ensures
            r.name@ == name@,
            r.data_type is Timestamp,
    {
        FieldSchema::new(name, SchemaDataType::Timestamp)
    }

    /// An object field with the given properties.
    pub fn object(
        name: &str,
        properties: crate::strmap::StrMap<Box<FieldSchema>>,
        required: Option<Vec<String>>,
    ) -> (r: FieldSchema)
        ensures
            r.name@ == name@,
            r.data_type is Object,
            r.properties is Some,
    {
        let mut schema = FieldSchema::new(name, SchemaDataType::Object);
        schema.properties = Some(properties);
        schema.required = required;
        schema
    }

    /// An array field with the given item schema.
    pub fn array(name: &str, items: Box<FieldSchema>) -> (r: FieldSchema)
        ensures
            r.name@ == name@,
            r.data_type is Array,
            r.items is Some,
    {
        let mut schema = FieldSchema::new(name, SchemaDataType::Array);
        schema.items = Some(items);
        schema
    }
}

/// Metadata of one service action.
#[derive(Debug)]
pub struct ActionMetadata {
    /// The action name.
    pub name: String,
    /// A description of the action.
    pub description: String,
    /// The input schema, if any.
    pub input_schema: Option<FieldSchema>,
    /// The output schema, if any.
    pub output_schema: Option<FieldSchema>,
}

/// Metadata of one service event.
#[derive(Debug)]
pub struct EventMetadata {
    /// The event path.
    pub path: String,
    /// A description of the event.
    pub description: String,
    /// The schema of the event data, if any.
    pub data_schema: Option<FieldSchema>,
}

/// Metadata of one service.
#[derive(Debug)]
pub struct ServiceMetadata {
    /// The network this service belongs to.
    pub network_id: String,
    /// The path of the service.
    pub service_path: String,
    /// The service name.
    pub name: String,
    /// The service version.
    pub version: String,
    /// A description of the service.
    pub description: String,
    /// The actions the service provides.
    pub actions: Vec<ActionMetadata>,
    /// The events the service emits.
    pub events: Vec<EventMetadata>,
    /// When the service was registered, in seconds since the epoch.
    pub registration_time: u64,
    /// When the service last started, if ever.
    pub last_start_time: Option<u64>,
}

} // verus!
