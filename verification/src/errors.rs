//! The error taxonomy of the library.
//!
//! Every fallible operation returns one of these kinds; none of the
//! library's operations panic on malformed external input.

use crate::category::ValueCategory;
use vstd::prelude::*;

verus! {

/// Why a byte buffer was rejected as wire input.
#[derive(Debug, Clone, PartialEq, Eq, Structural)]
pub enum WireFault {
    /// The input was empty.
    Empty,
    /// The first byte is not a known category marker.
    BadMarker(u8),
    /// The input ends before the type-name length byte.
    TruncatedHeader,
    /// The declared type-name length overruns the buffer.
    TruncatedName,
    /// The type-name bytes are not valid UTF-8.
    InvalidNameEncoding,
    /// A length-prefixed byte payload overruns the buffer.
    TruncatedPayload,
}

/// The error kinds of the library.
#[derive(Debug, Clone)]
pub enum ValueError {
    /// A requested concrete type is incompatible with the recorded type
    /// name. Carries the expected and the actual name.
    TypeMismatch { expected: String, actual: String },
    /// An accessor was called for a shape that disagrees with the value's
    /// category.
    CategoryMismatch { requested: ValueCategory, held: ValueCategory },
    /// A lazy segment's bytes failed to decode as its recorded type.
    DecodeError { type_name_str: String },
    /// The registry has no codec for a type name.
    UnknownType { type_name_str: String },
    /// A registration was attempted after the registry was sealed.
    SealedRegistry,
    /// The wire bytes do not form a well-formed header or payload.
    MalformedWire { fault: WireFault },
    /// A type name longer than 255 bytes cannot be put on the wire.
    TypeNameTooLong { type_name_str: String },
    /// A byte blob longer than its 4-byte length prefix can carry.
    PayloadTooLarge,
}

impl ValueError {
    /// A human-readable description of the error.
    pub fn message(&self) -> (r: String)
        ensures
            self matches ValueError::TypeMismatch { expected, actual } ==> r@
                == "Type mismatch: expected "@ + expected@ + ", but has "@ + actual@,
            self matches ValueError::SealedRegistry ==> r@
                == "Cannot register new types after registry is sealed"@,
            self matches ValueError::UnknownType { type_name_str } ==> r@
                == "No codec registered for type: "@ + type_name_str@,
            self matches ValueError::DecodeError { type_name_str } ==> r@
                == "Failed to decode lazy data for type "@ + type_name_str@,
    {
        match self {
            ValueError::TypeMismatch { expected, actual } => {
                let mut s = String::from_str("Type mismatch: expected ");
                s.append(expected.as_str());
                s.append(", but has ");
                s.append(actual.as_str());
                s
            },
            ValueError::CategoryMismatch { requested: _, held: _ } => {
                String::from_str("Category mismatch between accessor and value")
            },
            ValueError::DecodeError { type_name_str } => {
                let mut s = String::from_str("Failed to decode lazy data for type ");
                s.append(type_name_str.as_str());
                s
            },
            ValueError::UnknownType { type_name_str } => {
                let mut s = String::from_str("No codec registered for type: ");
                s.append(type_name_str.as_str());
                s
            },
            ValueError::SealedRegistry => {
                String::from_str("Cannot register new types after registry is sealed")
            },
            ValueError::MalformedWire { fault: _ } => {
                String::from_str("Malformed wire bytes")
            },
            ValueError::TypeNameTooLong { type_name_str } => {
                let mut s = String::from_str("Type name too long: ");
                s.append(type_name_str.as_str());
                s
            },
            ValueError::PayloadTooLarge => {
                String::from_str("Byte payload too large for its length prefix")
            },
        }
    }

    /// True of the type-mismatch kind; convenient for callers that branch
    /// on recoverable mismatches.
    pub fn is_type_mismatch(&self) -> (r: bool)
        ensures
            r == (self matches ValueError::TypeMismatch { .. }),
    {
        match self {
            ValueError::TypeMismatch { .. } => true,
            _ => false,
        }
    }
}

} // verus!
