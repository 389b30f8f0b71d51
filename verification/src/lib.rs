//! A dynamically typed, type-preserving value container.
//!
//! The crate models three tightly coupled pieces:
//! * an erasure container ([`erased::ErasedArc`]) that keeps a runtime type
//!   name next to a reference-counted payload handle,
//! * a tagged value ([`value::ArcValueType`]) built on that container, whose
//!   structured payloads stay as undecoded byte ranges until an accessor
//!   first needs them, and
//! * a type registry ([`registry::SerializerRegistry`]) that owns the binary
//!   wire format and decides which type names can be encoded and decoded.
//!
//! The laws that tie the pieces together (round trips, verbatim
//! re-emission, resolve-once) are stated and proved in [`laws`].

pub mod category;
pub mod codec;
pub mod erased;
pub mod errors;
pub mod laws;
pub mod logging;
pub mod payload;
pub mod prim;
pub mod registry;
pub mod schemas;
pub mod service_info;
pub mod shims;
pub mod strmap;
pub mod textutil;
pub mod typed;
pub mod utils;
pub mod value;
pub mod vmap;
pub mod wire;

pub use category::ValueCategory;
pub use erased::{ErasedArc, LazyDataWithOffset};
pub use errors::{ValueError, WireFault};
pub use logging::{Component, Logger, LoggingContext};
pub use payload::{DynPayload, PrimType, RecordType, RecordValue};
pub use prim::{F32Bits, F64Bits, PrimKind, PrimValue};
pub use registry::{DeserializerFnWrapper, SerializerRegistry};
pub use service_info::ServiceInfo;
pub use strmap::StrMap;
pub use value::ArcValueType;
pub use vmap::VMap;
