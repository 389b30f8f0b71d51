//! Basic service metadata access.

use vstd::prelude::*;

verus! {

/// The interface for reading basic information about a service.
pub trait ServiceInfo {
    /// The service name.
    fn service_name(&self) -> &str;

    /// The service path.
    fn service_path(&self) -> &str;

    /// The service description.
    fn service_description(&self) -> &str;

    /// The service version.
    fn service_version(&self) -> &str;
}

/// A provider of the four metadata fields; anything that implements it
/// gets [`ServiceInfo`] for free.
pub trait MetadataProvider {
    /// The service name.
    fn name(&self) -> &str;

    /// The service path.
    fn path(&self) -> &str;

    /// A description of the service.
    fn description(&self) -> &str;

    /// The service version.
    fn version(&self) -> &str;
}

impl<T: MetadataProvider> ServiceInfo for T {
    fn service_name(&self) -> &str {
        self.name()
    }

    fn service_path(&self) -> &str {
        self.path()
    }

    fn service_description(&self) -> &str {
        self.description()
    }

    fn service_version(&self) -> &str {
        self.version()
    }
}

} // verus!
