//! Persisted daemon registration: names and versions, manifests and service
//! definitions, and the errors of both record generations.

pub mod compat;
pub mod service_definition;
pub mod v2;
pub mod v2_compat;
pub mod validation;
