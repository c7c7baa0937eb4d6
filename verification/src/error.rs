//! The reasons for which the registry turns an operation down.

use vstd::prelude::*;

verus! {

/// Why an operation was refused. A refused operation changes nothing.
#[derive(Clone, Copy, Debug, PartialEq, Eq, Structural)]
pub enum RegistryError {
    /// A record with this file hash is already registered.
    DuplicateCertificate,
    /// No record is registered under this file hash.
    NotFound,
    /// The record has already been approved or rejected.
    AlreadyProcessed,
    /// The caller is not the registry's administrator.
    Unauthorized,
    /// No administrator has been set yet.
    NotInitialized,
}

} // verus!
