//! A trust ledger for digital certificates.
//!
//! A certificate claims that a file, named by its content hash, was certified
//! by an owner through an already signed transaction. The registry keeps one
//! record per file hash and lets a single administrator approve or reject each
//! pending claim, once.

pub mod certificate;
pub mod error;
pub mod history;
pub mod registry;
pub mod state;
pub mod store;

pub use certificate::{Certificate, CertificateRecord, CertificateStatus};
pub use error::RegistryError;
pub use registry::CertixContract;
pub use state::RegistryState;
