//! The registry as a mathematical state machine.
//!
//! A state is the administrator, if one was set, and a map from file hash to
//! record. Each operation of the registry is given here as a pair of spec
//! functions: what the operation answers in a state, and the state it leaves.
//! A refused operation leaves the state as it found it.

use vstd::prelude::*;
use crate::certificate::{CertificateRecord, CertificateStatus};
use crate::error::RegistryError;

verus! {

/// The registry's state: its administrator and its records by file hash.
pub struct RegistryState {
    pub admin: Option<Seq<char>>,
    pub certificates: Map<Seq<u8>, CertificateRecord>,
}

impl RegistryState {
    /// The state of a new registry: no administrator, no record.
    pub open spec fn empty() -> Self {
        RegistryState { admin: None, certificates: Map::empty() }
    }

    /// Every record is well formed and stored under its own file hash.
    pub open spec fn valid(self) -> bool {
        forall|h: Seq<u8>| #[trigger]
            self.certificates.contains_key(h) ==> self.certificates[h].well_formed()
                && self.certificates[h].file_hash == h
    }

    /// Whether a record is stored under `file_hash` and is still pending.
    pub open spec fn is_pending(self, file_hash: Seq<u8>) -> bool {
        self.certificates.contains_key(file_hash) && self.certificates[file_hash].status
            == CertificateStatus::Pending
    }

    /// The state after `admin` was made the administrator.
    pub open spec fn initialize(self, admin: Seq<char>) -> Self {
        RegistryState { admin: Some(admin), ..self }
    }

    /// What registration under `file_hash` answers: a hash that is already
    /// known is a duplicate.
    pub open spec fn register_result(self, file_hash: Seq<u8>) -> Result<(), RegistryError> {
        if self.certificates.contains_key(file_hash) {
            Err(RegistryError::DuplicateCertificate)
        } else {
            Ok(())
        }
    }

    /// The state after registration: a pending record is added where the hash
    /// was new.
    pub open spec fn register(self, owner: Seq<char>, file_hash: Seq<u8>, tx_hash: Seq<u8>) -> Self {
        if self.register_result(file_hash) is Ok {
            RegistryState {
                certificates: self.certificates.insert(
                    file_hash,
                    CertificateRecord::pending(owner, file_hash, tx_hash),
                ),
                ..self
            }
        } else {
            self
        }
    }

    /// What an approval or a rejection by `caller` of the record under
    /// `file_hash` answers. The conditions are tested in this order: an
    /// administrator is set; the caller is that administrator; the record
    /// exists; the record is pending.
    pub open spec fn resolve_result(self, caller: Seq<char>, file_hash: Seq<u8>) -> Result<
        (),
        RegistryError,
    > {
        if self.admin is None {
            Err(RegistryError::NotInitialized)
        } else if self.admin != Some(caller) {
            Err(RegistryError::Unauthorized)
        } else if !self.certificates.contains_key(file_hash) {
            Err(RegistryError::NotFound)
        } else if self.certificates[file_hash].status != CertificateStatus::Pending {
            Err(RegistryError::AlreadyProcessed)
        } else {
            Ok(())
        }
    }

    /// The state after an approval by `caller` at time `now`.
    pub open spec fn approve(self, caller: Seq<char>, file_hash: Seq<u8>, now: u64) -> Self {
        if self.resolve_result(caller, file_hash) is Ok {
            RegistryState {
                certificates: self.certificates.insert(
                    file_hash,
                    self.certificates[file_hash].approved_by(caller, now),
                ),
                ..self
            }
        } else {
            self
        }
    }

    /// The state after a rejection by `caller` at time `now` for `reason`.
    pub open spec fn reject(
        self,
        caller: Seq<char>,
        file_hash: Seq<u8>,
        reason: Seq<char>,
        now: u64,
    ) -> Self {
        if self.resolve_result(caller, file_hash) is Ok {
            RegistryState {
                certificates: self.certificates.insert(
                    file_hash,
                    self.certificates[file_hash].rejected_by(caller, reason, now),
                ),
                ..self
            }
        } else {
            self
        }
    }

    /// What a read of the record under `file_hash` answers.
    pub open spec fn certificate(self, file_hash: Seq<u8>) -> Result<
        CertificateRecord,
        RegistryError,
    > {
        if self.certificates.contains_key(file_hash) {
            Ok(self.certificates[file_hash])
        } else {
            Err(RegistryError::NotFound)
        }
    }

    /// What the question "is the record under `file_hash` approved?" answers:
    /// whether the record that a read gives has the status approved.
    pub open spec fn approved(self, file_hash: Seq<u8>) -> Result<bool, RegistryError> {
        match self.certificate(file_hash) {
            Ok(record) => Ok(record.status == CertificateStatus::Approved),
            Err(e) => Err(e),
        }
    }
}

} // verus!
