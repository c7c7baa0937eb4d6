//! The certificate registry: one record per file hash, one administrator.

use vstd::prelude::*;
use crate::certificate::{same_hash, text_of, Certificate, CertificateRecord, CertificateStatus};
use crate::error::RegistryError;
use crate::state::RegistryState;
use crate::store::{
    by_hash, consistent, is_consistent, lemma_by_hash_absent, lemma_by_hash_at,
    lemma_by_hash_push, lemma_by_hash_update, lemma_by_hash_valid,
};

verus! {

/// The registry. It holds the administrator, once one is set, and the
/// records, at most one per file hash. Records are never removed.
pub struct CertixContract {
    admin: Option<String>,
    records: Vec<Certificate>,
}

impl View for CertixContract {
    type V = RegistryState;

    closed spec fn view(&self) -> RegistryState {
        RegistryState { admin: text_of(self.admin), certificates: by_hash(self.records@) }
    }
}

impl CertixContract {
    /// The invariant of the registry: no file hash occurs twice, and every
    /// record is well formed. `new` and `from_parts` establish it and every
    /// operation keeps it.
    pub closed spec fn well_formed(&self) -> bool {
        consistent(self.records@)
    }

    /// The state of a well-formed registry is valid.
    pub proof fn lemma_valid(&self)
        requires
            self.well_formed(),
        ensures
            self@.valid(),
    {
        lemma_by_hash_valid(self.records@);
    }

    /// A registry with no administrator and no record.
    pub fn new() -> (registry: CertixContract)
        ensures
            registry.well_formed(),
            registry@ == RegistryState::empty(),
    {
        let registry = CertixContract { admin: None, records: Vec::new() };
        assert(registry@.certificates =~= Map::empty());
        registry
    }

    /// A registry made of an administrator and records that were kept
    /// elsewhere. There is one exactly where the records can be a registry's:
    /// each is well formed and no file hash occurs twice.
    pub fn from_parts(admin: Option<String>, records: Vec<Certificate>) -> (registry: Option<
        CertixContract,
    >)
        ensures
            registry is Some <==> consistent(records@),
            registry matches Some(r) ==> r.well_formed() && r@ == (RegistryState {
                admin: text_of(admin),
                certificates: by_hash(records@),
            }),
    {
        if is_consistent(&records) {
            Some(CertixContract { admin, records })
        } else {
            None
        }
    }

    /// The place of the record with this file hash, if there is one.
    fn position(&self, file_hash: &[u8; 32]) -> (found: Option<usize>)
        ensures
            match found {
                Some(i) => i < self.records.len() && self.records[i as int].file_hash@
                    == file_hash@,
                None => forall|k: int|
                    0 <= k < self.records.len() ==> self.records[k].file_hash@ != file_hash@,
            },
    {
        let mut i: usize = 0;
        while i < self.records.len()
            invariant
                i <= self.records.len(),
                forall|k: int| 0 <= k < i ==> self.records[k].file_hash@ != file_hash@,
            decreases self.records.len() - i,
        {
            if same_hash(&self.records[i].file_hash, file_hash) {
                return Some(i);
            }
            i += 1;
        }
        None
    }

    /// Makes `admin` the administrator. Nothing is asked of the caller, and an
    /// earlier administrator is replaced. The records stay as they are.
    pub fn initialize(&mut self, admin: String)
        requires
            old(self).well_formed(),
        ensures
            final(self).well_formed(),
            final(self)@ == old(self)@.initialize(admin@),
    {
        self.admin = Some(admin);
    }

    /// Registers the claim that `owner` certified the file with hash
    /// `file_hash`, with the transaction `tx_hash` as evidence. The new record
    /// is pending. Fails with `DuplicateCertificate`, and changes nothing, where
    /// a record with this file hash exists.
    pub fn register_certificate(
        &mut self,
        owner: String,
        file_hash: [u8; 32],
        tx_hash: [u8; 32],
    ) -> (result: Result<(), RegistryError>)
        requires
            old(self).well_formed(),
        ensures
            final(self).well_formed(),
            result == old(self)@.register_result(file_hash@),
            final(self)@ == old(self)@.register(owner@, file_hash@, tx_hash@),
    {
        match self.position(&file_hash) {
            Some(i) => {
                proof {
                    lemma_by_hash_at(self.records@, i as int);
                }
                Err(RegistryError::DuplicateCertificate)
            },
            None => {
                let cert = Certificate::pending(owner, file_hash, tx_hash);
                proof {
                    lemma_by_hash_absent(self.records@, file_hash@);
                    lemma_by_hash_push(self.records@, cert);
                }
                self.records.push(cert);
                Ok(())
            },
        }
    }

    /// Tests what an approval or a rejection asks, in order: an administrator
    /// is set, `caller` is that administrator, a record stands under
    /// `file_hash`, and it is pending. Gives the record's place where all hold.
    fn pending_place(&self, caller: &String, file_hash: &[u8; 32]) -> (result: Result<
        usize,
        RegistryError,
    >)
        requires
            self.well_formed(),
        ensures
            match result {
                Ok(i) => {
                    &&& self@.resolve_result(caller@, file_hash@) is Ok
                    &&& i < self.records.len()
                    &&& self.records[i as int].file_hash@ == file_hash@
                    &&& self@.certificates[file_hash@] == self.records[i as int]@
                },
                Err(e) => self@.resolve_result(caller@, file_hash@) == Err::<(), RegistryError>(e),
            },
    {
        match &self.admin {
            None => { return Err(RegistryError::NotInitialized); },
            Some(stored) => {
                if !(*stored == *caller) {
                    return Err(RegistryError::Unauthorized);
                }
            },
        }
        match self.position(file_hash) {
            None => {
                proof {
                    lemma_by_hash_absent(self.records@, file_hash@);
                }
                Err(RegistryError::NotFound)
            },
            Some(i) => {
                proof {
                    lemma_by_hash_at(self.records@, i as int);
                }
                match self.records[i].status {
                    CertificateStatus::Pending => Ok(i),
                    _ => Err(RegistryError::AlreadyProcessed),
                }
            },
        }
    }

    /// Approves the pending record under `file_hash` on behalf of `admin`, at
    /// the time `now`: the record becomes approved and keeps `admin` and `now`.
    /// The caller has already shown that it may act for `admin`.
    ///
    /// Fails, and changes nothing, with `NotInitialized` where no administrator
    /// is set, else with `Unauthorized` where `admin` is not the administrator,
    /// else with `NotFound` where no record stands under `file_hash`, else with
    /// `AlreadyProcessed` where the record is not pending.
    pub fn approve_certificate(&mut self, admin: String, file_hash: [u8; 32], now: u64) -> (result:
        Result<(), RegistryError>)
        requires
            old(self).well_formed(),
        ensures
            final(self).well_formed(),
            result == old(self)@.resolve_result(admin@, file_hash@),
            final(self)@ == old(self)@.approve(admin@, file_hash@, now),
    {
        match self.pending_place(&admin, &file_hash) {
            Err(e) => Err(e),
            Ok(i) => {
                let resolved = self.records[i].approved_by(admin, now);
                proof {
                    lemma_by_hash_update(self.records@, i as int, resolved);
                }
                self.records[i] = resolved;
                Ok(())
            },
        }
    }

    /// Rejects the pending record under `file_hash` on behalf of `admin`, at
    /// the time `now`: the record becomes rejected and keeps `admin`, `now` and
    /// `reason`. The caller has already shown that it may act for `admin`.
    ///
    /// Fails as `approve_certificate` does, on the same conditions in the same
    /// order, and then changes nothing.
    pub fn reject_certificate(
        &mut self,
        admin: String,
        file_hash: [u8; 32],
        reason: String,
        now: u64,
    ) -> (result: Result<(), RegistryError>)
        requires
            old(self).well_formed(),
        ensures
            final(self).well_formed(),
            result == old(self)@.resolve_result(admin@, file_hash@),
            final(self)@ == old(self)@.reject(admin@, file_hash@, reason@, now),
    {
        match self.pending_place(&admin, &file_hash) {
            Err(e) => Err(e),
            Ok(i) => {
                let resolved = self.records[i].rejected_by(admin, reason, now);
                proof {
                    lemma_by_hash_update(self.records@, i as int, resolved);
                }
                self.records[i] = resolved;
                Ok(())
            },
        }
    }

    /// The record under `file_hash`, or `NotFound` where there is none.
    pub fn get_certificate(&self, file_hash: [u8; 32]) -> (result: Result<
        Certificate,
        RegistryError,
    >)
        requires
            self.well_formed(),
        ensures
            match result {
                Ok(cert) => self@.certificate(file_hash@) == Ok::<CertificateRecord, RegistryError>(
                    cert@,
                ),
                Err(e) => self@.certificate(file_hash@) == Err::<CertificateRecord, RegistryError>(
                    e,
                ),
            },
    {
        match self.position(&file_hash) {
            None => {
                proof {
                    lemma_by_hash_absent(self.records@, file_hash@);
                }
                Err(RegistryError::NotFound)
            },
            Some(i) => {
                proof {
                    lemma_by_hash_at(self.records@, i as int);
                }
                Ok(self.records[i].clone())
            },
        }
    }

    /// Whether the record under `file_hash` is approved, or `NotFound` where
    /// there is none.
    pub fn is_approved(&self, file_hash: [u8; 32]) -> (result: Result<bool, RegistryError>)
        requires
            self.well_formed(),
        ensures
            result == self@.approved(file_hash@),
    {
        match self.position(&file_hash) {
            None => {
                proof {
                    lemma_by_hash_absent(self.records@, file_hash@);
                }
                Err(RegistryError::NotFound)
            },
            Some(i) => {
                proof {
                    lemma_by_hash_at(self.records@, i as int);
                }
                match self.records[i].status {
                    CertificateStatus::Approved => Ok(true),
                    _ => Ok(false),
                }
            },
        }
    }
}

} // verus!
