//! Certificate records and the transitions of a single record.

use vstd::prelude::*;

verus! {

/// Where a certificate stands in its lifecycle. `Pending` is the only state
/// with a way out; `Approved` and `Rejected` are final.
#[derive(Clone, Copy, Debug, PartialEq, Eq, Structural)]
pub enum CertificateStatus {
    Pending,
    Approved,
    Rejected,
}

/// The length of a file hash and of a transaction hash, in bytes.
pub const HASH_LEN: usize = 32;

/// What a certificate says, as mathematical values: the model that the
/// contracts of this crate speak of.
pub struct CertificateRecord {
    pub file_hash: Seq<u8>,
    pub owner: Seq<char>,
    pub tx_hash: Seq<u8>,
    pub status: CertificateStatus,
    pub admin: Option<Seq<char>>,
    pub validated_at: Option<u64>,
    pub rejection_reason: Option<Seq<char>>,
}

impl CertificateRecord {
    /// The invariant of a record: both hashes have 32 bytes; the resolving
    /// administrator and the time of resolution are present exactly when the
    /// record is no longer pending; a reason is present exactly when the record
    /// was rejected.
    pub open spec fn well_formed(self) -> bool {
        &&& self.file_hash.len() == HASH_LEN
        &&& self.tx_hash.len() == HASH_LEN
        &&& (self.admin is Some <==> self.status != CertificateStatus::Pending)
        &&& (self.validated_at is Some <==> self.status != CertificateStatus::Pending)
        &&& (self.rejection_reason is Some <==> self.status == CertificateStatus::Rejected)
    }

    /// The record that registration creates.
    pub open spec fn pending(owner: Seq<char>, file_hash: Seq<u8>, tx_hash: Seq<u8>) -> Self {
        CertificateRecord {
            file_hash,
            owner,
            tx_hash,
            status: CertificateStatus::Pending,
            admin: None,
            validated_at: None,
            rejection_reason: None,
        }
    }

    /// This record after `admin` approved it at time `now`.
    pub open spec fn approved_by(self, admin: Seq<char>, now: u64) -> Self {
        CertificateRecord {
            status: CertificateStatus::Approved,
            admin: Some(admin),
            validated_at: Some(now),
            ..self
        }
    }

    /// This record after `admin` rejected it at time `now` for `reason`.
    pub open spec fn rejected_by(self, admin: Seq<char>, reason: Seq<char>, now: u64) -> Self {
        CertificateRecord {
            status: CertificateStatus::Rejected,
            admin: Some(admin),
            validated_at: Some(now),
            rejection_reason: Some(reason),
            ..self
        }
    }
}

/// One record of the registry: the claim that the file with hash `file_hash`
/// was certified by `owner`, with the signed transaction `tx_hash` as evidence,
/// and what the administrator made of it.
#[derive(Debug)]
pub struct Certificate {
    /// Content hash of the certified file; the record's key.
    pub file_hash: [u8; 32],
    /// Identity of the party that claims the certification.
    pub owner: String,
    /// Hash of the signed transaction that serves as evidence.
    pub tx_hash: [u8; 32],
    /// Where the record stands.
    pub status: CertificateStatus,
    /// The administrator who resolved the record; absent while pending.
    pub admin: Option<String>,
    /// When the record was resolved; absent while pending.
    pub validated_at: Option<u64>,
    /// Why the record was rejected; present only on a rejected record.
    pub rejection_reason: Option<String>,
}

/// The characters of an optional string.
pub open spec fn text_of(s: Option<String>) -> Option<Seq<char>> {
    match s {
        Some(t) => Some(t@),
        None => None,
    }
}

impl View for Certificate {
    type V = CertificateRecord;

    open spec fn view(&self) -> CertificateRecord {
        CertificateRecord {
            file_hash: self.file_hash@,
            owner: self.owner@,
            tx_hash: self.tx_hash@,
            status: self.status,
            admin: text_of(self.admin),
            validated_at: self.validated_at,
            rejection_reason: text_of(self.rejection_reason),
        }
    }
}

/// Whether two hashes hold the same bytes.
pub fn same_hash(a: &[u8; 32], b: &[u8; 32]) -> (same: bool)
    ensures
        same == (a@ == b@),
{
    let mut i: usize = 0;
    while i < 32
        invariant
            i <= 32,
            forall|k: int| 0 <= k < i ==> a@[k] == b@[k],
        decreases 32 - i,
    {
        if a[i] != b[i] {
            return false;
        }
        i += 1;
    }
    assert(a@ =~= b@);
    true
}

/// A copy of an optional string.
fn clone_text(s: &Option<String>) -> (copy: Option<String>)
    ensures
        copy == *s,
{
    match s {
        Some(t) => Some(t.clone()),
        None => None,
    }
}

impl Certificate {
    /// A fresh record, as registration creates it: pending, with no
    /// administrator, no time of resolution and no reason.
    pub fn pending(owner: String, file_hash: [u8; 32], tx_hash: [u8; 32]) -> (cert: Certificate)
        ensures
            cert@ == CertificateRecord::pending(owner@, file_hash@, tx_hash@),
            cert@.well_formed(),
    {
        Certificate {
            file_hash,
            owner,
            tx_hash,
            status: CertificateStatus::Pending,
            admin: None,
            validated_at: None,
            rejection_reason: None,
        }
    }

    /// This record as `admin` approved it at time `now`.
    pub(crate) fn approved_by(&self, admin: String, now: u64) -> (cert: Certificate)
        ensures
            cert@ == self@.approved_by(admin@, now),
    {
        Certificate {
            file_hash: self.file_hash,
            owner: self.owner.clone(),
            tx_hash: self.tx_hash,
            status: CertificateStatus::Approved,
            admin: Some(admin),
            validated_at: Some(now),
            rejection_reason: clone_text(&self.rejection_reason),
        }
    }

    /// This record as `admin` rejected it at time `now` for `reason`.
    pub(crate) fn rejected_by(&self, admin: String, reason: String, now: u64) -> (cert:
        Certificate)
        ensures
            cert@ == self@.rejected_by(admin@, reason@, now),
    {
        Certificate {
            file_hash: self.file_hash,
            owner: self.owner.clone(),
            tx_hash: self.tx_hash,
            status: CertificateStatus::Rejected,
            admin: Some(admin),
            validated_at: Some(now),
            rejection_reason: Some(reason),
        }
    }

    /// Whether the record meets the invariant of a record.
    pub fn is_well_formed(&self) -> (ok: bool)
        ensures
            ok == self@.well_formed(),
    {
        let resolved = match self.status {
            CertificateStatus::Pending => false,
            _ => true,
        };
        let rejected = match self.status {
            CertificateStatus::Rejected => true,
            _ => false,
        };
        self.admin.is_some() == resolved && self.validated_at.is_some() == resolved
            && self.rejection_reason.is_some() == rejected
    }
}

impl Clone for Certificate {
    fn clone(&self) -> (copy: Certificate)
        ensures
            copy == *self,
    {
        Certificate {
            file_hash: self.file_hash,
            owner: self.owner.clone(),
            tx_hash: self.tx_hash,
            status: self.status,
            admin: clone_text(&self.admin),
            validated_at: self.validated_at,
            rejection_reason: clone_text(&self.rejection_reason),
        }
    }
}

} // verus!
