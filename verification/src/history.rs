//! What holds of the registry over time.
//!
//! A history is a sequence of operations applied one after the other. The
//! theorems of this file say what no history can undo: a record stays, a
//! resolved record stays as it is, and a file hash is registered at most once.
//! Others say what a single operation answers whatever the records hold.

use vstd::prelude::*;
use crate::certificate::{CertificateRecord, CertificateStatus, HASH_LEN};
use crate::error::RegistryError;
use crate::state::RegistryState;

verus! {

/// One operation that changes the registry, with its arguments.
pub enum Operation {
    Initialize { admin: Seq<char> },
    Register { owner: Seq<char>, file_hash: Seq<u8>, tx_hash: Seq<u8> },
    Approve { caller: Seq<char>, file_hash: Seq<u8>, now: u64 },
    Reject { caller: Seq<char>, file_hash: Seq<u8>, reason: Seq<char>, now: u64 },
}

impl Operation {
    /// The hashes that a registration carries have 32 bytes each.
    pub open spec fn sized(self) -> bool {
        match self {
            Operation::Register { owner, file_hash, tx_hash } => file_hash.len() == HASH_LEN
                && tx_hash.len() == HASH_LEN,
            _ => true,
        }
    }
}

impl RegistryState {
    /// The state after one operation, accepted or refused.
    pub open spec fn step(self, op: Operation) -> Self {
        match op {
            Operation::Initialize { admin } => self.initialize(admin),
            Operation::Register { owner, file_hash, tx_hash } => self.register(
                owner,
                file_hash,
                tx_hash,
            ),
            Operation::Approve { caller, file_hash, now } => self.approve(caller, file_hash, now),
            Operation::Reject { caller, file_hash, reason, now } => self.reject(
                caller,
                file_hash,
                reason,
                now,
            ),
        }
    }

    /// The state after a history, its operations applied from first to last.
    pub open spec fn run(self, ops: Seq<Operation>) -> Self
        decreases ops.len(),
    {
        if ops.len() == 0 {
            self
        } else {
            self.run(ops.drop_last()).step(ops.last())
        }
    }
}

/// One operation keeps every record. It leaves a record as it was, or it
/// resolves a pending one: the status becomes approved or rejected, the
/// resolving administrator is the registry's, the time of resolution is set,
/// and the owner and both hashes stay.
pub proof fn lemma_step_shape(s: RegistryState, op: Operation, h: Seq<u8>)
    requires
        s.certificates.contains_key(h),
    ensures
        s.step(op).certificates.contains_key(h),
        s.step(op).certificates[h] == s.certificates[h] || ({
            let before = s.certificates[h];
            let after = s.step(op).certificates[h];
            &&& before.status == CertificateStatus::Pending
            &&& after.status != CertificateStatus::Pending
            &&& after.admin == s.admin
            &&& after.admin is Some
            &&& after.validated_at is Some
            &&& after.owner == before.owner
            &&& after.file_hash == before.file_hash
            &&& after.tx_hash == before.tx_hash
        }),
{
}

/// Only `initialize` changes the administrator.
pub proof fn lemma_admin_is_kept(s: RegistryState, op: Operation)
    requires
        !(op is Initialize),
    ensures
        s.step(op).admin == s.admin,
{
}

/// A valid state stays valid under every operation.
pub proof fn lemma_step_keeps_valid(s: RegistryState, op: Operation)
    requires
        s.valid(),
        op.sized(),
    ensures
        s.step(op).valid(),
{
}

/// A valid state stays valid over every history.
pub proof fn lemma_run_keeps_valid(s: RegistryState, ops: Seq<Operation>)
    requires
        s.valid(),
        forall|i: int| 0 <= i < ops.len() ==> (#[trigger] ops[i]).sized(),
    ensures
        s.run(ops).valid(),
    decreases ops.len(),
{
    if ops.len() > 0 {
        lemma_run_keeps_valid(s, ops.drop_last());
        lemma_step_keeps_valid(s.run(ops.drop_last()), ops.last());
    }
}

/// Records are never removed: a record that exists is there after every
/// history, with the owner and the hashes it was registered with.
pub proof fn lemma_records_are_kept(s: RegistryState, ops: Seq<Operation>, h: Seq<u8>)
    requires
        s.certificates.contains_key(h),
    ensures
        s.run(ops).certificates.contains_key(h),
        s.run(ops).certificates[h].owner == s.certificates[h].owner,
        s.run(ops).certificates[h].file_hash == s.certificates[h].file_hash,
        s.run(ops).certificates[h].tx_hash == s.certificates[h].tx_hash,
    decreases ops.len(),
{
    if ops.len() > 0 {
        lemma_records_are_kept(s, ops.drop_last(), h);
        lemma_step_shape(s.run(ops.drop_last()), ops.last(), h);
    }
}

/// Approved and rejected are final: a record that is no longer pending is the
/// same record after every history.
pub proof fn lemma_resolved_is_final(s: RegistryState, ops: Seq<Operation>, h: Seq<u8>)
    requires
        s.certificates.contains_key(h),
        s.certificates[h].status != CertificateStatus::Pending,
    ensures
        s.run(ops).certificates.contains_key(h),
        s.run(ops).certificates[h] == s.certificates[h],
    decreases ops.len(),
{
    if ops.len() > 0 {
        lemma_resolved_is_final(s, ops.drop_last(), h);
        lemma_step_shape(s.run(ops.drop_last()), ops.last(), h);
    }
}

/// A file hash is registered at most once: after a registration that was
/// accepted, every later registration under the same hash, whatever happened
/// in between and whoever asks, is refused as a duplicate and changes nothing.
pub proof fn lemma_registration_is_unique(
    s: RegistryState,
    owner: Seq<char>,
    h: Seq<u8>,
    tx_hash: Seq<u8>,
    ops: Seq<Operation>,
    later_owner: Seq<char>,
    later_tx_hash: Seq<u8>,
)
    requires
        s.register_result(h) is Ok,
    ensures
        ({
            let later = s.register(owner, h, tx_hash).run(ops);
            &&& later.register_result(h) == Err::<(), RegistryError>(
                RegistryError::DuplicateCertificate,
            )
            &&& later.register(later_owner, h, later_tx_hash) == later
        }),
{
    lemma_records_are_kept(s.register(owner, h, tx_hash), ops, h);
}

/// A pending record is resolved once. After an approval or a rejection that
/// was accepted, the record is the same after every history, and every later
/// approval or rejection of it is refused and changes nothing: with
/// `AlreadyProcessed` where the caller is the administrator of that time.
pub proof fn lemma_single_transition(
    s: RegistryState,
    caller: Seq<char>,
    h: Seq<u8>,
    approve: bool,
    reason: Seq<char>,
    now: u64,
    ops: Seq<Operation>,
    later_caller: Seq<char>,
    later_reason: Seq<char>,
    later_now: u64,
)
    requires
        s.resolve_result(caller, h) is Ok,
    ensures
        ({
            let resolved = if approve {
                s.approve(caller, h, now)
            } else {
                s.reject(caller, h, reason, now)
            };
            let later = resolved.run(ops);
            &&& resolved.certificates[h].status == if approve {
                CertificateStatus::Approved
            } else {
                CertificateStatus::Rejected
            }
            &&& later.certificates.contains_key(h)
            &&& later.certificates[h] == resolved.certificates[h]
            &&& later.resolve_result(later_caller, h) is Err
            &&& later.admin == Some(later_caller) ==> later.resolve_result(later_caller, h) == Err::<
                (),
                RegistryError,
            >(RegistryError::AlreadyProcessed)
            &&& later.approve(later_caller, h, later_now) == later
            &&& later.reject(later_caller, h, later_reason, later_now) == later
        }),
{
    let resolved = if approve {
        s.approve(caller, h, now)
    } else {
        s.reject(caller, h, reason, now)
    };
    lemma_resolved_is_final(resolved, ops, h);
}

/// Only the administrator resolves: an approval or a rejection by anyone
/// else is refused with `Unauthorized` and changes nothing, whether the record
/// is missing, pending or resolved.
pub proof fn lemma_authorization_gate(
    s: RegistryState,
    caller: Seq<char>,
    h: Seq<u8>,
    reason: Seq<char>,
    now: u64,
)
    requires
        s.admin is Some,
        s.admin != Some(caller),
    ensures
        s.resolve_result(caller, h) == Err::<(), RegistryError>(RegistryError::Unauthorized),
        s.approve(caller, h, now) == s,
        s.reject(caller, h, reason, now) == s,
{
}

/// The two reads agree: where a record exists, it is reported as approved
/// exactly when the record that is read has the status approved.
pub proof fn lemma_read_consistency(s: RegistryState, h: Seq<u8>)
    requires
        s.certificates.contains_key(h),
    ensures
        s.certificate(h) is Ok,
        s.approved(h) == Ok::<bool, RegistryError>(
            s.certificate(h)->Ok_0.status == CertificateStatus::Approved,
        ),
{
}

/// A hash that was never registered is not found: both reads answer
/// `NotFound`, and so does an approval or a rejection by the administrator.
/// From any caller, an approval or a rejection is refused and changes nothing.
pub proof fn lemma_unregistered_is_not_found(
    s: RegistryState,
    caller: Seq<char>,
    h: Seq<u8>,
    reason: Seq<char>,
    now: u64,
)
    requires
        !s.certificates.contains_key(h),
    ensures
        s.certificate(h) == Err::<CertificateRecord, RegistryError>(RegistryError::NotFound),
        s.approved(h) == Err::<bool, RegistryError>(RegistryError::NotFound),
        s.resolve_result(caller, h) is Err,
        s.admin == Some(caller) ==> s.resolve_result(caller, h) == Err::<(), RegistryError>(
            RegistryError::NotFound,
        ),
        s.approve(caller, h, now) == s,
        s.reject(caller, h, reason, now) == s,
{
}

} // verus!
