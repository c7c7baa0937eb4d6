//! Records kept in a sequence, read as a map from file hash to record.

use vstd::prelude::*;
use crate::certificate::{same_hash, Certificate, CertificateRecord};

verus! {

/// No two records of the sequence have the same file hash.
pub open spec fn distinct_hashes(records: Seq<Certificate>) -> bool {
    forall|i: int, j: int|
        0 <= i < j < records.len() ==> records[i].file_hash@ != records[j].file_hash@
}

/// Whether one of the records has the file hash `h`.
pub open spec fn holds_hash(records: Seq<Certificate>, h: Seq<u8>) -> bool {
    exists|i: int| 0 <= i < records.len() && #[trigger] records[i].file_hash@ == h
}

/// The place of a record with the file hash `h`.
pub open spec fn place_of(records: Seq<Certificate>, h: Seq<u8>) -> int {
    choose|i: int| 0 <= i < records.len() && #[trigger] records[i].file_hash@ == h
}

/// The records as a map from file hash to record.
pub open spec fn by_hash(records: Seq<Certificate>) -> Map<Seq<u8>, CertificateRecord> {
    Map::new(|h: Seq<u8>| holds_hash(records, h), |h: Seq<u8>| records[place_of(records, h)]@)
}

/// With distinct hashes, the map holds each record under its own hash.
pub proof fn lemma_by_hash_at(records: Seq<Certificate>, i: int)
    requires
        distinct_hashes(records),
        0 <= i < records.len(),
    ensures
        by_hash(records).contains_key(records[i].file_hash@),
        by_hash(records)[records[i].file_hash@] == records[i]@,
{
    let h = records[i].file_hash@;
    assert(holds_hash(records, h));
    let p = place_of(records, h);
    assert(0 <= p < records.len() && records[p].file_hash@ == h);
    assert(p == i);
}

/// A hash that no record has is no key of the map.
pub proof fn lemma_by_hash_absent(records: Seq<Certificate>, h: Seq<u8>)
    requires
        forall|i: int| 0 <= i < records.len() ==> records[i].file_hash@ != h,
    ensures
        !by_hash(records).contains_key(h),
{
}

/// Adding a record with a new hash inserts it into the map.
pub proof fn lemma_by_hash_push(records: Seq<Certificate>, cert: Certificate)
    requires
        distinct_hashes(records),
        forall|i: int| 0 <= i < records.len() ==> records[i].file_hash@ != cert.file_hash@,
    ensures
        distinct_hashes(records.push(cert)),
        by_hash(records.push(cert)) == by_hash(records).insert(cert.file_hash@, cert@),
{
    let after = records.push(cert);
    let last = records.len() as int;
    assert(distinct_hashes(after));
    assert forall|h: Seq<u8>| #[trigger]
        by_hash(after).contains_key(h) <==> by_hash(records).insert(
            cert.file_hash@,
            cert@,
        ).contains_key(h) by {
        if holds_hash(after, h) {
            let p = place_of(after, h);
            if p < last {
                assert(records[p].file_hash@ == h);
            }
        }
        if holds_hash(records, h) {
            let p = place_of(records, h);
            assert(after[p].file_hash@ == h);
        }
        if h == cert.file_hash@ {
            assert(after[last].file_hash@ == h);
        }
    }
    assert forall|h: Seq<u8>| #[trigger] by_hash(after).contains_key(h) implies by_hash(after)[h]
        == by_hash(records).insert(cert.file_hash@, cert@)[h] by {
        let p = place_of(after, h);
        lemma_by_hash_at(after, p);
        if p < last {
            lemma_by_hash_at(records, p);
        }
    }
    assert(by_hash(after) =~= by_hash(records).insert(cert.file_hash@, cert@));
}

/// Replacing a record by one with the same hash replaces it in the map.
pub proof fn lemma_by_hash_update(records: Seq<Certificate>, i: int, cert: Certificate)
    requires
        distinct_hashes(records),
        0 <= i < records.len(),
        cert.file_hash@ == records[i].file_hash@,
    ensures
        distinct_hashes(records.update(i, cert)),
        by_hash(records.update(i, cert)) == by_hash(records).insert(cert.file_hash@, cert@),
{
    let after = records.update(i, cert);
    assert(distinct_hashes(after));
    assert forall|h: Seq<u8>| #[trigger]
        by_hash(after).contains_key(h) <==> by_hash(records).insert(
            cert.file_hash@,
            cert@,
        ).contains_key(h) by {
        if holds_hash(after, h) {
            let p = place_of(after, h);
            assert(records[p].file_hash@ == h);
        }
        if holds_hash(records, h) {
            let p = place_of(records, h);
            assert(after[p].file_hash@ == h);
        }
        if h == cert.file_hash@ {
            assert(after[i].file_hash@ == h);
        }
    }
    assert forall|h: Seq<u8>| #[trigger] by_hash(after).contains_key(h) implies by_hash(after)[h]
        == by_hash(records).insert(cert.file_hash@, cert@)[h] by {
        let p = place_of(after, h);
        lemma_by_hash_at(after, p);
        if p != i {
            lemma_by_hash_at(records, p);
        }
    }
    assert(by_hash(after) =~= by_hash(records).insert(cert.file_hash@, cert@));
}

/// Well-formed records with distinct hashes make a valid map: each record is
/// well formed and stands under its own hash.
pub proof fn lemma_by_hash_valid(records: Seq<Certificate>)
    requires
        distinct_hashes(records),
        forall|i: int| 0 <= i < records.len() ==> (#[trigger] records[i])@.well_formed(),
    ensures
        forall|h: Seq<u8>| #[trigger]
            by_hash(records).contains_key(h) ==> by_hash(records)[h].well_formed() && by_hash(
                records,
            )[h].file_hash == h,
{
    assert forall|h: Seq<u8>| #[trigger] by_hash(records).contains_key(h) implies by_hash(
        records,
    )[h].well_formed() && by_hash(records)[h].file_hash == h by {
        let p = place_of(records, h);
        lemma_by_hash_at(records, p);
    }
}

/// What a registry asks of its records: each is well formed and no file hash
/// occurs twice.
pub open spec fn consistent(records: Seq<Certificate>) -> bool {
    &&& distinct_hashes(records)
    &&& forall|i: int| 0 <= i < records.len() ==> (#[trigger] records[i])@.well_formed()
}

/// Whether the records can be a registry's.
pub fn is_consistent(records: &Vec<Certificate>) -> (ok: bool)
    ensures
        ok == consistent(records@),
{
    let mut i: usize = 0;
    while i < records.len()
        invariant
            i <= records.len(),
            consistent(records@.take(i as int)),
        decreases records.len() - i,
    {
        if !records[i].is_well_formed() {
            return false;
        }
        let mut j: usize = 0;
        while j < i
            invariant
                j <= i < records.len(),
                forall|k: int| 0 <= k < j ==> records[k].file_hash@ != records[i as int].file_hash@,
            decreases i - j,
        {
            if same_hash(&records[j].file_hash, &records[i].file_hash) {
                return false;
            }
            j += 1;
        }
        proof {
            let before = records@.take(i as int);
            let after = records@.take(i + 1);
            assert forall|a: int, b: int| 0 <= a < b < after.len() implies after[a].file_hash@
                != after[b].file_hash@ by {
                if b < i {
                    assert(before[a].file_hash@ != before[b].file_hash@);
                }
            }
            assert forall|k: int| 0 <= k < after.len() implies (#[trigger] after[k])@.well_formed() by {
                if k < i {
                    assert(before[k]@.well_formed());
                }
            }
        }
        i += 1;
    }
    assert(records@.take(i as int) =~= records@);
    true
}

} // verus!
