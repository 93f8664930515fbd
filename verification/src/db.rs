//! The archive store: records with payloads, retention-gated deletion,
//! search, and derived statistics.
//!
//! The store keeps its records in memory; the I/O shell around the
//! library is responsible for persisting them. Ids are assigned from a
//! monotonic counter and never reused; `(name, archive_date)` is unique
//! across the store.

use vstd::prelude::*;
use vstd::string::StringExecFns;

use crate::errors::ArchiveError;
use crate::hashing;
use crate::record::{ArchiveMetadata, ArchivedFile, ArchivedFileView};
use crate::retention::spec_eligible;
use crate::text;

verus! {

/// One stored snapshot: the record plus its byte payload.
pub(crate) struct StoredRecord {
    pub file: ArchivedFile,
    pub content: Vec<u8>,
}

/// Spec-level image of a stored snapshot.
pub struct StoredRecordView {
    pub file: ArchivedFileView,
    pub content: Seq<u8>,
}

impl View for StoredRecord {
    type V = StoredRecordView;

    closed spec fn view(&self) -> StoredRecordView {
        StoredRecordView { file: self.file@, content: self.content@ }
    }
}

/// Spec-level image of the store: the stored snapshots in insertion
/// order, and the id the next record will receive.
pub struct ArchiveDbView {
    pub records: Seq<StoredRecordView>,
    pub next_id: int,
}

/// Some record in `records` carries this id.
pub open spec fn has_id(records: Seq<StoredRecordView>, id: int) -> bool {
    exists|i: int| 0 <= i < records.len() && (#[trigger] records[i]).file.id == id
}

/// The position of the record carrying `id`.
pub open spec fn index_of_id(records: Seq<StoredRecordView>, id: int) -> int {
    choose|i: int| 0 <= i < records.len() && (#[trigger] records[i]).file.id == id
}

/// The record carrying `id`.
pub open spec fn record_with_id(records: Seq<StoredRecordView>, id: int) -> StoredRecordView {
    records[index_of_id(records, id)]
}

/// Some record in `records` carries this name and archive date.
pub open spec fn has_name_date(
    records: Seq<StoredRecordView>,
    name: Seq<char>,
    date: int,
) -> bool {
    exists|i: int|
        0 <= i < records.len() && (#[trigger] records[i]).file.name == name
            && records[i].file.archive_date == date
}

/// No two records carry the same id.
pub open spec fn ids_unique(records: Seq<StoredRecordView>) -> bool {
    forall|i: int, j: int|
        0 <= i < records.len() && 0 <= j < records.len() && i != j ==> (
        #[trigger] records[i]).file.id != (#[trigger] records[j]).file.id
}

/// No two records carry the same `(name, archive_date)` pair.
pub open spec fn name_dates_unique(records: Seq<StoredRecordView>) -> bool {
    forall|i: int, j: int|
        0 <= i < records.len() && 0 <= j < records.len() && i != j ==> !((
        #[trigger] records[i]).file.name == (#[trigger] records[j]).file.name
            && records[i].file.archive_date == records[j].file.archive_date)
}

/// Well-formedness of the store's image.
pub open spec fn wf_view(v: ArchiveDbView) -> bool {
    &&& 1 <= v.next_id <= i64::MAX
    &&& forall|i: int|
        0 <= i < v.records.len() ==> {
            &&& 0 < (#[trigger] v.records[i]).file.id < v.next_id
            &&& 0 <= v.records[i].file.retention_period
        }
    &&& ids_unique(v.records)
    &&& name_dates_unique(v.records)
}

/// The archive store.
pub struct ArchiveDb {
    records: Vec<StoredRecord>,
    next_id: i64,
}

/// The spec-level images of a vector of stored snapshots.
pub(crate) open spec fn record_views(s: Seq<StoredRecord>) -> Seq<StoredRecordView> {
    s.map_values(|r: StoredRecord| r@)
}

impl View for ArchiveDb {
    type V = ArchiveDbView;

    closed spec fn view(&self) -> ArchiveDbView {
        ArchiveDbView { records: record_views(self.records@), next_id: self.next_id as int }
    }
}

/// When a record's id is found at position `i` and ids are unique, the
/// chosen index is `i` itself.
proof fn lemma_index_of_id(records: Seq<StoredRecordView>, id: int, i: int)
    requires
        ids_unique(records),
        0 <= i < records.len(),
        records[i].file.id == id,
    ensures
        has_id(records, id),
        index_of_id(records, id) == i,
{
    assert(has_id(records, id));
    let j = index_of_id(records, id);
    assert(0 <= j < records.len() && records[j].file.id == id);
}

impl ArchiveDb {
    /// The store's image is well-formed.
    pub open spec fn wf(&self) -> bool {
        wf_view(self@)
    }

    /// An empty store; the first record will receive id 1.
    pub fn new() -> (r: Self)
        ensures
            r.wf(),
            r@.records =~= Seq::<StoredRecordView>::empty(),
            r@.next_id == 1,
    {
        let r = ArchiveDb { records: Vec::new(), next_id: 1 };
        proof {
            assert(r@.records =~= Seq::<StoredRecordView>::empty());
        }
        r
    }

    /// The position of the record with `id`, if any.
    fn find_index(&self, id: i64) -> (r: Option<usize>)
        requires
            self.wf(),
        ensures
            match r {
                Some(i) => i < self@.records.len() && self@.records[i as int].file.id == id
                    && index_of_id(self@.records, id as int) == i && has_id(
                    self@.records,
                    id as int,
                ),
                None => !has_id(self@.records, id as int),
            },
    {
        let n = self.records.len();
        let mut i: usize = 0;
        while i < n
            invariant
                self.wf(),
                n == self@.records.len(),
                i <= n,
                forall|k: int| 0 <= k < i ==> (#[trigger] self@.records[k]).file.id != id,
            decreases n - i,
        {
            if self.records[i].file.id == id {
                proof {
                    lemma_index_of_id(self@.records, id as int, i as int);
                }
                return Some(i);
            }
            i = i + 1;
        }
        proof {
            assert(!has_id(self@.records, id as int));
        }
        None
    }

    /// Whether some record carries this name and archive date.
    fn clashes(&self, name: &String, date: i64) -> (r: bool)
        ensures
            r == has_name_date(self@.records, name@, date as int),
    {
        let n = self.records.len();
        let mut i: usize = 0;
        while i < n
            invariant
                n == self@.records.len(),
                i <= n,
                forall|k: int|
                    0 <= k < i ==> !((#[trigger] self@.records[k]).file.name == name@
                        && self@.records[k].file.archive_date == date),
            decreases n - i,
        {
            if self.records[i].file.name == *name && self.records[i].file.archive_date == date {
                proof {
                    assert(self@.records[i as int].file.name == name@ && self@.records[
                        i as int
                    ].file.archive_date == date as int);
                    assert(has_name_date(self@.records, name@, date as int));
                }
                return true;
            }
            i = i + 1;
        }
        proof {
            assert(!has_name_date(self@.records, name@, date as int));
        }
        false
    }

    /// Insert a new record archived at instant `now`.
    ///
    /// The content hash is computed here; `retention_days` is converted
    /// to seconds. Fails when the `(name, now)` pair is already taken or
    /// the id space is exhausted, and changes nothing in that case.
    pub fn archive_file(
        &mut self,
        name: &str,
        path: &str,
        content: &[u8],
        format: &str,
        retention_days: i64,
        reason: &str,
        metadata: ArchiveMetadata,
        now: i64,
    ) -> (r: Result<i64, ArchiveError>)
        requires
            old(self).wf(),
            0 <= retention_days,
            retention_days * 86400 <= i64::MAX,
        ensures
            final(self).wf(),
            match r {
                Ok(id) => {
                    &&& !has_name_date(old(self)@.records, name@, now as int)
                    &&& old(self)@.next_id < i64::MAX
                    &&& id == old(self)@.next_id
                    &&& final(self)@.next_id == old(self)@.next_id + 1
                    &&& final(self)@.records == old(self)@.records.push(
                        StoredRecordView {
                            file: ArchivedFileView {
                                id: id as int,
                                name: name@,
                                original_path: path@,
                                format: format@,
                                content_hash: hashing::hash_hex_of(content@),
                                archive_date: now as int,
                                retention_period: retention_days * 86400,
                                reason: reason@,
                                metadata: metadata,
                            },
                            content: content@,
                        },
                    )
                },
                Err(e) => {
                    &&& e matches ArchiveError::DbError(_)
                    &&& (has_name_date(old(self)@.records, name@, now as int) || old(
                        self,
                    )@.next_id == i64::MAX)
                    &&& final(self)@ == old(self)@
                },
            },
    {
        let name_s = String::from_str(name);
        if self.clashes(&name_s, now) {
            return Err(
                ArchiveError::DbError(String::from_str("UNIQUE constraint failed: name, archive_date")),
            );
        }
        if self.next_id == i64::MAX {
            return Err(ArchiveError::DbError(String::from_str("id space exhausted")));
        }
        let hash = hashing::content_hash(content);
        let payload = copy_bytes(content);
        let id = self.next_id;
        let file = ArchivedFile {
            id,
            name: name_s,
            original_path: String::from_str(path),
            format: String::from_str(format),
            content_hash: hash,
            archive_date: now,
            retention_period: retention_days * 86400,
            reason: String::from_str(reason),
            metadata,
        };
        let ghost old_view = self@;
        self.records.push(StoredRecord { file, content: payload });
        self.next_id = id + 1;
        proof {
            assert(self@.records =~= old_view.records.push(self@.records.last()));
            assert forall|i: int, j: int|
                0 <= i < self@.records.len() && 0 <= j < self@.records.len() && i
                    != j implies !((#[trigger] self@.records[i]).file.name == (
            #[trigger] self@.records[j]).file.name && self@.records[i].file.archive_date
                == self@.records[j].file.archive_date) by {
                if i == old_view.records.len() || j == old_view.records.len() {
                    assert(!has_name_date(old_view.records, name@, now as int));
                }
            }
        }
        Ok(id)
    }

    /// Re-insert a record persisted earlier, keeping its id: the id
    /// counter moves past it, so fresh ids never collide with loaded
    /// ones. Fails, changing nothing, when the record would break the
    /// store's invariants.
    pub fn load_record(&mut self, file: ArchivedFile, content: Vec<u8>) -> (r: Result<
        (),
        ArchiveError,
    >)
        requires
            old(self).wf(),
        ensures
            final(self).wf(),
            match r {
                Ok(()) => {
                    &&& 0 < file@.id < i64::MAX
                    &&& 0 <= file@.retention_period
                    &&& !has_id(old(self)@.records, file@.id)
                    &&& !has_name_date(old(self)@.records, file@.name, file@.archive_date)
                    &&& final(self)@.records == old(self)@.records.push(
                        StoredRecordView { file: file@, content: content@ },
                    )
                    &&& final(self)@.next_id == (if file@.id + 1 > old(self)@.next_id {
                        file@.id + 1
                    } else {
                        old(self)@.next_id
                    })
                },
                Err(e) => {
                    &&& e matches ArchiveError::DbError(_)
                    &&& final(self)@ == old(self)@
                    &&& (file@.id <= 0 || file@.id == i64::MAX || file@.retention_period < 0
                        || has_id(old(self)@.records, file@.id) || has_name_date(
                        old(self)@.records,
                        file@.name,
                        file@.archive_date,
                    ))
                },
            },
    {
        if file.id <= 0 || file.id == i64::MAX || file.retention_period < 0 {
            return Err(ArchiveError::DbError(String::from_str("record out of range")));
        }
        if let Some(_) = self.find_index(file.id) {
            return Err(ArchiveError::DbError(String::from_str("id already taken")));
        }
        if self.clashes(&file.name, file.archive_date) {
            return Err(
                ArchiveError::DbError(String::from_str("UNIQUE constraint failed: name, archive_date")),
            );
        }
        let ghost old_view = self@;
        let id = file.id;
        self.records.push(StoredRecord { file, content });
        if id + 1 > self.next_id {
            self.next_id = id + 1;
        }
        proof {
            assert(self@.records =~= old_view.records.push(self@.records.last()));
            assert forall|i: int, j: int|
                0 <= i < self@.records.len() && 0 <= j < self@.records.len() && i
                    != j implies !((#[trigger] self@.records[i]).file.name == (
            #[trigger] self@.records[j]).file.name && self@.records[i].file.archive_date
                == self@.records[j].file.archive_date) by {
                if i == old_view.records.len() || j == old_view.records.len() {
                    assert(!has_name_date(old_view.records, self@.records[old_view.records.len() as int].file.name, self@.records[old_view.records.len() as int].file.archive_date));
                }
            }
            assert forall|i: int, j: int|
                0 <= i < self@.records.len() && 0 <= j < self@.records.len() && i
                    != j implies (#[trigger] self@.records[i]).file.id != (
            #[trigger] self@.records[j]).file.id by {
                if i == old_view.records.len() || j == old_view.records.len() {
                    assert(!has_id(old_view.records, self@.records[old_view.records.len() as int].file.id));
                }
            }
        }
        Ok(())
    }

    /// Fetch the record with `id` together with its payload.
    pub fn restore_file(&self, id: i64) -> (r: Result<(ArchivedFile, Vec<u8>), ArchiveError>)
        requires
            self.wf(),
        ensures
            match r {
                Ok((f, c)) => {
                    &&& has_id(self@.records, id as int)
                    &&& f@ == record_with_id(self@.records, id as int).file
                    &&& c@ == record_with_id(self@.records, id as int).content
                },
                Err(e) => {
                    &&& e matches ArchiveError::NotFound(missing) && missing == id
                    &&& !has_id(self@.records, id as int)
                },
            },
    {
        match self.find_index(id) {
            Some(i) => {
                let rec = &self.records[i];
                Ok((rec.file.duplicate(), copy_bytes(rec.content.as_slice())))
            },
            None => Err(ArchiveError::NotFound(id)),
        }
    }

    /// Fetch the record with `id`, without its payload.
    pub fn get_archive_info(&self, id: i64) -> (r: Result<ArchivedFile, ArchiveError>)
        requires
            self.wf(),
        ensures
            match r {
                Ok(f) => has_id(self@.records, id as int) && f@ == record_with_id(
                    self@.records,
                    id as int,
                ).file,
                Err(e) => {
                    &&& e matches ArchiveError::NotFound(missing) && missing == id
                    &&& !has_id(self@.records, id as int)
                },
            },
    {
        match self.find_index(id) {
            Some(i) => Ok(self.records[i].file.duplicate()),
            None => Err(ArchiveError::NotFound(id)),
        }
    }

    /// Whether the record with `id` may be deleted at instant `now`:
    /// its retention window, measured from its archive date, has fully
    /// elapsed.
    pub fn can_delete(&self, id: i64, now: i64) -> (r: Result<bool, ArchiveError>)
        requires
            self.wf(),
        ensures
            match r {
                Ok(b) => {
                    &&& has_id(self@.records, id as int)
                    &&& b == spec_eligible(
                        record_with_id(self@.records, id as int).file.archive_date,
                        record_with_id(self@.records, id as int).file.retention_period,
                        now as int,
                    )
                },
                Err(e) => {
                    &&& e matches ArchiveError::NotFound(missing) && missing == id
                    &&& !has_id(self@.records, id as int)
                },
            },
    {
        match self.find_index(id) {
            Some(i) => {
                let f = &self.records[i].file;
                Ok(crate::retention::is_delete_eligible(f.archive_date, f.retention_period, now))
            },
            None => Err(ArchiveError::NotFound(id)),
        }
    }

    /// Delete the record with `id`, permitted only once its retention
    /// window has elapsed at instant `now`. A refused delete changes
    /// nothing.
    pub fn delete_archive(&mut self, id: i64, now: i64) -> (r: Result<(), ArchiveError>)
        requires
            old(self).wf(),
        ensures
            final(self).wf(),
            final(self)@.next_id == old(self)@.next_id,
            match r {
                Ok(()) => {
                    &&& has_id(old(self)@.records, id as int)
                    &&& spec_eligible(
                        record_with_id(old(self)@.records, id as int).file.archive_date,
                        record_with_id(old(self)@.records, id as int).file.retention_period,
                        now as int,
                    )
                    &&& final(self)@.records == old(self)@.records.remove(
                        index_of_id(old(self)@.records, id as int),
                    )
                },
                Err(e) => {
                    &&& final(self)@ == old(self)@
                    &&& match e {
                        ArchiveError::NotFound(missing) => missing == id && !has_id(
                            old(self)@.records,
                            id as int,
                        ),
                        ArchiveError::RetentionActive => has_id(old(self)@.records, id as int)
                            && !spec_eligible(
                            record_with_id(old(self)@.records, id as int).file.archive_date,
                            record_with_id(old(self)@.records, id as int).file.retention_period,
                            now as int,
                        ),
                        _ => false,
                    }
                },
            },
    {
        match self.find_index(id) {
            Some(i) => {
                let f = &self.records[i].file;
                if crate::retention::is_delete_eligible(f.archive_date, f.retention_period, now) {
                    let ghost old_view = self@;
                    self.records.remove(i);
                    proof {
                        assert(self@.records =~= old_view.records.remove(i as int));
                    }
                    Ok(())
                } else {
                    Err(ArchiveError::RetentionActive)
                }
            },
            None => Err(ArchiveError::NotFound(id)),
        }
    }

    /// Overwrite the retention window of the record with `id`.
    pub fn update_retention_period(&mut self, id: i64, new_retention_seconds: i64) -> (r: Result<
        (),
        ArchiveError,
    >)
        requires
            old(self).wf(),
            0 <= new_retention_seconds,
        ensures
            final(self).wf(),
            final(self)@.next_id == old(self)@.next_id,
            match r {
                Ok(()) => {
                    &&& has_id(old(self)@.records, id as int)
                    &&& final(self)@.records == old(self)@.records.update(
                        index_of_id(old(self)@.records, id as int),
                        StoredRecordView {
                            file: ArchivedFileView {
                                retention_period: new_retention_seconds as int,
                                ..record_with_id(old(self)@.records, id as int).file
                            },
                            content: record_with_id(old(self)@.records, id as int).content,
                        },
                    )
                },
                Err(e) => {
                    &&& e matches ArchiveError::NotFound(missing) && missing == id
                    &&& !has_id(old(self)@.records, id as int)
                    &&& final(self)@ == old(self)@
                },
            },
    {
        match self.find_index(id) {
            Some(i) => {
                let ghost old_view = self@;
                let rec = &mut self.records[i];
                rec.file.retention_period = new_retention_seconds;
                proof {
                    assert(self@.records =~= old_view.records.update(
                        i as int,
                        StoredRecordView {
                            file: ArchivedFileView {
                                retention_period: new_retention_seconds as int,
                                ..record_with_id(old_view.records, id as int).file
                            },
                            content: record_with_id(old_view.records, id as int).content,
                        },
                    ));
                }
                Ok(())
            },
            None => Err(ArchiveError::NotFound(id)),
        }
    }
}

/// The record parts of a stored sequence, payloads dropped.
pub open spec fn stored_files(records: Seq<StoredRecordView>) -> Seq<ArchivedFileView> {
    records.map_values(|r: StoredRecordView| r.file)
}

/// The spec-level images of a vector of records.
pub open spec fn file_views(s: Seq<ArchivedFile>) -> Seq<ArchivedFileView> {
    s.map_values(|f: ArchivedFile| f@)
}

/// Most recent first: archive dates never increase along the sequence.
pub open spec fn sorted_by_date_desc(s: Seq<ArchivedFileView>) -> bool {
    forall|i: int, j: int|
        0 <= i < j < s.len() ==> (#[trigger] s[i]).archive_date >= (#[trigger] s[j]).archive_date
}

/// Search semantics: the query occurs, case folded, in the record's
/// name, original path or reason.
pub open spec fn record_matches(f: ArchivedFileView, q: Seq<char>) -> bool {
    ||| text::contains_seq(text::lower_seq(f.name), text::lower_seq(q))
    ||| text::contains_seq(text::lower_seq(f.original_path), text::lower_seq(q))
    ||| text::contains_seq(text::lower_seq(f.reason), text::lower_seq(q))
}

/// Strict expiry, as used by cleanup and by the statistics: the window
/// must have strictly elapsed (`>`), where delete-eligibility uses
/// `>=`. The distinction is the stored behaviour and is kept on
/// purpose.
pub open spec fn spec_expired_strict(f: ArchivedFileView, now: int) -> bool {
    now - f.archive_date > f.retention_period
}

/// How many records of the sequence are strictly expired at `now`.
pub open spec fn count_expired(records: Seq<StoredRecordView>, now: int) -> int
    decreases records.len(),
{
    if records.len() == 0 {
        0
    } else {
        count_expired(records.drop_last(), now) + if spec_expired_strict(
            records.last().file,
            now,
        ) {
            1int
        } else {
            0int
        }
    }
}

/// What cleanup leaves behind: the records that are not strictly
/// expired at `now`, in their stored order.
pub open spec fn retained_after_cleanup(records: Seq<StoredRecordView>, now: int) -> Seq<
    StoredRecordView,
>
    decreases records.len(),
{
    if records.len() == 0 {
        Seq::empty()
    } else {
        let rest = retained_after_cleanup(records.drop_last(), now);
        if spec_expired_strict(records.last().file, now) {
            rest
        } else {
            rest.push(records.last())
        }
    }
}

/// Cleanup removes exactly the strictly expired records.
proof fn lemma_retained_len(records: Seq<StoredRecordView>, now: int)
    ensures
        retained_after_cleanup(records, now).len() + count_expired(records, now) == records.len(),
    decreases records.len(),
{
    if records.len() > 0 {
        lemma_retained_len(records.drop_last(), now);
    }
}

/// What cleanup keeps is drawn from the stored records without
/// duplication, so the store's uniqueness facts carry over.
proof fn lemma_retained_distinct(records: Seq<StoredRecordView>, now: int)
    requires
        ids_unique(records),
        name_dates_unique(records),
    ensures
        ids_unique(retained_after_cleanup(records, now)),
        name_dates_unique(retained_after_cleanup(records, now)),
        forall|k: int|
            0 <= k < retained_after_cleanup(records, now).len() ==> exists|j: int|
                0 <= j < records.len() && #[trigger] retained_after_cleanup(records, now)[k]
                    == #[trigger] records[j],
    decreases records.len(),
{
    let ret = retained_after_cleanup(records, now);
    if records.len() > 0 {
        let rest = records.drop_last();
        assert(forall|i: int| 0 <= i < rest.len() ==> rest[i] == #[trigger] records[i]);
        assert(ids_unique(rest));
        assert(name_dates_unique(rest));
        lemma_retained_distinct(rest, now);
        let rr = retained_after_cleanup(rest, now);
        assert(forall|k: int|
            0 <= k < rr.len() ==> exists|j: int|
                0 <= j < records.len() && #[trigger] rr[k] == #[trigger] records[j]);
        if spec_expired_strict(records.last().file, now) {
            assert(ret == rr);
        } else {
            assert(ret == rr.push(records.last()));
            assert forall|a: int, b: int|
                0 <= a < ret.len() && 0 <= b < ret.len() && a != b implies (
            #[trigger] ret[a]).file.id != (#[trigger] ret[b]).file.id && !(ret[a].file.name
                == ret[b].file.name && ret[a].file.archive_date == ret[b].file.archive_date) by {
                if a < rr.len() && b < rr.len() {
                    assert(ret[a] == rr[a] && ret[b] == rr[b]);
                } else if a < rr.len() {
                    assert(exists|j: int| 0 <= j < rest.len() && rr[a] == #[trigger] rest[j]);
                    let ja = choose|j: int| 0 <= j < rest.len() && rr[a] == #[trigger] rest[j];
                    assert(rr[a] == records[ja] && ja < records.len() - 1);
                    assert(ret[b] == records[records.len() - 1]);
                } else {
                    assert(exists|j: int| 0 <= j < rest.len() && rr[b] == #[trigger] rest[j]);
                    let jb = choose|j: int| 0 <= j < rest.len() && rr[b] == #[trigger] rest[j];
                    assert(rr[b] == records[jb] && jb < records.len() - 1);
                    assert(ret[a] == records[records.len() - 1]);
                }
            }
        }
        assert forall|k: int| 0 <= k < ret.len() implies exists|j: int|
            0 <= j < records.len() && #[trigger] ret[k] == #[trigger] records[j] by {
            if k < rr.len() {
                assert(exists|j: int| 0 <= j < rest.len() && rr[k] == #[trigger] rest[j]);
                let j0 = choose|j: int| 0 <= j < rest.len() && rr[k] == #[trigger] rest[j];
                assert(ret[k] == records[j0]);
            } else {
                assert(ret[k] == records[records.len() - 1]);
            }
        }
    }
}

/// The byte size a record contributes to the total, zero when absent.
pub open spec fn size_of_record(r: StoredRecordView) -> int {
    match r.file.metadata.size {
        Some(s) => s as int,
        None => 0,
    }
}

/// Total byte size of the stored payload metadata.
pub open spec fn sum_sizes(records: Seq<StoredRecordView>) -> int
    decreases records.len(),
{
    if records.len() == 0 {
        0
    } else {
        sum_sizes(records.drop_last()) + size_of_record(records.last())
    }
}

/// Total of the retention windows, in seconds.
pub open spec fn sum_retention(records: Seq<StoredRecordView>) -> int
    decreases records.len(),
{
    if records.len() == 0 {
        0
    } else {
        sum_retention(records.drop_last()) + records.last().file.retention_period
    }
}

/// Clamp a non-negative integer into the range of `u64`.
pub open spec fn clamp_u64(v: int) -> int {
    if v > u64::MAX {
        u64::MAX as int
    } else {
        v
    }
}

/// Aggregate statistics over the whole store, derived fresh on each
/// query.
#[derive(Debug, Clone, Copy, PartialEq, Eq)]
pub struct ArchiveStatistics {
    /// Number of stored records.
    pub total_archives: usize,
    /// Sum of the per-record byte sizes taken from their metadata
    /// (absent sizes count as zero), clamped into `u64`.
    pub total_size: u64,
    /// Records whose retention window has strictly elapsed.
    pub expired_count: usize,
    /// `total_archives - expired_count`.
    pub active_count: usize,
    /// Average retention window in whole days, rounded toward zero;
    /// zero for an empty store.
    pub avg_retention_days: u64,
}

/// The records matching a query, in stored order.
pub open spec fn matching_files(records: Seq<StoredRecordView>, q: Seq<char>) -> Seq<
    ArchivedFileView,
>
    decreases records.len(),
{
    if records.len() == 0 {
        Seq::empty()
    } else {
        let rest = matching_files(records.drop_last(), q);
        if record_matches(records.last().file, q) {
            rest.push(records.last().file)
        } else {
            rest
        }
    }
}

/// Sort records most recent first. The result holds the same records;
/// equal archive dates keep no particular order.
fn sort_by_date_desc_vec(input: Vec<ArchivedFile>) -> (r: Vec<ArchivedFile>)
    ensures
        file_views(r@).to_multiset() == file_views(input@).to_multiset(),
        sorted_by_date_desc(file_views(r@)),
        r@.len() == input@.len(),
{
    let mut rest = input;
    let mut out: Vec<ArchivedFile> = Vec::new();
    proof {
        broadcast use vstd::seq_lib::group_to_multiset_ensures;
        broadcast use vstd::multiset::group_multiset_axioms;

        assert(file_views(out@).to_multiset().add(file_views(rest@).to_multiset())
            =~= file_views(rest@).to_multiset());
    }
    while rest.len() > 0
        invariant
            file_views(out@).to_multiset().add(file_views(rest@).to_multiset()) == file_views(
                input@,
            ).to_multiset(),
            sorted_by_date_desc(file_views(out@)),
            forall|a: int, b: int|
                0 <= a < out@.len() && 0 <= b < rest@.len() ==> (#[trigger] file_views(
                    out@,
                )[a]).archive_date >= (#[trigger] file_views(rest@)[b]).archive_date,
            out@.len() + rest@.len() == input@.len(),
        decreases rest@.len(),
    {
        let n = rest.len();
        let mut mi: usize = 0;
        let mut k: usize = 1;
        while k < n
            invariant
                n == rest@.len(),
                0 < n,
                mi < n,
                k <= n,
                forall|l: int|
                    0 <= l < k ==> (#[trigger] file_views(rest@)[l]).archive_date <= file_views(
                        rest@,
                    )[mi as int].archive_date,
            decreases n - k,
        {
            if rest[k].archive_date > rest[mi].archive_date {
                mi = k;
            }
            k = k + 1;
        }
        let ghost old_out = out@;
        let ghost old_rest = rest@;
        let rec = rest.remove(mi);
        out.push(rec);
        proof {
            broadcast use vstd::seq_lib::group_to_multiset_ensures;
            broadcast use vstd::multiset::group_multiset_axioms;

            assert(file_views(out@) =~= file_views(old_out).push(rec@));
            assert(file_views(rest@) =~= file_views(old_rest).remove(mi as int));
            assert(file_views(old_rest)[mi as int] == rec@);
            assert(file_views(out@).to_multiset() =~= file_views(old_out).to_multiset().insert(
                rec@,
            ));
            assert(file_views(rest@).to_multiset() =~= file_views(old_rest).to_multiset().remove(
                rec@,
            ));
            assert(file_views(old_rest).to_multiset().count(rec@) >= 1) by {
                assert(file_views(old_rest).contains(rec@));
            }
            assert(file_views(out@).to_multiset().add(file_views(rest@).to_multiset())
                =~= file_views(old_out).to_multiset().add(file_views(old_rest).to_multiset()));
            // The chosen record carries the greatest date left in `rest`.
            assert(forall|b: int|
                0 <= b < old_rest.len() ==> (#[trigger] file_views(old_rest)[b]).archive_date
                    <= rec@.archive_date);
            assert forall|a: int, b: int|
                0 <= a < out@.len() && 0 <= b < rest@.len() implies (#[trigger] file_views(
                out@,
            )[a]).archive_date >= (#[trigger] file_views(rest@)[b]).archive_date by {
                assert(file_views(rest@)[b] == file_views(old_rest).remove(mi as int)[b]);
                if b < mi {
                    assert(file_views(rest@)[b] == file_views(old_rest)[b]);
                } else {
                    assert(file_views(rest@)[b] == file_views(old_rest)[b + 1]);
                }
                if a < old_out.len() {
                    assert(file_views(out@)[a] == file_views(old_out)[a]);
                } else {
                    assert(file_views(out@)[a] == rec@);
                }
            }
        }
    }
    proof {
        broadcast use vstd::seq_lib::group_to_multiset_ensures;
        broadcast use vstd::multiset::group_multiset_axioms;

        assert(file_views(rest@) =~= Seq::<ArchivedFileView>::empty());
        assert(file_views(out@).to_multiset() =~= file_views(input@).to_multiset());
    }
    out
}

impl ArchiveDb {
    /// All records, most recent first.
    pub fn list_archives(&self) -> (r: Result<Vec<ArchivedFile>, ArchiveError>)
        requires
            self.wf(),
        ensures
            match r {
                Ok(v) => {
                    &&& file_views(v@).to_multiset() == stored_files(self@.records).to_multiset()
                    &&& sorted_by_date_desc(file_views(v@))
                    &&& v@.len() == self@.records.len()
                },
                Err(_) => false,
            },
    {
        let n = self.records.len();
        let mut acc: Vec<ArchivedFile> = Vec::new();
        let mut i: usize = 0;
        while i < n
            invariant
                n == self@.records.len(),
                i <= n,
                file_views(acc@) =~= stored_files(self@.records.subrange(0, i as int)),
            decreases n - i,
        {
            let ghost old_acc = acc@;
            let ghost prefix = self@.records.subrange(0, i as int);
            let ghost prefix1 = self@.records.subrange(0, i + 1 as int);
            let dup = self.records[i].file.duplicate();
            let ghost dupv = dup@;
            acc.push(dup);
            proof {
                assert(prefix1 =~= prefix.push(self@.records[i as int]));
                assert(file_views(old_acc).len() == old_acc.len());
                assert(old_acc.len() == i);
                assert forall|k: int|
                    0 <= k < acc@.len() implies #[trigger] file_views(acc@)[k] == stored_files(
                    prefix1,
                )[k] by {
                    if k < i {
                        assert(acc@[k] == old_acc[k]);
                        assert(file_views(old_acc)[k] == stored_files(prefix)[k]);
                    } else {
                        assert(file_views(acc@)[k] == dupv);
                        assert(prefix1[k] == self@.records[i as int]);
                    }
                }
                assert(file_views(acc@).len() == stored_files(prefix1).len());
                assert(file_views(acc@) =~= stored_files(prefix1));
            }
            i = i + 1;
        }
        proof {
            assert(self@.records.subrange(0, n as int) =~= self@.records);
        }
        Ok(sort_by_date_desc_vec(acc))
    }

    /// The records whose name, original path or reason contains the
    /// query, case folded; most recent first.
    pub fn search_archives(&self, query: &str) -> (r: Result<Vec<ArchivedFile>, ArchiveError>)
        requires
            self.wf(),
        ensures
            match r {
                Ok(v) => {
                    &&& file_views(v@).to_multiset() == matching_files(
                        self@.records,
                        query@,
                    ).to_multiset()
                    &&& sorted_by_date_desc(file_views(v@))
                },
                Err(_) => false,
            },
    {
        let qlow = text::lower_chars(query);
        let n = self.records.len();
        let mut acc: Vec<ArchivedFile> = Vec::new();
        let mut i: usize = 0;
        while i < n
            invariant
                n == self@.records.len(),
                i <= n,
                qlow@ == text::lower_seq(query@),
                file_views(acc@) =~= matching_files(self@.records.subrange(0, i as int), query@),
            decreases n - i,
        {
            let f = &self.records[i].file;
            let ghost old_acc = acc@;
            let ghost prefix = self@.records.subrange(0, i as int);
            let ghost prefix1 = self@.records.subrange(0, i + 1 as int);
            let name_l = text::lower_chars(f.name.as_str());
            let path_l = text::lower_chars(f.original_path.as_str());
            let reason_l = text::lower_chars(f.reason.as_str());
            let hit = text::seq_contains(&name_l, &qlow) || text::seq_contains(&path_l, &qlow)
                || text::seq_contains(&reason_l, &qlow);
            proof {
                assert(hit == record_matches(self@.records[i as int].file, query@));
                assert(prefix1 =~= prefix.push(self@.records[i as int]));
                assert(prefix1.drop_last() =~= prefix);
            }
            if hit {
                let dup = f.duplicate();
                let ghost dupv = dup@;
                acc.push(dup);
                proof {
                    assert(file_views(old_acc).len() == old_acc.len());
                    assert forall|k: int|
                        0 <= k < acc@.len() implies #[trigger] file_views(acc@)[k]
                        == matching_files(prefix1, query@)[k] by {
                        if k < old_acc.len() {
                            assert(acc@[k] == old_acc[k]);
                            assert(file_views(old_acc)[k] == matching_files(prefix, query@)[k]);
                        } else {
                            assert(file_views(acc@)[k] == dupv);
                        }
                    }
                    assert(file_views(acc@).len() == matching_files(prefix1, query@).len());
                    assert(file_views(acc@) =~= matching_files(prefix1, query@));
                }
            } else {
                proof {
                    assert(file_views(acc@) =~= matching_files(prefix1, query@));
                }
            }
            i = i + 1;
        }
        proof {
            assert(self@.records.subrange(0, n as int) =~= self@.records);
        }
        Ok(sort_by_date_desc_vec(acc))
    }

    /// Remove every record whose retention window has strictly elapsed
    /// at `now`; return how many were removed. Safe to run again: a
    /// second run with no new records removes nothing.
    pub fn cleanup_expired(&mut self, now: i64) -> (r: Result<usize, ArchiveError>)
        requires
            old(self).wf(),
        ensures
            final(self).wf(),
            final(self)@.next_id == old(self)@.next_id,
            final(self)@.records == retained_after_cleanup(old(self)@.records, now as int),
            match r {
                Ok(cnt) => cnt == count_expired(old(self)@.records, now as int),
                Err(_) => false,
            },
    {
        let n = self.records.len();
        let mut kept: Vec<StoredRecord> = Vec::new();
        let mut i: usize = 0;
        while i < n
            invariant
                old(self).wf(),
                self == old(self),
                n == self@.records.len(),
                i <= n,
                kept@.len() <= i,
                record_views(kept@) =~= retained_after_cleanup(
                    self@.records.subrange(0, i as int),
                    now as int,
                ),
            decreases n - i,
        {
            let rec = &self.records[i];
            let ghost prefix = self@.records.subrange(0, i as int);
            let ghost prefix1 = self@.records.subrange(0, i + 1 as int);
            proof {
                assert(prefix1 =~= prefix.push(self@.records[i as int]));
                assert(prefix1.drop_last() =~= prefix);
            }
            let expired = expired_strict_exec(&rec.file, now);
            if !expired {
                kept.push(
                    StoredRecord {
                        file: rec.file.duplicate(),
                        content: copy_bytes(rec.content.as_slice()),
                    },
                );
            }
            proof {
                assert(record_views(kept@) =~= retained_after_cleanup(prefix1, now as int));
            }
            i = i + 1;
        }
        let removed = n - kept.len();
        let ghost old_view = self@;
        let ghost kept_views = record_views(kept@);
        proof {
            assert(old_view.records.subrange(0, n as int) =~= old_view.records);
            assert(kept_views =~= retained_after_cleanup(old_view.records, now as int));
            lemma_retained_len(old_view.records, now as int);
            lemma_retained_distinct(old_view.records, now as int);
        }
        self.records = kept;
        proof {
            assert(self@.records == kept_views);
            // Each kept record is one of the old records, so the id
            // bounds carry over.
            assert forall|a: int| 0 <= a < self@.records.len() implies 0 < (
            #[trigger] self@.records[a]).file.id < self@.next_id && 0
                <= self@.records[a].file.retention_period by {
                assert(exists|j: int|
                    0 <= j < old_view.records.len() && kept_views[a] == #[trigger] old_view.records[j]);
                let ja = choose|j: int|
                    0 <= j < old_view.records.len() && kept_views[a] == #[trigger] old_view.records[j];
                assert(kept_views[a] == old_view.records[ja]);
            }
        }
        Ok(removed)
    }

    /// Aggregate statistics at instant `now`: record count, expired and
    /// active counts, total stored bytes, and the average retention
    /// window in whole days.
    pub fn get_statistics(&self, now: i64) -> (r: Result<ArchiveStatistics, ArchiveError>)
        requires
            self.wf(),
        ensures
            match r {
                Ok(st) => {
                    &&& st.total_archives == self@.records.len()
                    &&& st.total_size as int == clamp_u64(sum_sizes(self@.records))
                    &&& st.expired_count as int == count_expired(self@.records, now as int)
                    &&& st.active_count as int == self@.records.len() - count_expired(
                        self@.records,
                        now as int,
                    )
                    &&& st.avg_retention_days as int == (if self@.records.len() == 0 {
                        0int
                    } else {
                        (sum_retention(self@.records) / (self@.records.len() as int)) / 86400
                    })
                },
                Err(_) => false,
            },
    {
        let n = self.records.len();
        let mut size_acc: u64 = 0;
        let mut expired_acc: usize = 0;
        let mut ret_acc: u128 = 0;
        let mut i: usize = 0;
        while i < n
            invariant
                self.wf(),
                n == self@.records.len(),
                i <= n,
                size_acc as int == clamp_u64(sum_sizes(self@.records.subrange(0, i as int))),
                expired_acc as int == count_expired(
                    self@.records.subrange(0, i as int),
                    now as int,
                ),
                expired_acc <= i,
                ret_acc as int == sum_retention(self@.records.subrange(0, i as int)),
                ret_acc as int <= (i as int) * (i64::MAX as int),
            decreases n - i,
        {
            let rec = &self.records[i];
            let ghost prefix = self@.records.subrange(0, i as int);
            let ghost prefix1 = self@.records.subrange(0, i + 1 as int);
            proof {
                assert(prefix1 =~= prefix.push(self@.records[i as int]));
                assert(prefix1.drop_last() =~= prefix);
            }
            let s: u64 = match rec.file.metadata.size {
                Some(s) => s,
                None => 0,
            };
            if u64::MAX - size_acc < s {
                size_acc = u64::MAX;
            } else {
                size_acc = size_acc + s;
            }
            if expired_strict_exec(&rec.file, now) {
                expired_acc = expired_acc + 1;
            }
            proof {
                lemma_ret_acc_step(
                    i as int,
                    n as int,
                    ret_acc as int,
                    self@.records[i as int].file.retention_period,
                );
            }
            ret_acc = ret_acc + rec.file.retention_period as u128;
            i = i + 1;
        }
        proof {
            assert(self@.records.subrange(0, n as int) =~= self@.records);
        }
        let avg_days: u64 = if n == 0 {
            0
        } else {
            proof {
                lemma_avg_bounds(ret_acc as int, n as int, i64::MAX as int);
            }
            let avg_sec: u128 = ret_acc / (n as u128);
            (avg_sec / 86400) as u64
        };
        Ok(
            ArchiveStatistics {
                total_archives: n,
                total_size: size_acc,
                expired_count: expired_acc,
                active_count: n - expired_acc,
                avg_retention_days: avg_days,
            },
        )
    }
}

/// Strict expiry test, free of overflow by widening.
fn expired_strict_exec(f: &ArchivedFile, now: i64) -> (r: bool)
    ensures
        r == spec_expired_strict(f@, now as int),
{
    now as i128 - f.archive_date as i128 > f.retention_period as i128
}

/// One accumulation step stays within `u128` and within `(i + 1)`
/// windows of the largest possible size.
proof fn lemma_ret_acc_step(i: int, n: int, acc: int, ret: int)
    by (nonlinear_arith)
    requires
        0 <= i < n,
        n <= 0xffff_ffff_ffff_ffff,
        0 <= acc <= i * 0x7fff_ffff_ffff_ffff,
        0 <= ret <= 0x7fff_ffff_ffff_ffff,
    ensures
        acc + ret <= (i + 1) * 0x7fff_ffff_ffff_ffff,
        acc + ret <= u128::MAX,
{
}

/// An average of values bounded by `m` is bounded by `m`.
proof fn lemma_avg_bounds(acc: int, n: int, m: int)
    by (nonlinear_arith)
    requires
        0 < n,
        0 <= m,
        0 <= acc <= n * m,
    ensures
        0 <= acc / n <= m,
{
}

/// A fresh vector holding the same bytes.
fn copy_bytes(v: &[u8]) -> (r: Vec<u8>)
    ensures
        r@ == v@,
{
    let n = v.len();
    let mut out: Vec<u8> = Vec::new();
    let mut i: usize = 0;
    while i < n
        invariant
            n == v@.len(),
            i <= n,
            out@ =~= v@.subrange(0, i as int),
        decreases n - i,
    {
        out.push(v[i]);
        proof {
            assert(v@.subrange(0, i + 1 as int) =~= v@.subrange(0, i as int).push(v@[i as int]));
        }
        i = i + 1;
    }
    proof {
        assert(v@.subrange(0, n as int) =~= v@);
    }
    out
}

} // verus!
