//! The archive service: the single façade that front ends call.
//!
//! File reads and writes stay outside the library: the shell around it
//! reads the source file and hands the bytes (and file times) to
//! `store`, and writes the bytes that `restore` returns to the path
//! that `restore` resolved. Every operation that depends on the clock
//! takes the current instant as an argument.

use vstd::prelude::*;
use vstd::string::StringExecFns;

use crate::db::{
    clamp_u64, count_expired, file_views, has_id, has_name_date, index_of_id, matching_files,
    record_with_id, sorted_by_date_desc, stored_files, sum_retention, sum_sizes, wf_view,
    ArchiveDb, ArchiveDbView, ArchiveStatistics, StoredRecordView,
};
use crate::errors::ArchiveError;
use crate::hashing;
use crate::record::{ArchiveMetadata, ArchivedFile, ArchivedFileView};
use crate::retention::{clamp_i64, spec_eligible, spec_expiry, RetentionInfo};

verus! {

/// Scan a path from its end: the format tag is what follows the last
/// `'.'` of the file name, provided that dot is neither the first
/// character of the name nor missing; otherwise "unknown".
pub open spec fn ext_scan(path: Seq<char>, acc: Seq<char>) -> Seq<char>
    decreases path.len(),
{
    if path.len() == 0 {
        "unknown"@
    } else if path.last() == '/' {
        "unknown"@
    } else if path.last() == '.' {
        if path.len() >= 2 && path[path.len() - 2] != '/' {
            acc
        } else {
            "unknown"@
        }
    } else {
        ext_scan(path.drop_last(), seq![path.last()] + acc)
    }
}

/// The format tag derived from a path, e.g. "json", or "unknown" when
/// the file name carries no extension.
pub open spec fn spec_format_of(path: Seq<char>) -> Seq<char> {
    ext_scan(path, Seq::empty())
}

/// Derive the format tag from a path's extension.
pub fn format_from_path(path: &str) -> (r: String)
    ensures
        r@ == spec_format_of(path@),
{
    let n = path.unicode_len();
    let mut j: usize = n;
    proof {
        assert(path@.subrange(0, n as int) =~= path@);
        assert(path@.subrange(n as int, n as int) =~= Seq::<char>::empty());
    }
    while j > 0
        invariant
            n == path@.len(),
            j <= n,
            spec_format_of(path@) == ext_scan(path@.subrange(0, j as int), path@.subrange(j as int, n as int)),
        decreases j,
    {
        let c = path.get_char(j - 1);
        proof {
            let pre = path@.subrange(0, j as int);
            assert(pre.last() == path@[j - 1]);
            assert(pre.drop_last() =~= path@.subrange(0, j - 1));
            assert(seq![path@[j - 1]] + path@.subrange(j as int, n as int) =~= path@.subrange(
                j - 1,
                n as int,
            ));
        }
        if c == '/' {
            return String::from_str("unknown");
        }
        if c == '.' {
            if j >= 2 && path.get_char(j - 2) != '/' {
                let ext = path.substring_char(j, n);
                return String::from_str(ext);
            } else {
                return String::from_str("unknown");
            }
        }
        j = j - 1;
    }
    proof {
        assert(path@.subrange(0, 0) =~= Seq::<char>::empty());
    }
    String::from_str("unknown")
}

/// Where a restore writes: the explicit output path when one is given
/// (with the record's name appended when that path is a directory),
/// else the record's original path.
pub open spec fn resolve_restore_path(
    name: Seq<char>,
    original: Seq<char>,
    output: Option<Seq<char>>,
    output_is_dir: bool,
) -> Seq<char> {
    match output {
        Some(p) => if output_is_dir {
            joined_path(p, name)
        } else {
            p
        },
        None => original,
    }
}

/// A directory and a file name joined with `'/'`, without doubling a
/// trailing separator.
pub open spec fn joined_path(dir: Seq<char>, name: Seq<char>) -> Seq<char> {
    if dir.len() > 0 && dir.last() == '/' {
        dir + name
    } else {
        dir + seq!['/'] + name
    }
}

/// Join a directory and a file name with `'/'`.
fn join_path(dir: &str, name: &str) -> (r: String)
    ensures
        r@ == joined_path(dir@, name@),
{
    let n = dir.unicode_len();
    let mut out = String::from_str(dir);
    if n == 0 || dir.get_char(n - 1) != '/' {
        proof {
            reveal_strlit("/");
        }
        out.append("/");
        proof {
            assert(out@ =~= dir@ + seq!['/']);
        }
    }
    out.append(name);
    out
}

/// The reason stored for a record: the given text, or a placeholder
/// when none was given.
pub open spec fn spec_reason_of(reason: Option<String>) -> Seq<char> {
    match reason {
        Some(r) => r@,
        None => "No reason provided"@,
    }
}

/// High-level archive operations over an [`ArchiveDb`].
pub struct ArchiveService {
    db: ArchiveDb,
}

impl View for ArchiveService {
    type V = ArchiveDbView;

    closed spec fn view(&self) -> ArchiveDbView {
        self.db@
    }
}

impl ArchiveService {
    /// The service's store is well-formed.
    pub open spec fn wf(&self) -> bool {
        wf_view(self@)
    }

    /// A service over an empty store.
    pub fn new() -> (r: Self)
        ensures
            r.wf(),
            r@.records =~= Seq::<StoredRecordView>::empty(),
            r@.next_id == 1,
    {
        ArchiveService { db: ArchiveDb::new() }
    }

    /// Archive `content` read from `path` under `name` at instant
    /// `now`, keeping it for `retention_days` days. `created` and
    /// `modified` are the source file's times, when known. Returns the
    /// id of the new record.
    pub fn store(
        &mut self,
        name: &str,
        path: &str,
        content: &[u8],
        created: Option<u64>,
        modified: Option<u64>,
        retention_days: i64,
        reason: Option<String>,
        now: i64,
    ) -> (r: Result<i64, ArchiveError>)
        requires
            old(self).wf(),
            0 <= retention_days,
            retention_days * 86400 <= i64::MAX,
        ensures
            final(self).wf(),
            match r {
                Ok(id) => {
                    &&& !has_name_date(old(self)@.records, name@, now as int)
                    &&& old(self)@.next_id < i64::MAX
                    &&& id == old(self)@.next_id
                    &&& final(self)@.next_id == old(self)@.next_id + 1
                    &&& final(self)@.records == old(self)@.records.push(
                        StoredRecordView {
                            file: ArchivedFileView {
                                id: id as int,
                                name: name@,
                                original_path: path@,
                                format: spec_format_of(path@),
                                content_hash: hashing::hash_hex_of(content@),
                                archive_date: now as int,
                                retention_period: retention_days * 86400,
                                reason: spec_reason_of(reason),
                                metadata: ArchiveMetadata {
                                    size: Some(content@.len() as u64),
                                    created,
                                    modified,
                                },
                            },
                            content: content@,
                        },
                    )
                },
                Err(e) => {
                    &&& e matches ArchiveError::DbError(_)
                    &&& (has_name_date(old(self)@.records, name@, now as int) || old(
                        self,
                    )@.next_id == i64::MAX)
                    &&& final(self)@ == old(self)@
                },
            },
    {
        let format = format_from_path(path);
        let reason_text = match reason {
            Some(r) => r,
            None => String::from_str("No reason provided"),
        };
        let metadata = ArchiveMetadata {
            size: Some(content.len() as u64),
            created,
            modified,
        };
        self.db.archive_file(
            name,
            path,
            content,
            format.as_str(),
            retention_days,
            reason_text.as_str(),
            metadata,
            now,
        )
    }

    /// Re-insert a record persisted earlier, keeping its id; see
    /// [`ArchiveDb::load_record`].
    pub fn load_record(&mut self, file: ArchivedFile, content: Vec<u8>) -> (r: Result<
        (),
        ArchiveError,
    >)
        requires
            old(self).wf(),
        ensures
            final(self).wf(),
            match r {
                Ok(()) => {
                    &&& !has_id(old(self)@.records, file@.id)
                    &&& final(self)@.records == old(self)@.records.push(
                        StoredRecordView { file: file@, content: content@ },
                    )
                },
                Err(e) => {
                    &&& e matches ArchiveError::DbError(_)
                    &&& final(self)@ == old(self)@
                },
            },
    {
        self.db.load_record(file, content)
    }

    /// Fetch the record with `id` and its payload, and resolve the
    /// path a restore should write to. `output_is_dir` tells whether
    /// the given output path names an existing directory.
    pub fn restore(&self, id: i64, output_path: Option<String>, output_is_dir: bool) -> (r: Result<
        (String, Vec<u8>),
        ArchiveError,
    >)
        requires
            self.wf(),
        ensures
            match r {
                Ok((rp, c)) => {
                    &&& has_id(self@.records, id as int)
                    &&& rp@ == resolve_restore_path(
                        record_with_id(self@.records, id as int).file.name,
                        record_with_id(self@.records, id as int).file.original_path,
                        match output_path {
                            Some(p) => Some(p@),
                            None => None,
                        },
                        output_is_dir,
                    )
                    &&& c@ == record_with_id(self@.records, id as int).content
                },
                Err(e) => {
                    &&& e matches ArchiveError::NotFound(missing) && missing == id
                    &&& !has_id(self@.records, id as int)
                },
            },
    {
        let (file, content) = match self.db.restore_file(id) {
            Ok(pair) => pair,
            Err(e) => {
                return Err(e);
            },
        };
        let resolved = match output_path {
            Some(p) => {
                if output_is_dir {
                    join_path(p.as_str(), file.name.as_str())
                } else {
                    p
                }
            },
            None => file.original_path,
        };
        Ok((resolved, content))
    }

    /// All records, most recent first.
    pub fn list(&self) -> (r: Result<Vec<ArchivedFile>, ArchiveError>)
        requires
            self.wf(),
        ensures
            match r {
                Ok(v) => {
                    &&& file_views(v@).to_multiset() == stored_files(self@.records).to_multiset()
                    &&& sorted_by_date_desc(file_views(v@))
                    &&& v@.len() == self@.records.len()
                },
                Err(_) => false,
            },
    {
        self.db.list_archives()
    }

    /// The records whose name, path or reason contains the query, case
    /// folded; most recent first.
    pub fn search(&self, query: &str) -> (r: Result<Vec<ArchivedFile>, ArchiveError>)
        requires
            self.wf(),
        ensures
            match r {
                Ok(v) => {
                    &&& file_views(v@).to_multiset() == matching_files(
                        self@.records,
                        query@,
                    ).to_multiset()
                    &&& sorted_by_date_desc(file_views(v@))
                },
                Err(_) => false,
            },
    {
        self.db.search_archives(query)
    }

    /// Remove every record whose retention window has strictly elapsed
    /// at `now`; returns how many were removed.
    pub fn cleanup(&mut self, now: i64) -> (r: Result<usize, ArchiveError>)
        requires
            old(self).wf(),
        ensures
            final(self).wf(),
            final(self)@.next_id == old(self)@.next_id,
            final(self)@.records == crate::db::retained_after_cleanup(
                old(self)@.records,
                now as int,
            ),
            match r {
                Ok(cnt) => cnt == count_expired(old(self)@.records, now as int),
                Err(_) => false,
            },
    {
        self.db.cleanup_expired(now)
    }

    /// Whether the record with `id` may be deleted at instant `now`.
    pub fn can_delete(&self, id: i64, now: i64) -> (r: Result<bool, ArchiveError>)
        requires
            self.wf(),
        ensures
            match r {
                Ok(b) => {
                    &&& has_id(self@.records, id as int)
                    &&& b == spec_eligible(
                        record_with_id(self@.records, id as int).file.archive_date,
                        record_with_id(self@.records, id as int).file.retention_period,
                        now as int,
                    )
                },
                Err(e) => {
                    &&& e matches ArchiveError::NotFound(missing) && missing == id
                    &&& !has_id(self@.records, id as int)
                },
            },
    {
        self.db.can_delete(id, now)
    }

    /// Delete the record with `id`, only when its retention window has
    /// elapsed at `now`. A refused delete leaves the store unchanged.
    pub fn delete(&mut self, id: i64, now: i64) -> (r: Result<(), ArchiveError>)
        requires
            old(self).wf(),
        ensures
            final(self).wf(),
            final(self)@.next_id == old(self)@.next_id,
            match r {
                Ok(()) => {
                    &&& has_id(old(self)@.records, id as int)
                    &&& spec_eligible(
                        record_with_id(old(self)@.records, id as int).file.archive_date,
                        record_with_id(old(self)@.records, id as int).file.retention_period,
                        now as int,
                    )
                    &&& final(self)@.records == old(self)@.records.remove(
                        index_of_id(old(self)@.records, id as int),
                    )
                },
                Err(e) => {
                    &&& final(self)@ == old(self)@
                    &&& match e {
                        ArchiveError::NotFound(missing) => missing == id && !has_id(
                            old(self)@.records,
                            id as int,
                        ),
                        ArchiveError::RetentionActive => has_id(old(self)@.records, id as int)
                            && !spec_eligible(
                            record_with_id(old(self)@.records, id as int).file.archive_date,
                            record_with_id(old(self)@.records, id as int).file.retention_period,
                            now as int,
                        ),
                        _ => false,
                    }
                },
            },
    {
        let eligible = match self.db.can_delete(id, now) {
            Ok(b) => b,
            Err(e) => {
                return Err(e);
            },
        };
        if eligible {
            self.db.delete_archive(id, now)
        } else {
            Err(ArchiveError::RetentionActive)
        }
    }

    /// The retention facts of the record with `id` at instant `now`.
    pub fn get_retention_info(&self, id: i64, now: i64) -> (r: Result<RetentionInfo, ArchiveError>)
        requires
            self.wf(),
        ensures
            match r {
                Ok(info) => {
                    &&& has_id(self@.records, id as int)
                    &&& info.archive_date == record_with_id(
                        self@.records,
                        id as int,
                    ).file.archive_date
                    &&& info.retention_period == record_with_id(
                        self@.records,
                        id as int,
                    ).file.retention_period
                    &&& match info.time_remaining {
                        Some(left) => !spec_eligible(
                            info.archive_date as int,
                            info.retention_period as int,
                            now as int,
                        ) && left as int == clamp_i64(
                            spec_expiry(info.archive_date as int, info.retention_period as int)
                                - now,
                        ),
                        None => spec_eligible(
                            info.archive_date as int,
                            info.retention_period as int,
                            now as int,
                        ),
                    }
                    &&& info.can_delete == spec_eligible(
                        info.archive_date as int,
                        info.retention_period as int,
                        now as int,
                    )
                },
                Err(e) => {
                    &&& e matches ArchiveError::NotFound(missing) && missing == id
                    &&& !has_id(self@.records, id as int)
                },
            },
    {
        let file = match self.db.get_archive_info(id) {
            Ok(f) => f,
            Err(e) => {
                return Err(e);
            },
        };
        let time_remaining = crate::retention::remaining(
            file.archive_date,
            file.retention_period,
            now,
        );
        Ok(
            RetentionInfo {
                archive_date: file.archive_date,
                retention_period: file.retention_period,
                time_remaining,
                can_delete: time_remaining.is_none(),
            },
        )
    }

    /// Overwrite the retention window of the record with `id` with
    /// `new_retention_days` days.
    pub fn update_retention(&mut self, id: i64, new_retention_days: i64) -> (r: Result<
        (),
        ArchiveError,
    >)
        requires
            old(self).wf(),
            0 <= new_retention_days,
            new_retention_days * 86400 <= i64::MAX,
        ensures
            final(self).wf(),
            final(self)@.next_id == old(self)@.next_id,
            match r {
                Ok(()) => {
                    &&& has_id(old(self)@.records, id as int)
                    &&& final(self)@.records == old(self)@.records.update(
                        index_of_id(old(self)@.records, id as int),
                        StoredRecordView {
                            file: ArchivedFileView {
                                retention_period: new_retention_days * 86400,
                                ..record_with_id(old(self)@.records, id as int).file
                            },
                            content: record_with_id(old(self)@.records, id as int).content,
                        },
                    )
                },
                Err(e) => {
                    &&& e matches ArchiveError::NotFound(missing) && missing == id
                    &&& !has_id(old(self)@.records, id as int)
                    &&& final(self)@ == old(self)@
                },
            },
    {
        self.db.update_retention_period(id, new_retention_days * 86400)
    }

    /// Aggregate statistics at instant `now`.
    pub fn get_statistics(&self, now: i64) -> (r: Result<ArchiveStatistics, ArchiveError>)
        requires
            self.wf(),
        ensures
            match r {
                Ok(st) => {
                    &&& st.total_archives == self@.records.len()
                    &&& st.total_size as int == clamp_u64(sum_sizes(self@.records))
                    &&& st.expired_count as int == count_expired(self@.records, now as int)
                    &&& st.active_count as int == self@.records.len() - count_expired(
                        self@.records,
                        now as int,
                    )
                    &&& st.avg_retention_days as int == (if self@.records.len() == 0 {
                        0int
                    } else {
                        (sum_retention(self@.records) / (self@.records.len() as int)) / 86400
                    })
                },
                Err(_) => false,
            },
    {
        self.db.get_statistics(now)
    }
}

} // verus!
