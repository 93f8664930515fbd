//! The archive record: one stored snapshot of a file, plus the
//! spec-level image that contracts are stated over.

use vstd::prelude::*;

verus! {

/// Derived facts captured at archive time and carried beside the
/// record: the byte size of the payload and the source file's creation
/// and modification times (seconds of Unix time). Every field may be
/// absent; consumers degrade gracefully.
#[derive(Debug, Clone, Copy, PartialEq, Eq)]
pub struct ArchiveMetadata {
    /// Byte size of the archived payload.
    pub size: Option<u64>,
    /// Creation time of the source file.
    pub created: Option<u64>,
    /// Modification time of the source file.
    pub modified: Option<u64>,
}

/// Spec-level image of a record: strings as character sequences,
/// integers unbounded.
pub struct ArchivedFileView {
    pub id: int,
    pub name: Seq<char>,
    pub original_path: Seq<char>,
    pub format: Seq<char>,
    pub content_hash: Seq<char>,
    pub archive_date: int,
    pub retention_period: int,
    pub reason: Seq<char>,
    pub metadata: ArchiveMetadata,
}

/// One archived snapshot. The byte payload is stored beside the record
/// and is handed out only by restore.
#[derive(Debug)]
pub struct ArchivedFile {
    /// Unique id, assigned by the store on creation; never reused.
    pub id: i64,
    /// Display name; unique only in combination with `archive_date`.
    pub name: String,
    /// Source path at the time of archiving.
    pub original_path: String,
    /// Short format tag taken from the source file's extension, or
    /// "unknown" when the path has none.
    pub format: String,
    /// Lower-case hex digest of the payload at archive time.
    pub content_hash: String,
    /// When the snapshot was created, seconds of Unix time; immutable.
    pub archive_date: i64,
    /// The retention window in seconds; the one mutable field.
    pub retention_period: i64,
    /// Free-text justification; may be empty.
    pub reason: String,
    /// Facts captured at archive time.
    pub metadata: ArchiveMetadata,
}

impl View for ArchivedFile {
    type V = ArchivedFileView;

    open spec fn view(&self) -> ArchivedFileView {
        ArchivedFileView {
            id: self.id as int,
            name: self.name@,
            original_path: self.original_path@,
            format: self.format@,
            content_hash: self.content_hash@,
            archive_date: self.archive_date as int,
            retention_period: self.retention_period as int,
            reason: self.reason@,
            metadata: self.metadata,
        }
    }
}

impl ArchivedFile {
    /// A field-for-field copy of the record.
    pub fn duplicate(&self) -> (r: ArchivedFile)
        ensures
            r@ == self@,
    {
        ArchivedFile {
            id: self.id,
            name: self.name.clone(),
            original_path: self.original_path.clone(),
            format: self.format.clone(),
            content_hash: self.content_hash.clone(),
            archive_date: self.archive_date,
            retention_period: self.retention_period,
            reason: self.reason.clone(),
            metadata: self.metadata,
        }
    }
}

} // verus!
