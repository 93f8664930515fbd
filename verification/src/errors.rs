//! Error kinds of the archive subsystem. Every failure is returned to
//! the caller as one of these; nothing is swallowed or retried.

use vstd::prelude::*;
use vstd::string::StringExecFns;

verus! {

/// Failures of archive operations.
#[derive(Debug, Clone, PartialEq, Eq)]
pub enum ArchiveError {
    /// Underlying persistence failure: a constraint violation, a full
    /// store, or a storage fault, with a short description.
    DbError(String),
    /// File read or write failure during store or restore; raised by
    /// the I/O shell around the library, never by the library itself.
    IoError(String),
    /// No record with this id exists.
    NotFound(i64),
    /// Delete was attempted before the retention window elapsed.
    RetentionActive,
}

impl ArchiveError {
    /// The user-facing message for this error.
    pub open spec fn spec_message(&self) -> Seq<char> {
        match self {
            ArchiveError::DbError(m) => "Database error: "@ + m@,
            ArchiveError::IoError(m) => "IO error: "@ + m@,
            ArchiveError::NotFound(id) => "Archive not found: "@ + crate::text::dec_digits_signed(
                *id as int,
            ),
            ArchiveError::RetentionActive => "Retention period not expired"@,
        }
    }

    /// Render the error as a line of text.
    pub fn message(&self) -> (r: String)
        ensures
            r@ == self.spec_message(),
    {
        match self {
            ArchiveError::DbError(m) => {
                let mut s = String::from_str("Database error: ");
                s.append(m.as_str());
                s
            },
            ArchiveError::IoError(m) => {
                let mut s = String::from_str("IO error: ");
                s.append(m.as_str());
                s
            },
            ArchiveError::NotFound(id) => {
                let mut s = String::from_str("Archive not found: ");
                let digits = crate::text::i64_to_string(*id);
                s.append(digits.as_str());
                s
            },
            ArchiveError::RetentionActive => String::from_str("Retention period not expired"),
        }
    }
}

} // verus!
