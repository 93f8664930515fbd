//! Pure retention arithmetic.
//!
//! A record archived at `archive_date` (seconds of Unix time) with a
//! retention window of `retention_seconds` becomes delete-eligible at the
//! expiry instant `archive_date + retention_seconds`. These functions are
//! pure: they take the current time as an argument and touch no state.

use vstd::prelude::*;

verus! {

/// The expiry instant, as unbounded integer arithmetic.
pub open spec fn spec_expiry(archive_date: int, retention_seconds: int) -> int {
    archive_date + retention_seconds
}

/// Delete-eligibility: the retention window has fully elapsed.
pub open spec fn spec_eligible(archive_date: int, retention_seconds: int, now: int) -> bool {
    now >= archive_date + retention_seconds
}

/// Clamp an unbounded integer into the range of `i64`.
pub open spec fn clamp_i64(v: int) -> int {
    if v > i64::MAX {
        i64::MAX as int
    } else if v < i64::MIN {
        i64::MIN as int
    } else {
        v
    }
}

/// The expiry instant `archive_date + retention_seconds`, clamped into
/// `i64` should the sum leave its range.
pub fn expiry_instant(archive_date: i64, retention_seconds: i64) -> (r: i64)
    ensures
        r as int == clamp_i64(archive_date + retention_seconds),
{
    let wide: i128 = archive_date as i128 + retention_seconds as i128;
    if wide > i64::MAX as i128 {
        i64::MAX
    } else if wide < i64::MIN as i128 {
        i64::MIN
    } else {
        wide as i64
    }
}

/// Whether a record archived at `archive_date` with window
/// `retention_seconds` may be deleted at instant `now`.
pub fn is_delete_eligible(archive_date: i64, retention_seconds: i64, now: i64) -> (b: bool)
    ensures
        b == spec_eligible(archive_date as int, retention_seconds as int, now as int),
{
    now as i128 >= archive_date as i128 + retention_seconds as i128
}

/// Seconds left until expiry: `Some` while the window is still open
/// (clamped into `i64` in the degenerate overflowing case), `None` once
/// the record has expired.
pub fn remaining(archive_date: i64, retention_seconds: i64, now: i64) -> (r: Option<i64>)
    ensures
        match r {
            Some(left) => !spec_eligible(archive_date as int, retention_seconds as int, now as int)
                && left as int == clamp_i64(
                    spec_expiry(archive_date as int, retention_seconds as int) - now,
                ),
            None => spec_eligible(archive_date as int, retention_seconds as int, now as int),
        },
{
    let expiry: i128 = archive_date as i128 + retention_seconds as i128;
    if (now as i128) < expiry {
        let left: i128 = expiry - now as i128;
        if left > i64::MAX as i128 {
            Some(i64::MAX)
        } else {
            Some(left as i64)
        }
    } else {
        None
    }
}

/// Retention facts derived for one record at one instant; computed fresh
/// on each query, never persisted.
#[derive(Clone, Copy, Debug, PartialEq, Eq)]
pub struct RetentionInfo {
    /// When the record was archived, seconds of Unix time.
    pub archive_date: i64,
    /// The retention window, in seconds.
    pub retention_period: i64,
    /// Seconds left until expiry; `None` once expired.
    pub time_remaining: Option<i64>,
    /// Whether the record may be deleted now.
    pub can_delete: bool,
}

} // verus!
