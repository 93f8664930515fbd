//! Display projection: mapping a stored record into a
//! presentation-ready view, parameterized by the consuming surface.
//!
//! Byte counts become human units (binary 1024-based, two decimals
//! above a kilobyte, ties rounded up), elapsed time becomes the
//! coarsest meaningful unit, instants become `YYYY-MM-DD HH:MM:SS`
//! text, and long names and paths are truncated per surface. Absent or
//! unusable metadata degrades to absent fields; nothing here fails.

use vstd::prelude::*;
use vstd::string::StringExecFns;

use crate::record::{ArchiveMetadata, ArchivedFile};
use crate::retention::{clamp_i64, spec_eligible, spec_expiry};
use crate::text::{dec_digits, dec_digits_signed};

verus! {

/// The surface a record is rendered for.
#[derive(Debug, Clone, Copy, PartialEq, Eq)]
pub enum UiType {
    /// The command line, terse or detailed.
    Cli { detailed: bool },
    /// The interactive terminal UI.
    Tui,
    /// A graphical surface, which truncates on its own.
    Gui,
}

/// Per-surface maximum lengths for the name and path columns.
#[derive(Debug, Clone, Copy, PartialEq, Eq)]
pub struct TruncateLengths {
    pub name: usize,
    pub path: usize,
}

impl UiType {
    /// The truncation limits of this surface; `None` leaves truncation
    /// to the caller.
    pub fn get_truncate_lengths(&self) -> (r: Option<TruncateLengths>)
        ensures
            r == (match self {
                UiType::Cli { detailed: true } => Some(TruncateLengths { name: 30, path: 40 }),
                UiType::Cli { detailed: false } => None::<TruncateLengths>,
                UiType::Tui => Some(TruncateLengths { name: 20, path: 30 }),
                UiType::Gui => None::<TruncateLengths>,
            }),
    {
        match self {
            UiType::Cli { detailed: true } => Some(TruncateLengths { name: 30, path: 40 }),
            UiType::Cli { detailed: false } => None,
            UiType::Tui => Some(TruncateLengths { name: 20, path: 30 }),
            UiType::Gui => None,
        }
    }

    /// The name-column limit of this surface.
    pub open spec fn spec_name_limit(self) -> Option<usize> {
        match self {
            UiType::Cli { detailed } => if detailed {
                Some(30usize)
            } else {
                None
            },
            UiType::Tui => Some(20usize),
            UiType::Gui => None,
        }
    }

    /// The path-column limit of this surface.
    pub open spec fn spec_path_limit(self) -> Option<usize> {
        match self {
            UiType::Cli { detailed } => if detailed {
                Some(40usize)
            } else {
                None
            },
            UiType::Tui => Some(30usize),
            UiType::Gui => None,
        }
    }
}

/// A record rendered for one surface.
#[derive(Debug)]
pub struct ArchiveDisplayInfo {
    pub id: i64,
    pub name: String,
    pub path: String,
    pub format: String,
    pub age: String,
    pub status: String,
    pub reason: Option<String>,
    pub size: Option<String>,
    pub created: Option<String>,
    pub modified: Option<String>,
    pub retention_remaining: Option<String>,
    pub metadata: ArchiveMetadata,
}

/// Two-decimal rendering of `size / unit`, rounded to the nearest
/// hundredth with ties up: "12.50" for 12800 / 1024.
pub open spec fn spec_two_decimals(size: int, unit: int) -> Seq<char>
    recommends
        0 < unit,
        0 <= size,
{
    let h = (size * 100 + unit / 2) / unit;
    dec_digits((h / 100) as nat) + seq!['.'] + (if h % 100 < 10 {
        seq!['0'] + dec_digits((h % 100) as nat)
    } else {
        dec_digits((h % 100) as nat)
    })
}

/// Human rendering of a byte count: "n B" below a kilobyte, else two
/// decimals of the binary unit, "KB", "MB" or "GB".
pub open spec fn spec_format_size(size: int) -> Seq<char> {
    if size >= 0x40000000 {
        spec_two_decimals(size, 0x40000000) + " GB"@
    } else if size >= 0x100000 {
        spec_two_decimals(size, 0x100000) + " MB"@
    } else if size >= 0x400 {
        spec_two_decimals(size, 0x400) + " KB"@
    } else {
        dec_digits(size as nat) + " B"@
    }
}

/// Signed division rounding toward zero, as the `/` of the machine.
pub open spec fn trunc_div(a: int, b: int) -> int
    recommends
        0 < b,
{
    if a >= 0 {
        a / b
    } else {
        -((-a) / b)
    }
}

/// A duration in seconds rendered in its coarsest meaningful unit:
/// whole days if at least one, else whole hours if at least one, else
/// whole minutes.
pub open spec fn spec_format_duration(dur: int) -> Seq<char> {
    if trunc_div(dur, 86400) > 0 {
        dec_digits_signed(trunc_div(dur, 86400)) + " days"@
    } else if trunc_div(dur, 3600) > 0 {
        dec_digits_signed(trunc_div(dur, 3600)) + " hours"@
    } else {
        dec_digits_signed(trunc_div(dur, 60)) + " minutes"@
    }
}

/// The age of an instant relative to `now`.
pub open spec fn spec_format_age(date: int, now: int) -> Seq<char> {
    spec_format_duration(now - date)
}

/// The rendering of the timestamp `ts` by chrono under the format
/// `%Y-%m-%d %H:%M:%S`: a pure function of the timestamp for every
/// instant up to the end of year 9999.
pub uninterp spec fn utc_text_of(ts: u64) -> Seq<char>;

/// The last second of year 9999, the latest instant rendered.
pub open spec fn spec_max_timestamp() -> int {
    253402300799
}

/// Out-of-range timestamps fall back to the (clamped) current instant.
pub open spec fn spec_clamp_timestamp(now: int) -> u64 {
    if now < 0 {
        0u64
    } else if now > spec_max_timestamp() {
        253402300799u64
    } else {
        now as u64
    }
}

/// `YYYY-MM-DD HH:MM:SS` text of a timestamp; an unrenderable
/// timestamp is replaced by the current instant, as the stored
/// behaviour has it.
pub open spec fn spec_format_timestamp(ts: int, now: int) -> Seq<char> {
    if 0 <= ts <= spec_max_timestamp() {
        utc_text_of(ts as u64)
    } else {
        utc_text_of(spec_clamp_timestamp(now))
    }
}

/// Truncation to a limit: over-long text is cut three short of the
/// limit and marked with an ellipsis.
pub open spec fn spec_truncate(s: Seq<char>, max_len: Option<usize>) -> Seq<char> {
    match max_len {
        Some(m) => if s.len() > m {
            s.subrange(
                0,
                if m >= 3 {
                    (m - 3) as int
                } else {
                    0
                },
            ) + " ..."@
        } else {
            s
        },
        None => s,
    }
}

/// Relies on `chrono::DateTime::from_timestamp` and chrono's
/// `format("%Y-%m-%d %H:%M:%S")`: for any timestamp up to the end of
/// year 9999 the conversion succeeds and the text depends on the
/// timestamp alone.
#[verifier::external_body]
fn utc_datetime_text(ts: u64) -> (r: String)
    requires
        ts <= 253402300799,
    ensures
        r@ == utc_text_of(ts),
{
    let dt = chrono::DateTime::<chrono::Utc>::from_timestamp(ts as i64, 0).unwrap();
    dt.format("%Y-%m-%d %H:%M:%S").to_string()
}

/// Stateless rendering helpers shared by the surfaces.
#[derive(Debug, Clone, Copy, PartialEq, Eq)]
pub struct DefaultFormatter;

impl DefaultFormatter {
    /// Render a byte count in human units.
    pub fn format_size(&self, size: u64) -> (r: String)
        ensures
            r@ == spec_format_size(size as int),
    {
        let gb: u64 = 0x40000000;
        let mb: u64 = 0x100000;
        let kb: u64 = 0x400;
        if size >= gb {
            two_decimals(size, gb, " GB")
        } else if size >= mb {
            two_decimals(size, mb, " MB")
        } else if size >= kb {
            two_decimals(size, kb, " KB")
        } else {
            let mut out = crate::text::u64_to_string(size);
            out.append(" B");
            out
        }
    }

    /// Render the age of `date` relative to `now` in its coarsest
    /// meaningful unit.
    pub fn format_age(&self, date: i64, now: i64) -> (r: String)
        ensures
            r@ == spec_format_age(date as int, now as int),
    {
        format_duration(now as i128 - date as i128)
    }

    /// Render a timestamp as `YYYY-MM-DD HH:MM:SS`; timestamps past
    /// year 9999 fall back to the current instant.
    pub fn format_timestamp(&self, ts: u64, now: i64) -> (r: String)
        ensures
            r@ == spec_format_timestamp(ts as int, now as int),
    {
        if ts <= 253402300799 {
            utc_datetime_text(ts)
        } else {
            let clamped: u64 = if now < 0 {
                0
            } else if now > 253402300799 {
                253402300799
            } else {
                now as u64
            };
            utc_datetime_text(clamped)
        }
    }

    /// Truncate to a limit, marking cut text with an ellipsis.
    pub fn truncate(&self, s: &str, max_len: Option<usize>) -> (r: String)
        ensures
            r@ == spec_truncate(s@, max_len),
    {
        match max_len {
            Some(m) => {
                let n = s.unicode_len();
                if n > m {
                    let cut = if m >= 3 {
                        m - 3
                    } else {
                        0
                    };
                    let mut out = String::from_str(s.substring_char(0, cut));
                    out.append(" ...");
                    out
                } else {
                    String::from_str(s)
                }
            },
            None => String::from_str(s),
        }
    }
}

/// Two decimals of `size / unit` followed by the unit's label.
fn two_decimals(size: u64, unit: u64, label: &str) -> (r: String)
    requires
        0 < unit,
    ensures
        r@ == spec_two_decimals(size as int, unit as int) + label@,
{
    let h: u128 = ((size as u128) * 100 + (unit / 2) as u128) / (unit as u128);
    let int_part: u128 = h / 100;
    let frac: u128 = h % 100;
    let mut out = crate::text::u128_to_string(int_part);
    crate::text::string_push(&mut out, '.');
    if frac < 10 {
        crate::text::string_push(&mut out, '0');
    }
    let frac_digits = crate::text::u128_to_string(frac);
    out.append(frac_digits.as_str());
    out.append(label);
    proof {
        assert(out@ =~= spec_two_decimals(size as int, unit as int) + label@);
    }
    out
}

/// A signed duration in seconds, rendered in its coarsest unit.
fn format_duration(dur: i128) -> (r: String)
    requires
        -0x1_0000_0000_0000_0000 <= dur <= 0x1_0000_0000_0000_0000,
    ensures
        r@ == spec_format_duration(dur as int),
{
    let neg = dur < 0;
    let mag: u128 = if neg {
        (-dur) as u128
    } else {
        dur as u128
    };
    let days_mag = mag / 86400;
    let hours_mag = mag / 3600;
    let minutes_mag = mag / 60;
    let days: i64 = if neg {
        -(days_mag as i64)
    } else {
        days_mag as i64
    };
    let hours: i64 = if neg {
        -(hours_mag as i64)
    } else {
        hours_mag as i64
    };
    let minutes: i64 = if neg {
        -(minutes_mag as i64)
    } else {
        minutes_mag as i64
    };
    let mut out: String;
    if days > 0 {
        out = crate::text::i64_to_string(days);
        out.append(" days");
    } else if hours > 0 {
        out = crate::text::i64_to_string(hours);
        out.append(" hours");
    } else {
        out = crate::text::i64_to_string(minutes);
        out.append(" minutes");
    }
    out
}

impl ArchivedFile {
    /// "Expired" once delete-eligible, else the remaining time in its
    /// coarsest unit followed by "remaining".
    pub open spec fn spec_status(&self, now: int) -> Seq<char> {
        if spec_eligible(self@.archive_date, self@.retention_period, now) {
            "Expired"@
        } else {
            spec_format_duration(
                clamp_i64(spec_expiry(self@.archive_date, self@.retention_period) - now),
            ) + " remaining"@
        }
    }

    /// The status line of this record at instant `now`.
    pub fn get_status_string(&self, now: i64) -> (r: String)
        ensures
            r@ == self.spec_status(now as int),
    {
        match crate::retention::remaining(self.archive_date, self.retention_period, now) {
            None => String::from_str("Expired"),
            Some(left) => {
                let mut out = format_duration(left as i128);
                out.append(" remaining");
                out
            },
        }
    }

    /// Days left before expiry, as "n days"; `None` once expired.
    pub open spec fn spec_retention_remaining(&self, now: int) -> Option<Seq<char>> {
        if spec_eligible(self@.archive_date, self@.retention_period, now) {
            None
        } else {
            Some(
                dec_digits(
                    (clamp_i64(spec_expiry(self@.archive_date, self@.retention_period) - now)
                        / 86400) as nat,
                ) + " days"@,
            )
        }
    }

    /// The remaining retention of this record at instant `now`.
    pub fn get_retention_remaining(&self, now: i64) -> (r: Option<String>)
        ensures
            match r {
                Some(s) => self.spec_retention_remaining(now as int) matches Some(t) && s@ == t,
                None => self.spec_retention_remaining(now as int) is None,
            },
    {
        match crate::retention::remaining(self.archive_date, self.retention_period, now) {
            None => None,
            Some(left) => {
                let days: u64 = (left as u64) / 86400;
                let mut out = crate::text::u64_to_string(days);
                out.append(" days");
                Some(out)
            },
        }
    }

    /// Project this record for one surface at instant `now`.
    pub fn to_display_info(&self, ui_type: UiType, now: i64) -> (r: ArchiveDisplayInfo)
        ensures
            r.id == self.id,
            r.name@ == spec_truncate(self.name@, ui_type.spec_name_limit()),
            r.path@ == spec_truncate(self.original_path@, ui_type.spec_path_limit()),
            r.format@ == self.format@,
            r.age@ == spec_format_age(self.archive_date as int, now as int),
            r.status@ == self.spec_status(now as int),
            match r.reason {
                Some(t) => self.reason@.len() > 0 && t@ == self.reason@,
                None => self.reason@.len() == 0,
            },
            match (self.metadata.size, r.size) {
                (Some(s), Some(t)) => t@ == spec_format_size(s as int),
                (None, None) => true,
                _ => false,
            },
            match (self.metadata.created, r.created) {
                (Some(ts), Some(t)) => t@ == spec_format_timestamp(ts as int, now as int),
                (None, None) => true,
                _ => false,
            },
            match (self.metadata.modified, r.modified) {
                (Some(ts), Some(t)) => t@ == spec_format_timestamp(ts as int, now as int),
                (None, None) => true,
                _ => false,
            },
            match r.retention_remaining {
                Some(s) => self.spec_retention_remaining(now as int) matches Some(t) && s@ == t,
                None => self.spec_retention_remaining(now as int) is None,
            },
            r.metadata == self.metadata,
    {
        let formatter = DefaultFormatter;
        let truncate_lengths = ui_type.get_truncate_lengths();
        let (name_limit, path_limit): (Option<usize>, Option<usize>) = match truncate_lengths {
            Some(tl) => (Some(tl.name), Some(tl.path)),
            None => (None, None),
        };
        let size = match self.metadata.size {
            Some(s) => Some(formatter.format_size(s)),
            None => None,
        };
        let created = match self.metadata.created {
            Some(ts) => Some(formatter.format_timestamp(ts, now)),
            None => None,
        };
        let modified = match self.metadata.modified {
            Some(ts) => Some(formatter.format_timestamp(ts, now)),
            None => None,
        };
        let reason = if self.reason.as_str().unicode_len() == 0 {
            None
        } else {
            Some(self.reason.clone())
        };
        ArchiveDisplayInfo {
            id: self.id,
            name: formatter.truncate(self.name.as_str(), name_limit),
            path: formatter.truncate(self.original_path.as_str(), path_limit),
            format: self.format.clone(),
            age: formatter.format_age(self.archive_date, now),
            status: self.get_status_string(now),
            reason,
            size,
            created,
            modified,
            retention_remaining: self.get_retention_remaining(now),
            metadata: self.metadata,
        }
    }
}

} // verus!
