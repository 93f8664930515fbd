//! Rendering: sizes, ages, timestamps, truncation, and the full
//! display projection.

use paramguard::display::{ArchiveDisplayInfo, DefaultFormatter, TruncateLengths, UiType};
use paramguard::record::{ArchiveMetadata, ArchivedFile};

#[test]
fn format_size_uses_binary_units() {
    let f = DefaultFormatter;
    assert_eq!(f.format_size(0), "0 B");
    assert_eq!(f.format_size(512), "512 B");
    assert_eq!(f.format_size(1023), "1023 B");
    assert_eq!(f.format_size(1024), "1.00 KB");
    assert_eq!(f.format_size(1025), "1.00 KB");
    assert_eq!(f.format_size(1536), "1.50 KB");
    assert_eq!(f.format_size(10 * 1024 + 256), "10.25 KB");
    assert_eq!(f.format_size(1024 * 1024), "1.00 MB");
    assert_eq!(f.format_size(5 * 1024 * 1024 + 512 * 1024), "5.50 MB");
    assert_eq!(f.format_size(1024 * 1024 * 1024), "1.00 GB");
    assert_eq!(f.format_size(2 * 1024 * 1024 * 1024 + 512 * 1024 * 1024), "2.50 GB");
    // The largest representable count still renders exactly.
    assert_eq!(f.format_size(u64::MAX), "17179869184.00 GB");
}

#[test]
fn format_age_picks_the_coarsest_unit() {
    let f = DefaultFormatter;
    let date = 1_000_000;
    assert_eq!(f.format_age(date, date + 3 * 86400 + 5), "3 days");
    assert_eq!(f.format_age(date, date + 86400), "1 days");
    assert_eq!(f.format_age(date, date + 7200), "2 hours");
    assert_eq!(f.format_age(date, date + 3599), "59 minutes");
    assert_eq!(f.format_age(date, date + 120), "2 minutes");
    assert_eq!(f.format_age(date, date), "0 minutes");
    // An instant in the future gives a negative age, rounded toward
    // zero as the stored behaviour has it.
    assert_eq!(f.format_age(date, date - 90), "-1 minutes");
}

#[test]
fn format_timestamp_renders_utc() {
    let f = DefaultFormatter;
    assert_eq!(f.format_timestamp(0, 0), "1970-01-01 00:00:00");
    assert_eq!(f.format_timestamp(1_700_000_000, 0), "2023-11-14 22:13:20");
    // Unrenderable timestamps fall back to the current instant.
    assert_eq!(
        f.format_timestamp(u64::MAX, 1_700_000_000),
        "2023-11-14 22:13:20"
    );
}

#[test]
fn truncate_appends_an_ellipsis() {
    let f = DefaultFormatter;
    assert_eq!(f.truncate("short", Some(30)), "short");
    assert_eq!(f.truncate("short", None), "short");
    assert_eq!(
        f.truncate("a-rather-long-configuration-name", Some(10)),
        "a-rathe ..."
    );
    assert_eq!(f.truncate("abcdef", Some(2)), " ...");
}

#[test]
fn truncate_lengths_per_surface() {
    assert_eq!(
        UiType::Cli { detailed: true }.get_truncate_lengths(),
        Some(TruncateLengths { name: 30, path: 40 })
    );
    assert_eq!(UiType::Cli { detailed: false }.get_truncate_lengths(), None);
    assert_eq!(
        UiType::Tui.get_truncate_lengths(),
        Some(TruncateLengths { name: 20, path: 30 })
    );
    assert_eq!(UiType::Gui.get_truncate_lengths(), None);
}

fn sample_record() -> ArchivedFile {
    ArchivedFile {
        id: 9,
        name: "a-rather-long-configuration-name".to_string(),
        original_path: "/etc/deeply/nested/path/to/configuration.yaml".to_string(),
        format: "yaml".to_string(),
        content_hash: "00ff".to_string(),
        archive_date: 1_700_000_000,
        retention_period: 3 * 86400,
        reason: String::new(),
        metadata: ArchiveMetadata {
            size: Some(1536),
            created: Some(1_700_000_000),
            modified: None,
        },
    }
}

#[test]
fn projection_for_the_terminal_ui() {
    let rec = sample_record();
    let now = rec.archive_date + 86400;
    let info: ArchiveDisplayInfo = rec.to_display_info(UiType::Tui, now);
    assert_eq!(info.id, 9);
    assert_eq!(info.name, "a-rather-long-con ...");
    assert_eq!(info.path, "/etc/deeply/nested/path/to/ ...");
    assert_eq!(info.format, "yaml");
    assert_eq!(info.age, "1 days");
    assert_eq!(info.status, "2 days remaining");
    assert_eq!(info.reason, None);
    assert_eq!(info.size, Some("1.50 KB".to_string()));
    assert_eq!(info.created, Some("2023-11-14 22:13:20".to_string()));
    assert_eq!(info.modified, None);
    assert_eq!(info.retention_remaining, Some("2 days".to_string()));
}

#[test]
fn projection_without_truncation_keeps_fields_whole() {
    let mut rec = sample_record();
    rec.reason = "pre-upgrade snapshot".to_string();
    let now = rec.archive_date + 4 * 86400;
    let info = rec.to_display_info(UiType::Cli { detailed: false }, now);
    assert_eq!(info.name, "a-rather-long-configuration-name");
    assert_eq!(
        info.path,
        "/etc/deeply/nested/path/to/configuration.yaml"
    );
    assert_eq!(info.status, "Expired");
    assert_eq!(info.retention_remaining, None);
    assert_eq!(info.reason, Some("pre-upgrade snapshot".to_string()));
}

#[test]
fn projection_degrades_gracefully_without_metadata() {
    let mut rec = sample_record();
    rec.metadata = ArchiveMetadata {
        size: None,
        created: None,
        modified: None,
    };
    let info = rec.to_display_info(UiType::Gui, rec.archive_date + 60);
    assert_eq!(info.size, None);
    assert_eq!(info.created, None);
    assert_eq!(info.modified, None);
    assert_eq!(info.age, "1 minutes");
}

#[test]
fn status_string_tracks_eligibility() {
    let rec = sample_record();
    assert_eq!(
        rec.get_status_string(rec.archive_date + 2 * 86400 + 3600),
        "23 hours remaining"
    );
    assert_eq!(
        rec.get_status_string(rec.archive_date + 3 * 86400 - 1),
        "0 minutes remaining"
    );
    assert_eq!(rec.get_status_string(rec.archive_date + 3 * 86400), "Expired");
    assert_eq!(
        rec.get_retention_remaining(rec.archive_date),
        Some("3 days".to_string())
    );
    assert_eq!(rec.get_retention_remaining(rec.archive_date + 3 * 86400), None);
}
