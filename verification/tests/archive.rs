//! End-to-end behaviour of the archive store and service.

use paramguard::db::ArchiveDb;
use paramguard::errors::ArchiveError;
use paramguard::record::ArchiveMetadata;
use paramguard::service::ArchiveService;

/// SHA-256 of b"abc", lower-case hex.
const ABC_SHA256: &str = "ba7816bf8f01cfea414140de5dae2223b00361a396177a9cb410ff61f20015ad";

#[test]
fn round_trip_restores_exact_bytes() {
    let mut svc = ArchiveService::new();
    let content: &[u8] = b"abc";
    let id = svc
        .store("db-config", "/etc/db.conf", content, None, None, 30, None, 1_000)
        .unwrap();
    assert_eq!(id, 1);
    let (path, restored) = svc.restore(id, None, false).unwrap();
    assert_eq!(path, "/etc/db.conf");
    assert_eq!(restored, content.to_vec());
}

#[test]
fn content_hash_is_sha256_hex() {
    let mut svc = ArchiveService::new();
    svc.store("abc.bin", "/tmp/abc.bin", b"abc", None, None, 7, None, 500)
        .unwrap();
    let records = svc.list().unwrap();
    assert_eq!(records.len(), 1);
    assert_eq!(records[0].content_hash, ABC_SHA256);
}

#[test]
fn store_assigns_sequential_ids_and_format() {
    let mut svc = ArchiveService::new();
    let a = svc
        .store("a", "/x/a.json", b"1", None, None, 1, None, 10)
        .unwrap();
    let b = svc
        .store("b", "/x/b.yaml", b"2", None, None, 1, None, 20)
        .unwrap();
    let c = svc.store("c", "/x/noext", b"3", None, None, 1, None, 30).unwrap();
    assert_eq!((a, b, c), (1, 2, 3));
    let records = svc.list().unwrap();
    let formats: Vec<(i64, String)> = records
        .iter()
        .map(|r| (r.id, r.format.clone()))
        .collect();
    assert_eq!(
        formats,
        vec![
            (3, "unknown".to_string()),
            (2, "yaml".to_string()),
            (1, "json".to_string())
        ]
    );
}

#[test]
fn duplicate_name_and_timestamp_is_refused() {
    let mut svc = ArchiveService::new();
    svc.store("twin", "/a", b"1", None, None, 1, None, 99).unwrap();
    let err = svc.store("twin", "/b", b"2", None, None, 1, None, 99).unwrap_err();
    assert!(matches!(err, ArchiveError::DbError(_)));
    // Same name at another instant is fine.
    svc.store("twin", "/b", b"2", None, None, 1, None, 100).unwrap();
    assert_eq!(svc.list().unwrap().len(), 2);
}

#[test]
fn can_delete_follows_the_retention_window() {
    let mut svc = ArchiveService::new();
    let now = 1_000_000;
    let id = svc
        .store("cfg", "/etc/cfg", b"x", None, None, 30, None, now)
        .unwrap();
    let expiry = now + 30 * 86400;
    assert!(!svc.can_delete(id, now).unwrap());
    assert!(!svc.can_delete(id, expiry - 1).unwrap());
    assert!(svc.can_delete(id, expiry).unwrap());
    assert!(svc.can_delete(id, expiry + 12345).unwrap());
    assert!(matches!(
        svc.can_delete(77, now),
        Err(ArchiveError::NotFound(77))
    ));
}

#[test]
fn delete_is_gated_by_retention() {
    let mut svc = ArchiveService::new();
    let now = 5_000;
    let id = svc
        .store("keep", "/keep", b"k", None, None, 10, None, now)
        .unwrap();
    let err = svc.delete(id, now + 86400).unwrap_err();
    assert!(matches!(err, ArchiveError::RetentionActive));
    // The record is untouched and still retrievable.
    assert_eq!(svc.list().unwrap().len(), 1);
    assert!(svc.get_retention_info(id, now).is_ok());
    // Once the window has elapsed the delete goes through.
    svc.delete(id, now + 10 * 86400).unwrap();
    assert!(matches!(
        svc.get_retention_info(id, now),
        Err(ArchiveError::NotFound(1))
    ));
    assert!(svc.list().unwrap().is_empty());
}

#[test]
fn delete_of_missing_record_is_not_found() {
    let mut svc = ArchiveService::new();
    assert!(matches!(svc.delete(3, 0), Err(ArchiveError::NotFound(3))));
}

#[test]
fn cleanup_removes_only_strictly_expired_records() {
    let mut svc = ArchiveService::new();
    let now = 100_000;
    svc.store("old", "/old", b"o", None, None, 1, None, now).unwrap();
    svc.store("fresh", "/fresh", b"f", None, None, 30, None, now).unwrap();
    // At the exact expiry instant the boundary is strict: nothing goes.
    assert_eq!(svc.cleanup(now + 86400).unwrap(), 0);
    // One second past it, the old record goes.
    assert_eq!(svc.cleanup(now + 86400 + 1).unwrap(), 1);
    let left = svc.list().unwrap();
    assert_eq!(left.len(), 1);
    assert_eq!(left[0].name, "fresh");
}

#[test]
fn cleanup_twice_removes_nothing_the_second_time() {
    let mut svc = ArchiveService::new();
    let now = 42;
    svc.store("a", "/a", b"1", None, None, 0, None, now).unwrap();
    svc.store("b", "/b", b"2", None, None, 0, None, now + 1).unwrap();
    svc.store("c", "/c", b"3", None, None, 1000, None, now).unwrap();
    let later = now + 600;
    assert_eq!(svc.cleanup(later).unwrap(), 2);
    assert_eq!(svc.cleanup(later).unwrap(), 0);
    assert_eq!(svc.list().unwrap().len(), 1);
}

#[test]
fn search_finds_substring_case_insensitively() {
    let mut svc = ArchiveService::new();
    svc.store("db-config", "/etc/db", b"1", None, None, 5, None, 1_000).unwrap();
    svc.store("app-config", "/etc/app", b"2", None, None, 5, None, 2_000).unwrap();
    svc.store("notes", "/home/notes", b"3", None, None, 5, None, 3_000).unwrap();
    let hits = svc.search("config").unwrap();
    let names: Vec<&str> = hits.iter().map(|r| r.name.as_str()).collect();
    assert_eq!(names, vec!["app-config", "db-config"]);
    // Case folding applies to both the query and the fields.
    let upper = svc.search("CONFIG").unwrap();
    assert_eq!(upper.len(), 2);
    // The empty query matches everything.
    assert_eq!(svc.search("").unwrap().len(), 3);
}

#[test]
fn search_covers_path_and_reason() {
    let mut svc = ArchiveService::new();
    svc.store(
        "alpha",
        "/srv/Database/alpha",
        b"1",
        None,
        None,
        5,
        None,
        10,
    )
    .unwrap();
    svc.store(
        "beta",
        "/srv/web/beta",
        b"2",
        None,
        None,
        5,
        Some("migrated DATABASE".to_string()),
        20,
    )
    .unwrap();
    svc.store("gamma", "/srv/web/gamma", b"3", None, None, 5, None, 30).unwrap();
    let hits = svc.search("database").unwrap();
    let names: Vec<&str> = hits.iter().map(|r| r.name.as_str()).collect();
    assert_eq!(names, vec!["beta", "alpha"]);
}

#[test]
fn list_orders_most_recent_first() {
    let mut svc = ArchiveService::new();
    svc.store("first", "/1", b"1", None, None, 5, None, 300).unwrap();
    svc.store("second", "/2", b"2", None, None, 5, None, 100).unwrap();
    svc.store("third", "/3", b"3", None, None, 5, None, 200).unwrap();
    let names: Vec<String> = svc
        .list()
        .unwrap()
        .into_iter()
        .map(|r| r.name)
        .collect();
    assert_eq!(names, vec!["first", "third", "second"]);
}

#[test]
fn statistics_partition_the_store() {
    let mut svc = ArchiveService::new();
    let now = 10_000;
    svc.store("a", "/a", b"12345", None, None, 30, None, now).unwrap();
    svc.store("b", "/b", b"123", None, None, 10, None, now).unwrap();
    svc.store("c", "/c", b"1", None, None, 0, None, now - 50).unwrap();
    let stats = svc.get_statistics(now).unwrap();
    assert_eq!(stats.total_archives, 3);
    assert_eq!(stats.active_count + stats.expired_count, stats.total_archives);
    assert_eq!(stats.expired_count, 1);
    assert_eq!(stats.total_size, 5 + 3 + 1);
    // (2592000 + 864000 + 0) / 3 = 1152000 seconds, 13 whole days.
    assert_eq!(stats.avg_retention_days, 13);
}

#[test]
fn statistics_of_empty_store_are_zero() {
    let svc = ArchiveService::new();
    let stats = svc.get_statistics(123).unwrap();
    assert_eq!(stats.total_archives, 0);
    assert_eq!(stats.expired_count, 0);
    assert_eq!(stats.active_count, 0);
    assert_eq!(stats.total_size, 0);
    assert_eq!(stats.avg_retention_days, 0);
}

#[test]
fn update_retention_rewrites_the_window() {
    let mut svc = ArchiveService::new();
    let now = 700;
    let id = svc.store("cfg", "/cfg", b"x", None, None, 30, None, now).unwrap();
    assert!(!svc.can_delete(id, now + 86400).unwrap());
    svc.update_retention(id, 1).unwrap();
    assert!(svc.can_delete(id, now + 86400).unwrap());
    let info = svc.get_retention_info(id, now).unwrap();
    assert_eq!(info.retention_period, 86400);
    assert!(matches!(
        svc.update_retention(9, 1),
        Err(ArchiveError::NotFound(9))
    ));
}

#[test]
fn retention_info_reports_remaining_time() {
    let mut svc = ArchiveService::new();
    let now = 50_000;
    let id = svc
        .store("settings.json", "/etc/settings.json", b"{\"a\":1}", None, None, 1, None, now)
        .unwrap();
    let info = svc.get_retention_info(id, now).unwrap();
    assert_eq!(info.archive_date, now);
    assert_eq!(info.retention_period, 86400);
    assert_eq!(info.time_remaining, Some(86400));
    assert!(!info.can_delete);
    let later = svc.get_retention_info(id, now + 2 * 86400).unwrap();
    assert_eq!(later.time_remaining, None);
    assert!(later.can_delete);
}

#[test]
fn scenario_settings_json_lifecycle() {
    let mut svc = ArchiveService::new();
    let now = 1_700_000_000;
    let id = svc
        .store("settings.json", "/etc/settings.json", b"{\"a\":1}", None, None, 1, None, now)
        .unwrap();
    assert_eq!(id, 1);
    assert!(!svc.can_delete(1, now).unwrap());
    let info = svc.get_retention_info(1, now).unwrap();
    assert_eq!(info.time_remaining, Some(86400));
    let two_days_on = now + 2 * 86400;
    assert!(svc.can_delete(1, two_days_on).unwrap());
    assert_eq!(svc.cleanup(two_days_on).unwrap(), 1);
    assert!(svc.list().unwrap().is_empty());
}

#[test]
fn restore_resolves_the_output_path() {
    let mut svc = ArchiveService::new();
    let id = svc
        .store("app.toml", "/orig/app.toml", b"x=1", None, None, 3, None, 77)
        .unwrap();
    // No output path: the original location.
    let (p, _) = svc.restore(id, None, false).unwrap();
    assert_eq!(p, "/orig/app.toml");
    // An output path that is a directory gets the name appended.
    let (p, _) = svc.restore(id, Some("/backup".to_string()), true).unwrap();
    assert_eq!(p, "/backup/app.toml");
    let (p, _) = svc.restore(id, Some("/backup/".to_string()), true).unwrap();
    assert_eq!(p, "/backup/app.toml");
    // Any other output path is taken literally.
    let (p, _) = svc
        .restore(id, Some("/elsewhere/copy.toml".to_string()), false)
        .unwrap();
    assert_eq!(p, "/elsewhere/copy.toml");
}

#[test]
fn reason_defaults_to_a_placeholder() {
    let mut svc = ArchiveService::new();
    svc.store("a", "/a", b"1", None, None, 1, None, 5).unwrap();
    svc.store("b", "/b", b"2", None, None, 1, Some("rollback point".to_string()), 6)
        .unwrap();
    let records = svc.list().unwrap();
    assert_eq!(records[0].reason, "rollback point");
    assert_eq!(records[1].reason, "No reason provided");
}

#[test]
fn archive_db_direct_operations() {
    let mut db = ArchiveDb::new();
    let meta = ArchiveMetadata {
        size: Some(4),
        created: Some(111),
        modified: Some(222),
    };
    let id = db
        .archive_file("raw", "/raw", b"data", "bin", 2, "kept for audit", meta, 900)
        .unwrap();
    let (file, content) = db.restore_file(id).unwrap();
    assert_eq!(content, b"data".to_vec());
    assert_eq!(file.format, "bin");
    assert_eq!(file.reason, "kept for audit");
    assert_eq!(file.metadata.size, Some(4));
    assert_eq!(file.metadata.created, Some(111));
    assert_eq!(file.metadata.modified, Some(222));
    let info = db.get_archive_info(id).unwrap();
    assert_eq!(info.archive_date, 900);
    assert_eq!(info.retention_period, 2 * 86400);
    assert!(matches!(
        db.restore_file(44),
        Err(ArchiveError::NotFound(44))
    ));
    db.update_retention_period(id, 0).unwrap();
    assert!(db.can_delete(id, 900).unwrap());
    db.delete_archive(id, 900).unwrap();
    assert!(matches!(
        db.get_archive_info(id),
        Err(ArchiveError::NotFound(1))
    ));
}

#[test]
fn ids_are_never_reused() {
    let mut svc = ArchiveService::new();
    let a = svc.store("a", "/a", b"1", None, None, 0, None, 10).unwrap();
    svc.delete(a, 10 + 1).unwrap();
    let b = svc.store("b", "/b", b"2", None, None, 0, None, 20).unwrap();
    assert_eq!((a, b), (1, 2));
}

#[test]
fn error_messages_are_stable() {
    assert_eq!(
        ArchiveError::NotFound(5).message(),
        "Archive not found: 5"
    );
    assert_eq!(
        ArchiveError::NotFound(-3).message(),
        "Archive not found: -3"
    );
    assert_eq!(
        ArchiveError::RetentionActive.message(),
        "Retention period not expired"
    );
    assert_eq!(
        ArchiveError::DbError("disk full".to_string()).message(),
        "Database error: disk full"
    );
    assert_eq!(
        ArchiveError::IoError("broken pipe".to_string()).message(),
        "IO error: broken pipe"
    );
}
