use repliktor::errors::{BackupError, DirectoryReadError};
use repliktor::registry::{
    add_entry, change_date, decimal, delete_entry, entry_id, get_backups_to_update, position,
    push_entry, record_backup, BackupEntry, Backups,
};
use repliktor::time::{format_timestamp, is_past_days, parse_timestamp, UtcTime};

fn job(hash: &str, last_backup: &str, next_update: u32) -> BackupEntry {
    BackupEntry {
        title: format!("job {}", hash),
        input: "/in".to_string(),
        output: "/out".to_string(),
        last_backup: last_backup.to_string(),
        next_update,
        delete_button: String::new(),
        backup_button: String::new(),
        hash: hash.to_string(),
    }
}

fn hashes(b: &Backups) -> Vec<&str> {
    b.backups.iter().map(|e| e.hash.as_str()).collect()
}

#[test]
fn due_exactly_after_interval() {
    let t = parse_timestamp("2024-03-01T12:00:00Z").unwrap().seconds;
    let b = Backups { backups: vec![job("1", "2024-03-01T12:00:00Z", 7)] };
    let at_boundary = UtcTime { seconds: t + 7 * 86400, nanos: 0 };
    assert!(get_backups_to_update(&b, &at_boundary).unwrap().is_empty());
    let just_after = UtcTime { seconds: t + 7 * 86400, nanos: 1 };
    assert_eq!(get_backups_to_update(&b, &just_after).unwrap().len(), 1);
    let second_after = UtcTime { seconds: t + 7 * 86400 + 1, nanos: 0 };
    let due = get_backups_to_update(&b, &second_after).unwrap();
    assert_eq!(due[0].hash, "1");
    let before = UtcTime { seconds: t + 6 * 86400, nanos: 0 };
    assert!(get_backups_to_update(&b, &before).unwrap().is_empty());
}

#[test]
fn due_list_keeps_registry_order() {
    let b = Backups {
        backups: vec![
            job("a", "2020-01-01T00:00:00Z", 1),
            job("b", "2030-01-01T00:00:00Z", 1),
            job("c", "1971-02-10T13:00:00Z", 30),
        ],
    };
    let now = parse_timestamp("2025-06-01T00:00:00Z").unwrap();
    let due = get_backups_to_update(&b, &now).unwrap();
    let ids: Vec<&str> = due.iter().map(|e| e.hash.as_str()).collect();
    assert_eq!(ids, vec!["a", "c"]);
}

#[test]
fn unparsable_last_backup_is_time_parse_error() {
    let b = Backups { backups: vec![job("a", "yesterday", 1)] };
    let now = UtcTime { seconds: 0, nanos: 0 };
    assert!(matches!(get_backups_to_update(&b, &now), Err(BackupError::TimeParse)));
}

#[test]
fn timestamps_parse_and_format() {
    assert_eq!(parse_timestamp("1970-01-02T00:00:00Z"), Ok(UtcTime { seconds: 86400, nanos: 0 }));
    assert_eq!(parse_timestamp("1970-01-02 00:00:00"), Err(BackupError::TimeParse));
    let t = UtcTime { seconds: 1704164645, nanos: 999 };
    assert_eq!(format_timestamp(&t).unwrap(), "2024-01-02T03:04:05Z");
    assert!(is_past_days(&UtcTime { seconds: 86401, nanos: 0 }, 0, 1));
    assert!(!is_past_days(&UtcTime { seconds: 86400, nanos: 0 }, 0, 1));
}

#[test]
fn add_entry_appends_never_run_job() {
    let mut b = Backups::new();
    push_entry(&mut b, "t".into(), "/i".into(), "/o".into(), 3, "42".into());
    add_entry(&mut b, "docs".into(), "/home/docs".into(), "/backup".into(), 7, "2024-05-06 07:08:09 +02:00");
    assert_eq!(b.backups.len(), 2);
    let e = &b.backups[1];
    assert_eq!(e.title, "docs");
    assert_eq!(e.input, "/home/docs");
    assert_eq!(e.output, "/backup");
    assert_eq!(e.last_backup, "1971-02-10T13:00:00Z");
    assert_eq!(e.next_update, 7);
    assert!(e.delete_button.is_empty() && e.backup_button.is_empty());
    assert_eq!(e.hash, entry_id("2024-05-06 07:08:09 +02:00"));
    assert!(!e.hash.is_empty() && e.hash.chars().all(|c| c.is_ascii_digit()));
    assert_eq!(b.backups[0].hash, "42");
}

#[test]
fn entry_id_is_decimal_fingerprint() {
    let id = entry_id("2024-01-01 10:00:00.000000 +01:00");
    let expected = xxhash_rust::xxh3::xxh3_64("2024-01-01 10:00:00.000000 +01:00".as_bytes());
    assert_eq!(id, expected.to_string());
    assert_eq!(decimal(0), "0");
    assert_eq!(decimal(12345), "12345");
    assert_eq!(decimal(u64::MAX), "18446744073709551615");
}

#[test]
fn delete_unknown_id_is_not_found_and_keeps_store() {
    let mut b = Backups { backups: vec![job("1", "2024-01-01T00:00:00Z", 1), job("2", "2024-01-01T00:00:00Z", 1)] };
    assert_eq!(delete_entry(&mut b, &"3".to_string()), Err(BackupError::NotFound));
    assert_eq!(hashes(&b), vec!["1", "2"]);
}

#[test]
fn delete_removes_first_match() {
    let mut b = Backups {
        backups: vec![job("1", "2024-01-01T00:00:00Z", 1), job("2", "2024-01-01T00:00:00Z", 1), job("3", "2024-01-01T00:00:00Z", 1)],
    };
    assert_eq!(delete_entry(&mut b, &"2".to_string()), Ok(()));
    assert_eq!(hashes(&b), vec!["1", "3"]);
    assert_eq!(position(&b, &"3".to_string()), Some(1));
    assert_eq!(position(&b, &"2".to_string()), None);
}

#[test]
fn change_date_updates_only_that_entry() {
    let mut b = Backups { backups: vec![job("1", "2024-01-01T00:00:00Z", 1), job("2", "2024-01-01T00:00:00Z", 1)] };
    assert_eq!(change_date(&mut b, &"2".to_string(), "2025-05-05T05:05:05Z".to_string()), Ok(()));
    assert_eq!(b.backups[0].last_backup, "2024-01-01T00:00:00Z");
    assert_eq!(b.backups[1].last_backup, "2025-05-05T05:05:05Z");
    assert_eq!(change_date(&mut b, &"9".to_string(), "x".to_string()), Err(BackupError::NotFound));
}

#[test]
fn record_backup_writes_formatted_instant() {
    let mut b = Backups { backups: vec![job("1", "1971-02-10T13:00:00Z", 1)] };
    let at = UtcTime { seconds: 1704164645, nanos: 0 };
    assert_eq!(record_backup(&mut b, &"1".to_string(), &at), Ok(()));
    assert_eq!(b.backups[0].last_backup, "2024-01-02T03:04:05Z");
    assert_eq!(record_backup(&mut b, &"7".to_string(), &at), Err(BackupError::NotFound));
    let far = UtcTime { seconds: i64::MAX, nanos: 0 };
    assert_eq!(record_backup(&mut b, &"1".to_string(), &far), Err(BackupError::TimeParse));
    assert_eq!(b.backups[0].last_backup, "2024-01-02T03:04:05Z");
}

#[test]
fn error_descriptions() {
    let e = DirectoryReadError::Io("denied".to_string());
    assert_eq!(e.describe(), "Failed to read files: denied");
    assert_eq!(BackupError::NotFound.kind_name(), "NotFoundError");
    assert_eq!(BackupError::Codec.kind_name(), "CodecError");
}

