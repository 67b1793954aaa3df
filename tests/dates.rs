use ironlog::clock::{date_range_at, log_info_at};
use ironlog::{date_range, default_timestamp};

const NOV_14_2023: i64 = 1_700_000_000_000_000;

#[test]
fn date_range_on_empty_store_is_last_week() {
    let r = date_range_at(None, None, NOV_14_2023);
    assert_eq!(r.min_date, "2023-11-07T22:13:20+00:00");
    assert_eq!(r.max_date, "2023-11-14T22:13:20+00:00");
}

#[test]
fn date_range_with_empty_newest_counts_as_empty() {
    let r = date_range_at(Some(String::new()), Some(String::new()), NOV_14_2023);
    assert_eq!(r.min_date, "2023-11-07T22:13:20+00:00");
    assert_eq!(r.max_date, "2023-11-14T22:13:20+00:00");
}

#[test]
fn date_range_reports_store_bounds() {
    let r = date_range_at(
        Some("2024-01-01T00:00:00+00:00".to_string()),
        Some("2024-02-01T00:00:00+00:00".to_string()),
        NOV_14_2023,
    );
    assert_eq!(r.min_date, "2024-01-01T00:00:00+00:00");
    assert_eq!(r.max_date, "2024-02-01T00:00:00+00:00");
}

#[test]
fn date_range_near_epoch_is_clamped() {
    let r = date_range_at(None, None, 0);
    assert_eq!(r.min_date, "1970-01-01T00:00:00+00:00");
    assert_eq!(r.max_date, "1970-01-01T00:00:00+00:00");
}

#[test]
fn date_range_now_on_empty_store() {
    let r = date_range(None, None);
    let min = chrono::DateTime::parse_from_rfc3339(&r.min_date).expect("rfc 3339");
    let max = chrono::DateTime::parse_from_rfc3339(&r.max_date).expect("rfc 3339");
    assert_eq!((max - min).num_days(), 7);
    let now = chrono::Utc::now();
    assert!((now.timestamp() - max.timestamp()).abs() < 60);
}

#[test]
fn default_timestamp_is_now() {
    let t = default_timestamp();
    let parsed = chrono::DateTime::parse_from_rfc3339(&t).expect("rfc 3339");
    let now = chrono::Utc::now();
    assert!((now.timestamp() - parsed.timestamp()).abs() < 60);
}

#[test]
fn log_info_of_empty_store() {
    let info = log_info_at(4096, 0, 0, None, None, vec!["stale".to_string()], NOV_14_2023);
    assert_eq!(info.db_size_bytes, 4096);
    assert_eq!(info.total_log_count, 0);
    assert_eq!(info.number_of_hashes, 0);
    assert_eq!(info.min_date, "2023-11-07T22:13:20+00:00");
    assert_eq!(info.max_date, "2023-11-14T22:13:20+00:00");
    assert!(info.hash_list.is_empty());
}

#[test]
fn log_info_of_filled_store() {
    let info = log_info_at(
        8192,
        5,
        2,
        Some("2024-01-01T00:00:00+00:00".to_string()),
        Some("2024-01-02T00:00:00+00:00".to_string()),
        vec!["a".to_string(), "b".to_string()],
        NOV_14_2023,
    );
    assert_eq!(info.total_log_count, 5);
    assert_eq!(info.number_of_hashes, 2);
    assert_eq!(info.min_date, "2024-01-01T00:00:00+00:00");
    assert_eq!(info.max_date, "2024-01-02T00:00:00+00:00");
    assert_eq!(info.hash_list, vec!["a".to_string(), "b".to_string()]);
}

#[test]
fn default_timestamp_at_given_instants() {
    assert_eq!(ironlog::default_timestamp_at(NOV_14_2023), "2023-11-14T22:13:20+00:00");
    assert_eq!(ironlog::default_timestamp_at(0), "1970-01-01T00:00:00+00:00");
    assert_eq!(ironlog::default_timestamp_at(-5), "1970-01-01T00:00:00+00:00");
    assert_eq!(ironlog::default_timestamp_at(1_500_000), "1970-01-01T00:00:01.500+00:00");
}
