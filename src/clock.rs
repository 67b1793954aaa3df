//! Instants as microseconds since the Unix epoch, their RFC 3339 text, and
//! the date range that the query API reports.

use vstd::prelude::*;

verus! {

/// One week, in microseconds.
pub const WEEK_MICROS: i64 = 604_800_000_000;

/// The latest instant written out, in microseconds since the epoch (about
/// the year 255000).
pub const LATEST_MICROS: i64 = 8_000_000_000_000_000_000;

/// The RFC 3339 text that chrono writes for the instant `micros`
/// microseconds after the Unix epoch.
pub uninterp spec fn rfc3339_at_micros(micros: i64) -> Seq<char>;

/// Relies on chrono's `From<SystemTime> for DateTime<Utc>` applied to the
/// system clock, read through `DateTime::timestamp_micros`. A clock set
/// before 1970 gives a negative instant; nothing is promised of the value.
#[verifier::external_body]
fn now_micros() -> (r: i64) {
    chrono::DateTime::<chrono::Utc>::from(std::time::SystemTime::now()).timestamp_micros()
}

/// Relies on chrono's `DateTime::to_rfc3339` for the instant that
/// `DateTime::<Utc>::from_timestamp_micros` builds; the latter succeeds for
/// every instant from the epoch to `LATEST_MICROS`. The text always holds a
/// date, a time and an offset, so it is never empty.
#[verifier::external_body]
fn rfc3339_from_micros(micros: i64) -> (r: String)
    requires
        0 <= micros <= LATEST_MICROS,
    ensures
        r@ == rfc3339_at_micros(micros),
        r@.len() > 0,
{
    chrono::DateTime::<chrono::Utc>::from_timestamp_micros(micros).unwrap().to_rfc3339()
}

/// The RFC 3339 text that chrono writes, in UTC, for the instant it parses
/// from `text`; `None` when `text` is not an RFC 3339 date and time.
pub uninterp spec fn utc_rfc3339_of(text: Seq<char>) -> Option<Seq<char>>;

/// Relies on chrono's `DateTime::parse_from_rfc3339`; the parsed instant is
/// written back in UTC through `with_timezone(&Utc)` and `to_rfc3339`, whose
/// text always holds a date, a time and an offset.
#[verifier::external_body]
pub(crate) fn utc_rfc3339(text: &str) -> (r: Option<String>)
    ensures
        match r {
            Some(t) => utc_rfc3339_of(text@) == Some(t@) && t@.len() > 0,
            None => utc_rfc3339_of(text@) is None,
        },
{
    match chrono::DateTime::parse_from_rfc3339(text) {
        Ok(d) => Some(d.with_timezone(&chrono::Utc).to_rfc3339()),
        Err(_) => None,
    }
}

/// `us` brought into the range of instants that are written out.
pub open spec fn clamp_instant(us: int) -> i64 {
    if us < 0 {
        0
    } else if us > LATEST_MICROS {
        LATEST_MICROS
    } else {
        us as i64
    }
}

fn clamped(us: i128) -> (r: i64)
    ensures
        r == clamp_instant(us as int),
        0 <= r <= LATEST_MICROS,
{
    if us < 0 {
        0
    } else if us > LATEST_MICROS as i128 {
        LATEST_MICROS
    } else {
        us as i64
    }
}

/// The instant `now` (microseconds since the epoch) as RFC 3339 text, brought
/// into the range that is written out.
pub fn default_timestamp_at(now: i64) -> (r: String)
    ensures
        r@ == rfc3339_at_micros(clamp_instant(now as int)),
        r@.len() > 0,
{
    rfc3339_from_micros(clamped(now as i128))
}

/// The current instant as RFC 3339 text: the timestamp given to a record
/// that arrives without one.
pub fn default_timestamp() -> (r: String)
    ensures
        exists|now: i64| r@ == rfc3339_at_micros(clamp_instant(now as int)),
        r@.len() > 0,
{
    default_timestamp_at(now_micros())
}

/// The oldest and newest timestamps reported by the query API.
#[derive(Clone, Debug)]
pub struct DateRange {
    pub min_date: String,
    pub max_date: String,
}

/// Whether the store is empty, judged from its newest timestamp.
pub open spec fn no_records(max: Option<String>) -> bool {
    match max {
        None => true,
        Some(m) => m@.len() == 0,
    }
}

/// The range reported at instant `now` for a store whose oldest and newest
/// timestamps are `min` and `max`: these when the store holds records, else
/// the week before `now`.
pub open spec fn reported_range(
    min: Option<String>,
    max: Option<String>,
    now: i64,
    min_date: Seq<char>,
    max_date: Seq<char>,
) -> bool {
    let week_ago = rfc3339_at_micros(clamp_instant(now - WEEK_MICROS));
    if no_records(max) {
        &&& min_date == week_ago
        &&& max_date == rfc3339_at_micros(clamp_instant(now as int))
    } else {
        &&& max_date == max->0@
        &&& min_date == match min {
            Some(m) => m@,
            None => week_ago,
        }
    }
}

/// The date range for a store with oldest and newest timestamps `min` and
/// `max`, at the instant `now` (microseconds since the epoch).
pub fn date_range_at(min: Option<String>, max: Option<String>, now: i64) -> (r: DateRange)
    ensures
        reported_range(min, max, now, r.min_date@, r.max_date@),
{
    let week_ago = clamped(now as i128 - WEEK_MICROS as i128);
    let empty = match &max {
        None => true,
        Some(m) => m.as_str().is_empty(),
    };
    if empty {
        DateRange {
            min_date: rfc3339_from_micros(week_ago),
            max_date: rfc3339_from_micros(clamped(now as i128)),
        }
    } else {
        let max_date = match max {
            Some(m) => m,
            None => String::new(),
        };
        let min_date = match min {
            Some(m) => m,
            None => rfc3339_from_micros(week_ago),
        };
        DateRange { min_date, max_date }
    }
}

/// The date range for a store with oldest and newest timestamps `min` and
/// `max`, now.
pub fn date_range(min: Option<String>, max: Option<String>) -> (r: DateRange)
    ensures
        exists|now: i64| reported_range(min, max, now, r.min_date@, r.max_date@),
{
    let now = now_micros();
    date_range_at(min, max, now)
}

/// Summary of the store reported by the query API.
#[derive(Clone, Debug)]
pub struct LogInfo {
    pub db_size_bytes: u64,
    pub total_log_count: i64,
    pub number_of_hashes: i64,
    pub min_date: String,
    pub max_date: String,
    pub hash_list: Vec<String>,
}

/// `info` reports the given counts, the date range of `min` and `max` at
/// `now`, and the stream list, which is empty for an empty store.
pub open spec fn reported_info(
    info: LogInfo,
    db_size_bytes: u64,
    total_log_count: i64,
    number_of_hashes: i64,
    min: Option<String>,
    max: Option<String>,
    hashes: Seq<String>,
    now: i64,
) -> bool {
    &&& info.db_size_bytes == db_size_bytes
    &&& info.total_log_count == total_log_count
    &&& info.number_of_hashes == number_of_hashes
    &&& reported_range(min, max, now, info.min_date@, info.max_date@)
    &&& info.hash_list@ == if no_records(max) {
        Seq::<String>::empty()
    } else {
        hashes
    }
}

/// The store summary at the instant `now`.
pub fn log_info_at(
    db_size_bytes: u64,
    total_log_count: i64,
    number_of_hashes: i64,
    min: Option<String>,
    max: Option<String>,
    hashes: Vec<String>,
    now: i64,
) -> (r: LogInfo)
    ensures
        reported_info(
            r,
            db_size_bytes,
            total_log_count,
            number_of_hashes,
            min,
            max,
            hashes@,
            now,
        ),
{
    let empty = match &max {
        None => true,
        Some(m) => m.as_str().is_empty(),
    };
    let range = date_range_at(min, max, now);
    let hash_list = if empty {
        Vec::new()
    } else {
        hashes
    };
    LogInfo {
        db_size_bytes,
        total_log_count,
        number_of_hashes,
        min_date: range.min_date,
        max_date: range.max_date,
        hash_list,
    }
}

/// The store summary, now.
pub fn log_info(
    db_size_bytes: u64,
    total_log_count: i64,
    number_of_hashes: i64,
    min: Option<String>,
    max: Option<String>,
    hashes: Vec<String>,
) -> (r: LogInfo)
    ensures
        exists|now: i64|
            reported_info(
                r,
                db_size_bytes,
                total_log_count,
                number_of_hashes,
                min,
                max,
                hashes@,
                now,
            ),
{
    let now = now_micros();
    log_info_at(db_size_bytes, total_log_count, number_of_hashes, min, max, hashes, now)
}

} // verus!
