//! The decision taken for each decoded record of the ingestion stream.

use vstd::prelude::*;
use vstd::utf8::*;
use crate::admission::{admit_model, LogStats};
use crate::clock::{utc_rfc3339, utc_rfc3339_of};
use crate::record::{Config, LogMessage};
use crate::truncate::{lemma_truncated_fits, truncate_string, truncated};

verus! {

/// `out` is `rec` with its message cut to `max_log_length` bytes, its
/// timestamp written in UTC, and every other field unchanged.
pub open spec fn stored_form(rec: LogMessage, out: LogMessage, max_log_length: nat) -> bool {
    &&& out.message@ == truncated(rec.message@, max_log_length)
    &&& out.level == rec.level
    &&& out.target == rec.target
    &&& out.module_name == rec.module_name
    &&& out.file == rec.file
    &&& out.line == rec.line
    &&& out.hash == rec.hash
    &&& utc_rfc3339_of(rec.timestamp@) == Some(out.timestamp@)
}

/// Whether a record may be stored at all: it names its stream and carries an
/// RFC 3339 timestamp.
pub open spec fn storable(rec: LogMessage) -> bool {
    rec.hash@.len() > 0 && utc_rfc3339_of(rec.timestamp@) is Some
}

/// Checks a decoded record, writes its timestamp in UTC and cuts its message
/// to `max_log_length` bytes. Returns `None` for a record without a stream
/// identifier or without an RFC 3339 timestamp, which is never stored.
pub fn prepare_record(record: LogMessage, max_log_length: usize) -> (r: Option<LogMessage>)
    ensures
        r is Some <==> storable(record),
        r matches Some(out) ==> stored_form(record, out, max_log_length as nat),
        r matches Some(out) ==> out.hash@.len() > 0 && out.timestamp@.len() > 0,
        r matches Some(out) ==> encode_utf8(out.message@).len() <= max_log_length,
        r matches Some(out) ==> valid_utf8(encode_utf8(out.message@)),
{
    if record.hash.as_str().is_empty() {
        return None;
    }
    let timestamp = match utc_rfc3339(record.timestamp.as_str()) {
        Some(t) => t,
        None => {
            return None;
        },
    };
    let mut record = record;
    let ghost original = record;
    record.timestamp = timestamp;
    record.message = truncate_string(record.message.as_str(), max_log_length);
    proof {
        lemma_truncated_fits(original.message@, max_log_length as nat);
    }
    Some(record)
}

/// Checks a decoded record, writes its timestamp in UTC, truncates its
/// message and runs it through the admission cache. Returns the record to hand to the writer, or `None` when
/// it is not storable (the cache is then untouched) or its stream is refused.
pub fn accept_record(stats: &mut LogStats, record: LogMessage, config: &Config) -> (r: Option<
    LogMessage,
>)
    requires
        old(stats).wf(),
    ensures
        final(stats).wf(),
        final(stats)@.dom().finite(),
        !storable(record) ==> r is None && final(stats)@ == old(stats)@,
        storable(record) ==> (final(stats)@, r is Some) == admit_model(
            old(stats)@,
            record.hash@,
            config.max_hashes as nat,
        ),
        final(stats)@.len() == old(stats)@.len() + if r is Some && !old(stats)@.contains_key(
            record.hash@,
        ) {
            1int
        } else {
            0int
        },
        r matches Some(out) ==> stored_form(record, out, config.max_log_length as nat),
        r matches Some(out) ==> out.hash@.len() > 0 && out.timestamp@.len() > 0,
        r matches Some(out) ==> encode_utf8(out.message@).len() <= config.max_log_length,
        r matches Some(out) ==> valid_utf8(encode_utf8(out.message@)),
{
    proof {
        stats.lemma_finite();
    }
    match prepare_record(record, config.max_log_length) {
        None => None,
        Some(out) => {
            if stats.admit_hash(&out.hash, config.max_hashes) {
                Some(out)
            } else {
                None
            }
        },
    }
}

} // verus!
