//! Per-stream retention, and the steps of the inline insert path that the
//! HTTP insert endpoint takes against the store.

use vstd::prelude::*;

verus! {

/// Rows removed at once by the inline insert path, and how far past
/// `max_log_count` a stream may grow before that happens.
pub const TRIM_SLACK: i64 = 50;

/// Rows the sweeper deletes from a stream holding `count` rows so that
/// `max_log_count` remain.
pub open spec fn excess(count: int, max_log_count: int) -> int {
    if count > max_log_count {
        count - max_log_count
    } else {
        0
    }
}

/// How many of the oldest rows of a stream holding `count` rows the sweeper
/// deletes, if any.
pub fn trim_amount(count: i64, max_log_count: usize) -> (r: Option<i64>)
    ensures
        r is Some <==> count > max_log_count,
        r matches Some(n) ==> n == excess(count as int, max_log_count as int) && n > 0,
{
    if count <= 0 {
        None
    } else if (count as u64) > (max_log_count as u64) {
        Some(count - max_log_count as i64)
    } else {
        None
    }
}

/// After the sweeper's trim every stream holds at most `max_log_count`
/// rows, and a stream within the cap is left alone.
pub proof fn lemma_trim_reaches_cap(count: int, max_log_count: nat)
    ensures
        count - excess(count, max_log_count as int) <= max_log_count,
        excess(count, max_log_count as int) >= 0,
        count <= max_log_count ==> excess(count, max_log_count as int) == 0,
        count > max_log_count ==> count - excess(count, max_log_count as int) == max_log_count,
{
}

/// Where the inline insert path stands.
#[derive(Debug, Clone, Copy, PartialEq, Eq, Structural)]
pub enum InsertStep {
    /// Waiting to learn whether the stream already has rows.
    LookUpHash,
    /// Waiting for the number of distinct streams in the store.
    CountHashes,
    /// Waiting for the insert to complete.
    Insert,
    /// Waiting for the number of rows of the stream.
    CountRows,
    /// Waiting for the oldest rows to be deleted.
    Trim,
    /// Finished.
    Done,
}

/// The answer given to the HTTP caller.
#[derive(Debug, Clone, Copy, PartialEq, Eq, Structural)]
pub enum InsertReply {
    Inserted,
    HashLimitReached,
    InsertFailed,
    TrimFailed,
}

/// The store operation to perform next, or the reply.
#[derive(Debug, Clone, Copy, PartialEq, Eq, Structural)]
pub enum InsertAction {
    QueryHashExists,
    QueryDistinctHashes,
    InsertRecord,
    QueryRowCount,
    /// Delete this many of the stream's oldest rows.
    DeleteOldest(i64),
    Reply(InsertReply),
}

/// The outcome of the operation last asked for.
#[derive(Debug, Clone, Copy, PartialEq, Eq, Structural)]
pub enum InsertEvent {
    HashExists(bool),
    DistinctHashes(i64),
    /// Whether the insert succeeded.
    Inserted(bool),
    RowCount(i64),
    /// Whether the deletion succeeded.
    Trimmed(bool),
}

/// Whether `event` answers what `step` waits for.
pub open spec fn answers(step: InsertStep, event: InsertEvent) -> bool {
    match step {
        InsertStep::LookUpHash => event is HashExists,
        InsertStep::CountHashes => event is DistinctHashes,
        InsertStep::Insert => event is Inserted,
        InsertStep::CountRows => event is RowCount,
        InsertStep::Trim => event is Trimmed,
        InsertStep::Done => false,
    }
}

/// The inline insert protocol. A new stream is refused once the store holds
/// `max_hashes` streams; after a successful insert, a stream past
/// `max_log_count + TRIM_SLACK` rows loses its `TRIM_SLACK` oldest rows.
pub open spec fn insert_transition(
    step: InsertStep,
    event: InsertEvent,
    max_hashes: int,
    max_log_count: int,
) -> (InsertStep, InsertAction) {
    match (step, event) {
        (InsertStep::LookUpHash, InsertEvent::HashExists(true)) => (
            InsertStep::Insert,
            InsertAction::InsertRecord,
        ),
        (InsertStep::LookUpHash, InsertEvent::HashExists(false)) => (
            InsertStep::CountHashes,
            InsertAction::QueryDistinctHashes,
        ),
        (InsertStep::CountHashes, InsertEvent::DistinctHashes(n)) => if n >= max_hashes {
            (InsertStep::Done, InsertAction::Reply(InsertReply::HashLimitReached))
        } else {
            (InsertStep::Insert, InsertAction::InsertRecord)
        },
        (InsertStep::Insert, InsertEvent::Inserted(ok)) => if ok {
            (InsertStep::CountRows, InsertAction::QueryRowCount)
        } else {
            (InsertStep::Done, InsertAction::Reply(InsertReply::InsertFailed))
        },
        (InsertStep::CountRows, InsertEvent::RowCount(c)) => if c > max_log_count + TRIM_SLACK {
            (InsertStep::Trim, InsertAction::DeleteOldest(TRIM_SLACK))
        } else {
            (InsertStep::Done, InsertAction::Reply(InsertReply::Inserted))
        },
        (InsertStep::Trim, InsertEvent::Trimmed(ok)) => if ok {
            (InsertStep::Done, InsertAction::Reply(InsertReply::Inserted))
        } else {
            (InsertStep::Done, InsertAction::Reply(InsertReply::TrimFailed))
        },
        _ => (InsertStep::Done, InsertAction::Reply(InsertReply::InsertFailed)),
    }
}

/// The first step of the inline insert path: ask whether the stream exists.
pub fn insert_start() -> (r: (InsertStep, InsertAction))
    ensures
        r == (InsertStep::LookUpHash, InsertAction::QueryHashExists),
{
    (InsertStep::LookUpHash, InsertAction::QueryHashExists)
}

/// The next step and operation of the inline insert path, given the outcome
/// of the last operation.
pub fn insert_next(step: InsertStep, event: InsertEvent, max_hashes: usize, max_log_count: usize) -> (r: (
    InsertStep,
    InsertAction,
))
    requires
        answers(step, event),
    ensures
        r == insert_transition(step, event, max_hashes as int, max_log_count as int),
{
    match event {
        InsertEvent::HashExists(exists) => {
            if exists {
                (InsertStep::Insert, InsertAction::InsertRecord)
            } else {
                (InsertStep::CountHashes, InsertAction::QueryDistinctHashes)
            }
        },
        InsertEvent::DistinctHashes(n) => {
            if n >= 0 && (n as u64) >= (max_hashes as u64) {
                (InsertStep::Done, InsertAction::Reply(InsertReply::HashLimitReached))
            } else {
                (InsertStep::Insert, InsertAction::InsertRecord)
            }
        },
        InsertEvent::Inserted(ok) => {
            if ok {
                (InsertStep::CountRows, InsertAction::QueryRowCount)
            } else {
                (InsertStep::Done, InsertAction::Reply(InsertReply::InsertFailed))
            }
        },
        InsertEvent::RowCount(c) => {
            if (c as i128) > (max_log_count as i128) + (TRIM_SLACK as i128) {
                (InsertStep::Trim, InsertAction::DeleteOldest(TRIM_SLACK))
            } else {
                (InsertStep::Done, InsertAction::Reply(InsertReply::Inserted))
            }
        },
        InsertEvent::Trimmed(ok) => {
            if ok {
                (InsertStep::Done, InsertAction::Reply(InsertReply::Inserted))
            } else {
                (InsertStep::Done, InsertAction::Reply(InsertReply::TrimFailed))
            }
        },
    }
}

/// The inline path keeps a stream within `max_log_count + TRIM_SLACK` rows:
/// a stream within that bound before an insert is within it after the insert
/// and the deletion the protocol then asks for.
pub proof fn lemma_inline_insert_bounded(before: int, max_log_count: nat, max_hashes: nat)
    requires
        0 <= before <= max_log_count + TRIM_SLACK,
        before < i64::MAX,
    ensures
        ({
            let (_, action) = insert_transition(
                InsertStep::CountRows,
                InsertEvent::RowCount((before + 1) as i64),
                max_hashes as int,
                max_log_count as int,
            );
            let deleted = match action {
                InsertAction::DeleteOldest(n) => n as int,
                _ => 0,
            };
            before + 1 - deleted <= max_log_count + TRIM_SLACK
        }),
{
}

} // verus!
