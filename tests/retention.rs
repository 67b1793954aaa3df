use ironlog::retention::{
    insert_next, insert_start, trim_amount, InsertAction, InsertEvent, InsertReply, InsertStep,
    TRIM_SLACK,
};

#[test]
fn retention_trims_to_cap() {
    assert_eq!(trim_amount(10, 3), Some(7));
    assert_eq!(10 - trim_amount(10, 3).unwrap(), 3);
}

#[test]
fn retention_leaves_small_streams() {
    assert_eq!(trim_amount(3, 3), None);
    assert_eq!(trim_amount(0, 3), None);
    assert_eq!(trim_amount(-4, 3), None);
    assert_eq!(trim_amount(1, 0), Some(1));
}

#[test]
fn inline_insert_of_known_stream() {
    let (step, action) = insert_start();
    assert_eq!(step, InsertStep::LookUpHash);
    assert_eq!(action, InsertAction::QueryHashExists);
    let (step, action) = insert_next(step, InsertEvent::HashExists(true), 2, 3);
    assert_eq!((step, action), (InsertStep::Insert, InsertAction::InsertRecord));
    let (step, action) = insert_next(step, InsertEvent::Inserted(true), 2, 3);
    assert_eq!((step, action), (InsertStep::CountRows, InsertAction::QueryRowCount));
    let (step, action) = insert_next(step, InsertEvent::RowCount(4), 2, 3);
    assert_eq!(
        (step, action),
        (InsertStep::Done, InsertAction::Reply(InsertReply::Inserted))
    );
}

#[test]
fn inline_insert_refuses_new_stream_at_cap() {
    let (step, _) = insert_start();
    let (step, action) = insert_next(step, InsertEvent::HashExists(false), 2, 3);
    assert_eq!((step, action), (InsertStep::CountHashes, InsertAction::QueryDistinctHashes));
    let (_, action) = insert_next(step, InsertEvent::DistinctHashes(2), 2, 3);
    assert_eq!(action, InsertAction::Reply(InsertReply::HashLimitReached));
    let (step2, action) = insert_next(step, InsertEvent::DistinctHashes(1), 2, 3);
    assert_eq!((step2, action), (InsertStep::Insert, InsertAction::InsertRecord));
}

#[test]
fn inline_insert_trims_past_slack() {
    let max = 3usize;
    let (step, action) = insert_next(InsertStep::CountRows, InsertEvent::RowCount(3 + TRIM_SLACK), 2, max);
    assert_eq!(
        (step, action),
        (InsertStep::Done, InsertAction::Reply(InsertReply::Inserted))
    );
    let (step, action) =
        insert_next(InsertStep::CountRows, InsertEvent::RowCount(4 + TRIM_SLACK), 2, max);
    assert_eq!((step, action), (InsertStep::Trim, InsertAction::DeleteOldest(50)));
    let (_, action) = insert_next(step, InsertEvent::Trimmed(true), 2, max);
    assert_eq!(action, InsertAction::Reply(InsertReply::Inserted));
    let (_, action) = insert_next(step, InsertEvent::Trimmed(false), 2, max);
    assert_eq!(action, InsertAction::Reply(InsertReply::TrimFailed));
}

#[test]
fn inline_insert_failure_is_reported() {
    let (step, action) = insert_next(InsertStep::Insert, InsertEvent::Inserted(false), 2, 3);
    assert_eq!(
        (step, action),
        (InsertStep::Done, InsertAction::Reply(InsertReply::InsertFailed))
    );
}
