use config_service::event::ConfigEvent;
use config_service::event_store::{collect_events, EventRecord, EventStoreError, SaveAction, SaveEvents};
use sqlx::types::Uuid;

#[test]
fn error_messages() {
    assert_eq!(EventStoreError::AggregateInsertError.message(), "Error inserting/updating aggregate");
    assert_eq!(EventStoreError::EventInsertError.message(), "Error inserting event");
    assert_eq!(EventStoreError::TrxError.message(), "Error create/commit transaction");
    assert_eq!(EventStoreError::DbError.message(), "Error make query to database");
    assert_eq!(EventStoreError::EventJsonConversionError.message(), "Error converting event to JSON");
}

#[test]
fn record_of_an_event() {
    let e = ConfigEvent::ConfigDeleted { id: Uuid::from_u128(42), version: 5 };
    let r = EventRecord::of(&e);
    assert_eq!(r.aggregate_id, Uuid::from_u128(42));
    assert_eq!(r.version, 5);
    assert_eq!(r.event_type, "ConfigDeleted");
    assert_eq!(r.aggregate_type, "ConfigAggregate");
}

#[test]
fn collect_events_keeps_row_order() {
    let r = collect_events(Ok(vec![Some(3), Some(1), Some(2)]));
    assert_eq!(r, Ok(vec![3, 1, 2]));
    let empty: Result<Vec<Option<u8>>, ()> = Ok(vec![]);
    assert_eq!(collect_events(empty), Ok(vec![]));
}

#[test]
fn collect_events_failed_query_is_db_error() {
    let r: Result<Vec<u8>, EventStoreError> = collect_events(Err(()));
    assert_eq!(r, Err(EventStoreError::DbError));
}

#[test]
fn collect_events_undecodable_row_is_conversion_error() {
    let r = collect_events(Ok(vec![Some(1), None, Some(2)]));
    assert_eq!(r, Err(EventStoreError::EventJsonConversionError));
}

#[test]
fn save_of_two_events_all_succeeding() {
    let mut m = SaveEvents::start(2);
    assert_eq!(m.pending(), SaveAction::BeginTransaction);
    assert_eq!(m.step(Ok(false)), SaveAction::SerializeEvent(0));
    assert_eq!(m.step(Ok(false)), SaveAction::FindAggregate(0));
    assert_eq!(m.step(Ok(false)), SaveAction::InsertAggregate(0));
    assert_eq!(m.step(Ok(false)), SaveAction::InsertEvent(0));
    assert_eq!(m.step(Ok(false)), SaveAction::SerializeEvent(1));
    assert_eq!(m.step(Ok(false)), SaveAction::FindAggregate(1));
    assert_eq!(m.step(Ok(true)), SaveAction::UpdateAggregate(1));
    assert_eq!(m.step(Ok(false)), SaveAction::InsertEvent(1));
    assert_eq!(m.step(Ok(false)), SaveAction::Commit);
    assert_eq!(m.step(Ok(false)), SaveAction::Finish(Ok(())));
    assert_eq!(m.pending(), SaveAction::Finish(Ok(())));
}

#[test]
fn save_of_no_events_commits_at_once() {
    let mut m = SaveEvents::start(0);
    assert_eq!(m.step(Ok(false)), SaveAction::Commit);
    assert_eq!(m.step(Ok(false)), SaveAction::Finish(Ok(())));
}

fn fail_after(successes: usize) -> SaveAction {
    let mut m = SaveEvents::start(1);
    for _ in 0..successes {
        m.step(Ok(false));
    }
    m.step(Err(()))
}

#[test]
fn save_failures_map_to_errors() {
    assert_eq!(fail_after(0), SaveAction::Finish(Err(EventStoreError::TrxError)));
    assert_eq!(fail_after(1), SaveAction::Finish(Err(EventStoreError::EventJsonConversionError)));
    assert_eq!(fail_after(2), SaveAction::Finish(Err(EventStoreError::DbError)));
    assert_eq!(fail_after(3), SaveAction::Finish(Err(EventStoreError::AggregateInsertError)));
    assert_eq!(fail_after(4), SaveAction::Finish(Err(EventStoreError::EventInsertError)));
    assert_eq!(fail_after(5), SaveAction::Finish(Err(EventStoreError::TrxError)));
}

#[test]
fn update_failure_is_aggregate_error() {
    let mut m = SaveEvents::start(1);
    m.step(Ok(false));
    m.step(Ok(false));
    assert_eq!(m.step(Ok(true)), SaveAction::UpdateAggregate(0));
    assert_eq!(m.step(Err(())), SaveAction::Finish(Err(EventStoreError::AggregateInsertError)));
}

#[test]
fn save_failure_is_final() {
    let mut m = SaveEvents::start(3);
    m.step(Ok(false));
    assert_eq!(m.step(Err(())), SaveAction::Finish(Err(EventStoreError::EventJsonConversionError)));
    assert_eq!(m.step(Ok(false)), SaveAction::Finish(Err(EventStoreError::EventJsonConversionError)));
    assert_eq!(m.step(Ok(true)), SaveAction::Finish(Err(EventStoreError::EventJsonConversionError)));
}
