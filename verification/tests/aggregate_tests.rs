use config_service::aggregate::{Aggregate, AggregateError, ConfigAggregate, ConfigStatus};
use config_service::event::{ConfigEvent, Event};
use sqlx::types::Uuid;

fn created(id: u128, name: &str, description: &str, version: i32) -> ConfigEvent {
    ConfigEvent::ConfigCreated {
        id: Uuid::from_u128(id),
        name: name.to_string(),
        description: description.to_string(),
        version,
    }
}

fn updated(id: u128, name: &str, description: &str, version: i32) -> ConfigEvent {
    ConfigEvent::ConfigUpdated {
        id: Uuid::from_u128(id),
        name: name.to_string(),
        description: description.to_string(),
        version,
    }
}

fn deleted(id: u128, version: i32) -> ConfigEvent {
    ConfigEvent::ConfigDeleted { id: Uuid::from_u128(id), version }
}

#[test]
fn new_aggregate_is_empty_and_inactive() {
    let a = ConfigAggregate::new(Uuid::from_u128(9));
    assert_eq!(a.aggregate_id(), Uuid::from_u128(9));
    assert_eq!(a.version(), 0);
    assert_eq!(a.name(), "");
    assert_eq!(a.description(), "");
    assert_eq!(a.status(), ConfigStatus::Inactive);
}

#[test]
fn aggregate_type_is_config_aggregate() {
    assert_eq!(ConfigAggregate::aggregate_type(), "ConfigAggregate");
}

#[test]
fn created_sets_every_field_and_activates() {
    let mut a = ConfigAggregate::new(Uuid::from_u128(1));
    assert!(a.apply_event(created(5, "db", "the database", 1)).is_ok());
    assert_eq!(a.aggregate_id(), Uuid::from_u128(5));
    assert_eq!(a.name(), "db");
    assert_eq!(a.description(), "the database");
    assert_eq!(a.status(), ConfigStatus::Active);
    assert_eq!(a.version(), 1);
}

#[test]
fn updated_keeps_status() {
    let mut a = ConfigAggregate::new(Uuid::from_u128(1));
    assert!(a.apply_event(updated(5, "n", "d", 3)).is_ok());
    assert_eq!(a.status(), ConfigStatus::Inactive);
    assert_eq!(a.name(), "n");
    assert_eq!(a.description(), "d");
    assert_eq!(a.version(), 3);

    let mut b = ConfigAggregate::new(Uuid::from_u128(1));
    assert!(b.apply_event(created(5, "a", "b", 1)).is_ok());
    assert!(b.apply_event(updated(5, "c", "d", 2)).is_ok());
    assert_eq!(b.status(), ConfigStatus::Active);
    assert_eq!(b.name(), "c");
    assert_eq!(b.version(), 2);
}

#[test]
fn deleted_keeps_name_and_deactivates() {
    let mut a = ConfigAggregate::new(Uuid::from_u128(1));
    assert!(a.apply_event(created(5, "db", "the database", 1)).is_ok());
    assert!(a.apply_event(deleted(6, 2)).is_ok());
    assert_eq!(a.aggregate_id(), Uuid::from_u128(6));
    assert_eq!(a.name(), "db");
    assert_eq!(a.description(), "the database");
    assert_eq!(a.status(), ConfigStatus::Inactive);
    assert_eq!(a.version(), 2);
}

#[test]
fn apply_events_applies_in_order() {
    let mut a = ConfigAggregate::new(Uuid::from_u128(1));
    let events = vec![created(7, "x", "y", 1), updated(7, "x2", "y2", 2), deleted(7, 3), updated(7, "z", "w", 4)];
    assert!(a.apply_events(events).is_ok());
    assert_eq!(a.aggregate_id(), Uuid::from_u128(7));
    assert_eq!(a.name(), "z");
    assert_eq!(a.description(), "w");
    assert_eq!(a.status(), ConfigStatus::Inactive);
    assert_eq!(a.version(), 4);
}

#[test]
fn apply_events_of_nothing_changes_nothing() {
    let mut a = ConfigAggregate::new(Uuid::from_u128(3));
    assert!(a.apply_events(Vec::new()).is_ok());
    assert_eq!(a.aggregate_id(), Uuid::from_u128(3));
    assert_eq!(a.version(), 0);
    assert_eq!(a.status(), ConfigStatus::Inactive);
}

#[test]
fn replay_in_two_batches_equals_one_batch() {
    let mut one = ConfigAggregate::new(Uuid::from_u128(1));
    assert!(one.apply_events(vec![created(2, "a", "b", 1), updated(2, "c", "d", 2), deleted(2, 3)]).is_ok());
    let mut two = ConfigAggregate::new(Uuid::from_u128(1));
    assert!(two.apply_events(vec![created(2, "a", "b", 1)]).is_ok());
    assert!(two.apply_events(vec![updated(2, "c", "d", 2), deleted(2, 3)]).is_ok());
    assert_eq!(one.aggregate_id(), two.aggregate_id());
    assert_eq!(one.name(), two.name());
    assert_eq!(one.description(), two.description());
    assert_eq!(one.status(), two.status());
    assert_eq!(one.version(), two.version());
}

#[test]
fn stream_starting_with_creation_forgets_the_start() {
    let stream = || vec![created(4, "n", "d", 1), updated(4, "n2", "d2", 2)];
    let mut a = ConfigAggregate::new(Uuid::from_u128(1));
    let mut b = ConfigAggregate::new(Uuid::from_u128(2));
    assert!(b.apply_events(vec![created(2, "other", "other", 9), deleted(2, 10)]).is_ok());
    assert!(a.apply_events(stream()).is_ok());
    assert!(b.apply_events(stream()).is_ok());
    assert_eq!(a.aggregate_id(), b.aggregate_id());
    assert_eq!(a.name(), b.name());
    assert_eq!(a.description(), b.description());
    assert_eq!(a.status(), b.status());
    assert_eq!(a.version(), b.version());
}

#[test]
fn aggregate_tracks_last_event() {
    let events = vec![created(4, "n", "d", 1), deleted(8, 6)];
    let last_id = events[1].aggregate_id();
    let last_version = events[1].version();
    let mut a = ConfigAggregate::new(Uuid::from_u128(1));
    assert!(a.apply_events(events).is_ok());
    assert_eq!(a.aggregate_id(), last_id);
    assert_eq!(a.version(), last_version);
}

#[test]
fn aggregate_error_message() {
    assert_eq!(AggregateError::EventError.message(), "Error applying event");
}
