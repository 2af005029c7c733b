use config_service::event::{ConfigEvent, Event};
use sqlx::types::Uuid;

#[test]
fn event_type_names() {
    let id = Uuid::from_u128(1);
    let c = ConfigEvent::ConfigCreated { id, name: "a".to_string(), description: "b".to_string(), version: 1 };
    let u = ConfigEvent::ConfigUpdated { id, name: "a".to_string(), description: "b".to_string(), version: 2 };
    let d = ConfigEvent::ConfigDeleted { id, version: 3 };
    assert_eq!(c.event_type(), "ConfigCreated");
    assert_eq!(u.event_type(), "ConfigUpdated");
    assert_eq!(d.event_type(), "ConfigDeleted");
}

#[test]
fn event_ids_and_versions() {
    let c = ConfigEvent::ConfigCreated {
        id: Uuid::from_u128(11),
        name: "a".to_string(),
        description: "b".to_string(),
        version: 1,
    };
    let u = ConfigEvent::ConfigUpdated {
        id: Uuid::from_u128(12),
        name: "a".to_string(),
        description: "b".to_string(),
        version: 2,
    };
    let d = ConfigEvent::ConfigDeleted { id: Uuid::from_u128(13), version: 3 };
    assert_eq!(c.aggregate_id(), Uuid::from_u128(11));
    assert_eq!(u.aggregate_id(), Uuid::from_u128(12));
    assert_eq!(d.aggregate_id(), Uuid::from_u128(13));
    assert_eq!(c.version(), 1);
    assert_eq!(u.version(), 2);
    assert_eq!(d.version(), 3);
}

#[test]
fn config_events_belong_to_config_aggregate() {
    assert_eq!(ConfigEvent::aggregate_type(), "ConfigAggregate");
}
