use vstd::prelude::*;
use sqlx::types::Uuid;
use crate::aggregate::ConfigAggregate;
use crate::aggregate::Aggregate;

verus! {

broadcast use vstd::string::to_string_from_display_ensures_for_str;

/// Something that happened to an aggregate: which aggregate, at which version,
/// and under which type name it is stored.
pub trait Event: Sized {
    /// The type name of the aggregate that this kind of event belongs to.
    spec fn spec_aggregate_type() -> Seq<char>;

    /// The name under which the event is stored.
    spec fn spec_event_type(&self) -> Seq<char>;

    /// The aggregate the event belongs to.
    spec fn spec_aggregate_id(&self) -> Uuid;

    /// The aggregate version that the event brings about.
    spec fn spec_version(&self) -> i32;

    fn aggregate_type() -> (r: String)
        ensures
            r@ == Self::spec_aggregate_type(),
    ;

    fn event_type(&self) -> (r: String)
        ensures
            r@ == self.spec_event_type(),
    ;

    fn aggregate_id(&self) -> (r: Uuid)
        ensures
            r == self.spec_aggregate_id(),
    ;

    fn version(&self) -> (r: i32)
        ensures
            r == self.spec_version(),
    ;
}

/// The events of a configuration's life.
pub enum ConfigEvent {
    ConfigCreated { id: Uuid, name: String, description: String, version: i32 },
    ConfigUpdated { id: Uuid, name: String, description: String, version: i32 },
    ConfigDeleted { id: Uuid, version: i32 },
}

impl ConfigEvent {
    /// The name of each kind of event.
    pub open spec fn kind_name(&self) -> Seq<char> {
        match self {
            ConfigEvent::ConfigCreated { .. } => "ConfigCreated"@,
            ConfigEvent::ConfigUpdated { .. } => "ConfigUpdated"@,
            ConfigEvent::ConfigDeleted { .. } => "ConfigDeleted"@,
        }
    }

    pub open spec fn id_of(&self) -> Uuid {
        match self {
            ConfigEvent::ConfigCreated { id, .. } => *id,
            ConfigEvent::ConfigUpdated { id, .. } => *id,
            ConfigEvent::ConfigDeleted { id, .. } => *id,
        }
    }

    pub open spec fn version_of(&self) -> i32 {
        match self {
            ConfigEvent::ConfigCreated { version, .. } => *version,
            ConfigEvent::ConfigUpdated { version, .. } => *version,
            ConfigEvent::ConfigDeleted { version, .. } => *version,
        }
    }
}

impl Event for ConfigEvent {
    open spec fn spec_aggregate_type() -> Seq<char> {
        <ConfigAggregate as Aggregate>::spec_aggregate_type()
    }

    open spec fn spec_event_type(&self) -> Seq<char> {
        self.kind_name()
    }

    open spec fn spec_aggregate_id(&self) -> Uuid {
        self.id_of()
    }

    open spec fn spec_version(&self) -> i32 {
        self.version_of()
    }

    /// Events of a configuration belong to the configuration aggregate.
    fn aggregate_type() -> (r: String) {
        ConfigAggregate::aggregate_type()
    }

    fn event_type(&self) -> (r: String) {
        match self {
            ConfigEvent::ConfigCreated { .. } => "ConfigCreated".to_string(),
            ConfigEvent::ConfigUpdated { .. } => "ConfigUpdated".to_string(),
            ConfigEvent::ConfigDeleted { .. } => "ConfigDeleted".to_string(),
        }
    }

    fn aggregate_id(&self) -> (r: Uuid) {
        match self {
            ConfigEvent::ConfigCreated { id, .. } => *id,
            ConfigEvent::ConfigUpdated { id, .. } => *id,
            ConfigEvent::ConfigDeleted { id, .. } => *id,
        }
    }

    fn version(&self) -> (r: i32) {
        match self {
            ConfigEvent::ConfigCreated { version, .. } => *version,
            ConfigEvent::ConfigUpdated { version, .. } => *version,
            ConfigEvent::ConfigDeleted { version, .. } => *version,
        }
    }
}

/// Configuration events are stored as events of the configuration aggregate.
pub proof fn law_config_events_belong_to_config_aggregate()
    ensures
        <ConfigEvent as Event>::spec_aggregate_type() == <ConfigAggregate as Aggregate>::spec_aggregate_type(),
        <ConfigEvent as Event>::spec_aggregate_type() == "ConfigAggregate"@,
{
}

/// The stored type name tells the kinds of configuration events apart.
pub proof fn law_event_type_identifies_kind(a: ConfigEvent, b: ConfigEvent)
    ensures
        (a.spec_event_type() == b.spec_event_type()) <==> (
            (a is ConfigCreated && b is ConfigCreated)
            || (a is ConfigUpdated && b is ConfigUpdated)
            || (a is ConfigDeleted && b is ConfigDeleted)
        ),
{
    reveal_strlit("ConfigCreated");
    reveal_strlit("ConfigUpdated");
    reveal_strlit("ConfigDeleted");
    assert("ConfigCreated"@[6] != "ConfigUpdated"@[6]);
    assert("ConfigCreated"@[6] != "ConfigDeleted"@[6]);
    assert("ConfigUpdated"@[6] != "ConfigDeleted"@[6]);
}

} // verus!
