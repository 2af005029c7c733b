use vstd::prelude::*;
use sqlx::types::Uuid;
use crate::event::ConfigEvent;
use crate::event::Event;

verus! {

broadcast use vstd::string::to_string_from_display_ensures_for_str;

/// An entity whose state is rebuilt by applying its events in order.
pub trait Aggregate: Sized {
    type Event;
    type Error;

    /// The type name under which aggregates of this kind are stored.
    spec fn spec_aggregate_type() -> Seq<char>;

    spec fn spec_aggregate_id(&self) -> Uuid;

    spec fn spec_version(&self) -> i32;

    /// The state after applying `event`, and whether applying it succeeded.
    spec fn transition(self, event: Self::Event) -> (Self, Result<(), Self::Error>);

    fn aggregate_type() -> (r: String)
        ensures
            r@ == Self::spec_aggregate_type(),
    ;

    fn aggregate_id(&self) -> (r: Uuid)
        ensures
            r == self.spec_aggregate_id(),
    ;

    fn version(&self) -> (r: i32)
        ensures
            r == self.spec_version(),
    ;

    fn apply_event(&mut self, event: Self::Event) -> (r: Result<(), Self::Error>)
        ensures
            (*final(self), r) == old(self).transition(event),
    ;

    /// Applies the events in order, stopping at the first that fails: the
    /// state and result are those of folding `transition` over the events,
    /// where a failure passes through every later step unchanged.
    #[verifier::loop_isolation(false)]
    fn apply_events(&mut self, events: Vec<Self::Event>) -> (r: Result<(), Self::Error>)
        ensures
            (*final(self), r) == events@.fold_left(
                (*old(self), Ok(())),
                |acc: (Self, Result<(), Self::Error>), event: Self::Event|
                    if acc.1 is Ok {
                        acc.0.transition(event)
                    } else {
                        acc
                    },
            ),
    {
        let ghost f = |acc: (Self, Result<(), Self::Error>), event: Self::Event|
            if acc.1 is Ok {
                acc.0.transition(event)
            } else {
                acc
            };
        let ghost start = (*self, Ok::<(), Self::Error>(()));
        let ghost all = events@;
        for event in it: events.into_iter()
            invariant
                it.seq() == all,
                all.take(it.index() as int).fold_left(start, f) == (*self, Ok::<(), Self::Error>(())),
        {
            let ghost i = it.index() as int;
            let ghost before = *self;
            proof {
                assert(all.take(i + 1).drop_last() =~= all.take(i));
                assert(all.take(i + 1).fold_left(start, f) == before.transition(event));
            }
            let r = self.apply_event(event);
            match r {
                Ok(()) => {
                    // The solver does not know on its own that the payload of
                    // `Ok` is the unit value; the invariant needs `r == Ok(())`.
                    assert(r->Ok_0 == ());
                },
                Err(e) => {
                    proof {
                        let ghost done = all.take(i + 1).fold_left(start, f);
                        all.lemma_fold_left_split(start, f, i + 1);
                        assert(all.subrange(0, i + 1) =~= all.take(i + 1));
                        assert forall|ev: Self::Event| #[trigger] f(done, ev) == done by {}
                        lemma_fold_left_fixed_point(all.subrange(i + 1, all.len() as int), done, f);
                    }
                    return Err(e);
                },
            }
        }
        proof {
            assert(all.take(all.len() as int) =~= all);
        }
        Ok(())
    }
}

/// A fold whose step leaves some accumulator unchanged keeps it unchanged over
/// any sequence.
pub proof fn lemma_fold_left_fixed_point<E, B>(events: Seq<E>, b: B, f: spec_fn(B, E) -> B)
    requires
        forall|e: E| #[trigger] f(b, e) == b,
    ensures
        events.fold_left(b, f) == b,
    decreases events.len(),
{
    if events.len() > 0 {
        lemma_fold_left_fixed_point(events.drop_last(), b, f);
    }
}

/// The error type of the configuration aggregate. Applying a configuration
/// event never fails, so no value of it is ever produced.
#[derive(Debug)]
pub enum AggregateError {
    EventError,
}

impl AggregateError {
    /// The message that describes the error.
    pub fn message(&self) -> (r: String)
        ensures
            r@ == "Error applying event"@,
    {
        match self {
            AggregateError::EventError => "Error applying event".to_string(),
        }
    }
}

/// Whether a configuration is live or has been deleted.
#[derive(PartialEq, Eq, Structural, Clone, Copy, Debug)]
pub enum ConfigStatus {
    Active,
    Inactive,
}

/// The state of one configuration, rebuilt from its events.
pub struct ConfigAggregate {
    id: Uuid,
    name: String,
    description: String,
    status: ConfigStatus,
    version: i32,
}

/// What a configuration aggregate holds.
pub struct ConfigAggregateView {
    pub id: Uuid,
    pub name: Seq<char>,
    pub description: Seq<char>,
    pub status: ConfigStatus,
    pub version: i32,
}

impl View for ConfigAggregate {
    type V = ConfigAggregateView;

    closed spec fn view(&self) -> ConfigAggregateView {
        ConfigAggregateView {
            id: self.id,
            name: self.name@,
            description: self.description@,
            status: self.status,
            version: self.version,
        }
    }
}

impl ConfigAggregateView {
    /// The state after one event: a creation sets every field and makes the
    /// configuration active; an update replaces id, name, description and
    /// version and keeps the status; a deletion replaces id and version and
    /// makes the configuration inactive.
    pub open spec fn apply(self, event: ConfigEvent) -> ConfigAggregateView {
        match event {
            ConfigEvent::ConfigCreated { id, name, description, version } => ConfigAggregateView {
                id: id,
                name: name@,
                description: description@,
                status: ConfigStatus::Active,
                version: version,
            },
            ConfigEvent::ConfigUpdated { id, name, description, version } => ConfigAggregateView {
                id: id,
                name: name@,
                description: description@,
                version: version,
                ..self
            },
            ConfigEvent::ConfigDeleted { id, version } => ConfigAggregateView {
                id: id,
                status: ConfigStatus::Inactive,
                version: version,
                ..self
            },
        }
    }

    /// The state after applying `events` in order.
    pub open spec fn apply_all(self, events: Seq<ConfigEvent>) -> ConfigAggregateView
        decreases events.len(),
    {
        if events.len() == 0 {
            self
        } else {
            self.apply_all(events.drop_last()).apply(events.last())
        }
    }
}

impl ConfigAggregate {
    /// A configuration with the given id about which nothing has happened
    /// yet: empty name and description, inactive, at version 0.
    pub fn new(id: Uuid) -> (r: ConfigAggregate)
        ensures
            r@ == (ConfigAggregateView {
                id: id,
                name: Seq::empty(),
                description: Seq::empty(),
                status: ConfigStatus::Inactive,
                version: 0,
            }),
    {
        ConfigAggregate {
            id,
            name: String::new(),
            description: String::new(),
            status: ConfigStatus::Inactive,
            version: 0,
        }
    }

    pub fn name(&self) -> (r: &String)
        ensures
            r@ == self@.name,
    {
        &self.name
    }

    pub fn description(&self) -> (r: &String)
        ensures
            r@ == self@.description,
    {
        &self.description
    }

    pub fn status(&self) -> (r: ConfigStatus)
        ensures
            r == self@.status,
    {
        self.status
    }
}

impl Aggregate for ConfigAggregate {
    type Event = ConfigEvent;
    type Error = AggregateError;

    open spec fn spec_aggregate_type() -> Seq<char> {
        "ConfigAggregate"@
    }

    closed spec fn spec_aggregate_id(&self) -> Uuid {
        self.id
    }

    closed spec fn spec_version(&self) -> i32 {
        self.version
    }

    closed spec fn transition(self, event: ConfigEvent) -> (ConfigAggregate, Result<(), AggregateError>) {
        let next = match event {
            ConfigEvent::ConfigCreated { id, name, description, version } => ConfigAggregate {
                id,
                name,
                description,
                status: ConfigStatus::Active,
                version,
            },
            ConfigEvent::ConfigUpdated { id, name, description, version } => ConfigAggregate {
                id,
                name,
                description,
                version,
                ..self
            },
            ConfigEvent::ConfigDeleted { id, version } => ConfigAggregate {
                id,
                status: ConfigStatus::Inactive,
                version,
                ..self
            },
        };
        (next, Ok(()))
    }

    fn aggregate_type() -> (r: String) {
        "ConfigAggregate".to_string()
    }

    fn aggregate_id(&self) -> (r: Uuid)
        ensures
            r == self@.id,
    {
        self.id
    }

    fn version(&self) -> (r: i32)
        ensures
            r == self@.version,
    {
        self.version
    }

    fn apply_event(&mut self, event: ConfigEvent) -> (r: Result<(), AggregateError>)
        ensures
            final(self)@ == old(self)@.apply(event),
            r is Ok,
    {
        match event {
            ConfigEvent::ConfigCreated { id, name, description, version } => {
                self.id = id;
                self.name = name;
                self.description = description;
                self.status = ConfigStatus::Active;
                self.version = version;
            },
            ConfigEvent::ConfigUpdated { id, name, description, version } => {
                self.id = id;
                self.name = name;
                self.description = description;
                self.version = version;
            },
            ConfigEvent::ConfigDeleted { id, version } => {
                self.id = id;
                self.status = ConfigStatus::Inactive;
                self.version = version;
            },
        }
        Ok(())
    }
}

} // verus!

verus! {

/// The state and result of applying `events` to `a` in order, stopping at the
/// first failure: what `Aggregate::apply_events` produces.
pub open spec fn replay<A: Aggregate>(a: A, events: Seq<A::Event>) -> (A, Result<(), A::Error>) {
    events.fold_left(
        (a, Ok(())),
        |acc: (A, Result<(), A::Error>), event: A::Event|
            if acc.1 is Ok {
                acc.0.transition(event)
            } else {
                acc
            },
    )
}

/// Replaying two batches of events one after the other is replaying them
/// together: the second batch starts from where the first left off, and is
/// skipped when the first failed.
pub proof fn law_replay_concat<A: Aggregate>(a: A, first: Seq<A::Event>, second: Seq<A::Event>)
    ensures
        replay(a, first + second) == (if replay(a, first).1 is Ok {
            replay(replay(a, first).0, second)
        } else {
            replay(a, first)
        }),
{
    let f = |acc: (A, Result<(), A::Error>), event: A::Event|
        if acc.1 is Ok {
            acc.0.transition(event)
        } else {
            acc
        };
    let all = first + second;
    let n = first.len() as int;
    all.lemma_fold_left_split((a, Ok(())), f, n);
    assert(all.subrange(0, n) =~= first);
    assert(all.subrange(n, all.len() as int) =~= second);
    let mid = first.fold_left((a, Ok(())), f);
    if mid.1 is Err {
        assert forall|ev: A::Event| #[trigger] f(mid, ev) == mid by {}
        lemma_fold_left_fixed_point(second, mid, f);
    } else {
        assert(mid == (mid.0, Ok::<(), A::Error>(mid.1->Ok_0)));
    }
}

} // verus!

verus! {

/// Rebuilding a configuration from its events never fails, and gives the state
/// that applying the events one by one describes.
pub proof fn law_config_replay(a: ConfigAggregate, events: Seq<ConfigEvent>)
    ensures
        replay(a, events).1 == Ok::<(), AggregateError>(()),
        replay(a, events).0@ == a@.apply_all(events),
    decreases events.len(),
{
    if events.len() > 0 {
        law_config_replay(a, events.drop_last());
    }
}

/// After a non-empty batch of events, the configuration carries the id and the
/// version of the last event.
pub proof fn law_config_tracks_last_event(a: ConfigAggregate, events: Seq<ConfigEvent>)
    requires
        events.len() > 0,
    ensures
        replay(a, events).0.spec_aggregate_id() == events.last().spec_aggregate_id(),
        replay(a, events).0.spec_version() == events.last().spec_version(),
{
    law_config_replay(a, events);
    law_config_replay(a, events.drop_last());
}

/// A stream that starts with the creation of the configuration rebuilds the
/// same configuration whatever state it is replayed onto.
pub proof fn law_config_creation_resets(a: ConfigAggregate, b: ConfigAggregate, events: Seq<ConfigEvent>)
    requires
        events.len() > 0,
        events[0] is ConfigCreated,
    ensures
        replay(a, events).0@ == replay(b, events).0@,
    decreases events.len(),
{
    law_config_replay(a, events);
    law_config_replay(b, events);
    lemma_apply_all_from_creation(a@, b@, events);
}

proof fn lemma_apply_all_from_creation(a: ConfigAggregateView, b: ConfigAggregateView, events: Seq<ConfigEvent>)
    requires
        events.len() > 0,
        events[0] is ConfigCreated,
    ensures
        a.apply_all(events) == b.apply_all(events),
    decreases events.len(),
{
    if events.len() > 1 {
        lemma_apply_all_from_creation(a, b, events.drop_last());
    } else {
        assert(events.drop_last().len() == 0);
    }
}

} // verus!

verus! {

/// A creation event sets every field from the event and makes the
/// configuration active, whatever the state before.
pub proof fn law_config_created(a: ConfigAggregate, id: Uuid, name: String, description: String, version: i32)
    ensures
        ({
            let next = a.transition(ConfigEvent::ConfigCreated { id, name, description, version });
            &&& next.1 is Ok
            &&& next.0@.id == id
            &&& next.0@.name == name@
            &&& next.0@.description == description@
            &&& next.0@.status == ConfigStatus::Active
            &&& next.0@.version == version
        }),
{
}

/// An update replaces id, name, description and version with the event's
/// values, whatever they are, and keeps the status.
pub proof fn law_config_updated(a: ConfigAggregate, id: Uuid, name: String, description: String, version: i32)
    ensures
        ({
            let next = a.transition(ConfigEvent::ConfigUpdated { id, name, description, version });
            &&& next.1 is Ok
            &&& next.0@.id == id
            &&& next.0@.name == name@
            &&& next.0@.description == description@
            &&& next.0@.status == a@.status
            &&& next.0@.version == version
        }),
{
}

/// A deletion replaces id and version, keeps name and description, and makes
/// the configuration inactive.
pub proof fn law_config_deleted(a: ConfigAggregate, id: Uuid, version: i32)
    ensures
        ({
            let next = a.transition(ConfigEvent::ConfigDeleted { id, version });
            &&& next.1 is Ok
            &&& next.0@.id == id
            &&& next.0@.name == a@.name
            &&& next.0@.description == a@.description
            &&& next.0@.status == ConfigStatus::Inactive
            &&& next.0@.version == version
        }),
{
}

/// The view-level description of one event agrees with the aggregate's
/// transition, which `apply_event` performs.
pub proof fn law_config_apply_is_transition(a: ConfigAggregate, event: ConfigEvent)
    ensures
        a.transition(event).0@ == a@.apply(event),
        a.transition(event).1 is Ok,
{
}

} // verus!
