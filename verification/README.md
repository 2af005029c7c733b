# config_service

An event-sourced configuration service. `src/` is the verified library:

- `aggregate.rs`: the `Aggregate` trait (state rebuilt by applying events), the
  configuration aggregate and the laws of replaying events.
- `event.rs`: the `Event` trait and the configuration events.
- `event_store.rs`: store errors, the record written per event, the decisions of
  saving a batch of events in one transaction (a step function driven by the
  caller), and the collection of events read back.
- `migration.rs`: the schema plan of the event store (set up and tear down), and
  the run that carries a plan out change by change, stopping at the first failure.
- `controller.rs`, `config.rs`, `command_handler.rs`: request/response types,
  the service configuration and the command trait.

`app/` is the server: HTTP routes, environment configuration, the PostgreSQL
event store that performs the library's save decisions, and the migration
runner that issues the schema plan.
