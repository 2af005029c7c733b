use vstd::prelude::*;

verus! {

/// Declares `sqlx::types::Uuid` (the `uuid` crate's `Uuid`, re-exported by
/// sqlx), the identifier that aggregates and events carry. It is opaque: the
/// library only copies such values from events into aggregates and records,
/// and states nothing about what they hold.
#[verifier::external_type_specification]
#[verifier::external_body]
pub struct ExUuid(sqlx::types::Uuid);

} // verus!
