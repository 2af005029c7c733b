use config_service::migration::{ColumnKind, Migration, SchemaChange};

fn created_tables(changes: &[SchemaChange]) -> Vec<String> {
    changes
        .iter()
        .filter_map(|c| match c {
            SchemaChange::CreateTable(t) => Some(t.name.clone()),
            _ => None,
        })
        .collect()
}

#[test]
fn up_creates_three_tables_in_order() {
    let up = Migration.up();
    assert_eq!(up.len(), 9);
    assert_eq!(created_tables(&up), vec!["es_aggregates", "es_events", "es_aggregate_snapshots"]);
}

#[test]
fn tables_if_not_exists_and_columns_not_null() {
    let up = Migration.up();
    for change in &up {
        if let SchemaChange::CreateTable(t) = change {
            assert!(t.if_not_exists);
            assert!(t.columns.iter().all(|c| c.not_null));
        }
    }
}

#[test]
fn events_table_columns() {
    let up = Migration.up();
    match &up[2] {
        SchemaChange::CreateTable(t) => {
            let names: Vec<&str> = t.columns.iter().map(|c| c.name.as_str()).collect();
            assert_eq!(names, vec!["id", "aggregate_id", "version", "event_type", "json_data", "meta_data", "create_at"]);
            assert_eq!(t.columns[0].kind, ColumnKind::BigInteger);
            assert!(t.columns[0].primary_key && t.columns[0].auto_increment);
            assert_eq!(t.columns[6].kind, ColumnKind::Timestamp);
            assert!(t.columns[6].default_now);
        },
        other => panic!("unexpected {:?}", other),
    }
}

#[test]
fn unique_index_over_aggregate_and_version() {
    let up = Migration.up();
    match &up[6] {
        SchemaChange::CreateIndex(ix) => {
            assert_eq!(ix.name, "idx_aggregate_ids_versions");
            assert_eq!(ix.table, "es_events");
            assert_eq!(ix.columns, vec!["aggregate_id".to_string(), "version".to_string()]);
            assert!(ix.unique);
            assert!(!ix.if_not_exists);
        },
        other => panic!("unexpected {:?}", other),
    }
}

#[test]
fn foreign_keys_point_to_aggregates() {
    let up = Migration.up();
    for i in [3usize, 8] {
        match &up[i] {
            SchemaChange::CreateForeignKey(fk) => {
                assert_eq!(fk.to_table, "es_aggregates");
                assert_eq!(fk.to_column, "id");
                assert_eq!(fk.from_column, "aggregate_id");
            },
            other => panic!("unexpected {:?}", other),
        }
    }
}

#[test]
fn down_drops_in_reverse_order() {
    let up = Migration.up();
    let down = Migration.down();
    let dropped: Vec<String> = down
        .iter()
        .map(|c| match c {
            SchemaChange::DropTable(t) => t.clone(),
            other => panic!("unexpected {:?}", other),
        })
        .collect();
    let mut created = created_tables(&up);
    created.reverse();
    assert_eq!(dropped, created);
}

use config_service::migration::{PlanStep, RunPlan};

#[test]
fn plan_run_issues_changes_in_order() {
    let mut run = RunPlan::start(3);
    assert_eq!(run.pending(), PlanStep::Issue(0));
    assert_eq!(run.step(Ok(())), PlanStep::Issue(1));
    assert_eq!(run.step(Ok(())), PlanStep::Issue(2));
    assert_eq!(run.step(Ok(())), PlanStep::Finish(Ok(())));
    assert_eq!(run.pending(), PlanStep::Finish(Ok(())));
}

#[test]
fn empty_plan_succeeds_at_once() {
    assert_eq!(RunPlan::start(0).pending(), PlanStep::Finish(Ok(())));
}

#[test]
fn plan_run_stops_at_first_failure() {
    let mut run = RunPlan::start(9);
    assert_eq!(run.step(Ok(())), PlanStep::Issue(1));
    assert_eq!(run.step(Err(())), PlanStep::Finish(Err(1)));
    assert_eq!(run.step(Ok(())), PlanStep::Finish(Err(1)));
    assert_eq!(run.pending(), PlanStep::Finish(Err(1)));
}

#[test]
fn teardown_without_snapshots_table_drops_nothing_else() {
    let down = Migration.down();
    let mut run = RunPlan::start(down.len());
    assert_eq!(run.pending(), PlanStep::Issue(0));
    match &down[0] {
        SchemaChange::DropTable(t) => assert_eq!(t, "es_aggregate_snapshots"),
        other => panic!("unexpected {:?}", other),
    }
    assert_eq!(run.step(Err(())), PlanStep::Finish(Err(0)));
    assert_eq!(run.step(Ok(())), PlanStep::Finish(Err(0)));
}
