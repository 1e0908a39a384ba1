use checkpoint_coordinator::plan::{
    BatchMySqlQuery, BoundStatement, BoundValues, DataType, Distribution, Field, LogicalPlan,
    MySqlQuery, OptimizerContextRef, PlanError, PlanFor, Planner, Schema,
};
use checkpoint_coordinator::timestamp_field::{TimestampField, TimestampFieldError};

fn ctx() -> OptimizerContextRef {
    OptimizerContextRef { normalized_sql: "select 1".to_string(), explain_verbose: false }
}

fn schema(names: &[&str]) -> Schema {
    Schema {
        fields: names.iter().map(|n| Field { name: n.to_string(), data_type: DataType::Int64 }).collect(),
    }
}

#[test]
fn planners_remember_what_they_plan_for() {
    assert_eq!(Planner::new_for_batch_dql(ctx()).plan_for(), PlanFor::BatchDql);
    assert_eq!(Planner::new_for_batch(ctx()).plan_for(), PlanFor::Batch);
    assert_eq!(Planner::new_for_stream(ctx()).plan_for(), PlanFor::Stream);
    assert_eq!(Planner::new_for_iceberg_table_engine_sink(ctx()).plan_for(), PlanFor::StreamIcebergEngineInternal);
    assert_eq!(Planner::new_for_stream(ctx()).ctx().normalized_sql, "select 1");
}

#[test]
fn values_are_planned_with_their_schema() {
    let mut planner = Planner::new_for_batch(ctx());
    let values = BoundValues { rows: vec![vec![Some(1), None], vec![Some(2), Some(3)]], schema: schema(&["a", "b"]) };
    let root = planner.plan(BoundStatement::Values(values)).unwrap();
    assert_eq!(root.out_names, vec!["a".to_string(), "b".to_string()]);
    match root.plan {
        LogicalPlan::Values(v) => {
            assert_eq!(v.rows, vec![vec![Some(1), None], vec![Some(2), Some(3)]]);
            assert_eq!(v.ctx.normalized_sql, "select 1");
        }
    }
    let ragged = BoundValues { rows: vec![vec![Some(1)], vec![]], schema: schema(&["a"]) };
    assert_eq!(planner.plan(BoundStatement::Values(ragged)).err(), Some(PlanError::RowWidthMismatch { row: 1 }));
}

fn mysql_core() -> MySqlQuery {
    MySqlQuery {
        schema: schema(&["id", "name"]),
        hostname: "db".to_string(),
        port: "3306".to_string(),
        username: "u".to_string(),
        password: "SECRET-REDACTED".to_string(),
        database: "d".to_string(),
        query: "select * from t".to_string(),
    }
}

#[test]
fn mysql_query_node_runs_on_one_node() {
    let node = BatchMySqlQuery::new(mysql_core());
    assert_eq!(node.base.distribution, Distribution::Single);
    assert_eq!(node.column_names(), vec!["id".to_string(), "name".to_string()]);
    let copy = node.clone_with_dist();
    assert_eq!(copy.base.distribution, Distribution::Single);
    assert_eq!(copy.core.query, "select * from t");
    assert!(node.to_local().is_ok());
    assert!(node.to_distributed().is_ok());
    let body = node.to_batch_prost_body();
    assert_eq!(body.columns.len(), 2);
    assert_eq!(body.columns[1].name, "name");
    assert_eq!(body.columns[1].column_index, 1);
    assert_eq!(body.hostname, "db");
    assert_eq!(body.port, "3306");
    assert_eq!(body.query, "select * from t");
}

#[test]
fn timestamp_field_windows() {
    let field = TimestampField::new(None).unwrap();
    assert_eq!(field.max_past_secs, 86400);
    assert!(field.local_now_secs > 1_600_000_000);
    assert_eq!(TimestampField::new(Some("1h".to_string())).unwrap().max_past_secs, 3600);
    assert_eq!(TimestampField::new(Some("2 minutes".to_string())).unwrap().max_past_secs, 120);
    assert_eq!(TimestampField::new(Some("soon".to_string())).err(), Some(TimestampFieldError::InvalidDuration));
}

#[test]
fn timestamp_field_writes_times_within_the_window() {
    let mut field = TimestampField { max_past_secs: 60, local_now_secs: 1_700_000_000, local_now_nanos: 0 };
    assert_eq!(field.timestamp_before(0), Some("2023-11-14 22:13:20".to_string()));
    assert_eq!(field.timestamp_before(20), Some("2023-11-14 22:13:00".to_string()));
    let generated = field.generate().unwrap();
    assert!(generated.starts_with("2023-11-14 22:1"));
    assert_eq!(generated.len(), 19);
}
