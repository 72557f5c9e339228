use std::sync::Arc;

use datafusion::arrow::array::Int64Array;
use datafusion::arrow::datatypes::{DataType, Field, Schema};
use datafusion::arrow::record_batch::RecordBatch;
use datafusion::datasource::MemTable;
use datafusion::prelude::SessionContext;
use xtract::error::RuleError;
use xtract::rules::{
    alert_for_count, build_rule_expr, compile_rule, render_expr, validate_query, Conditions, Rule,
};

fn rule(any: Vec<&str>, all: Vec<&str>, not: Vec<&str>) -> Rule {
    Rule {
        rulename: "r".to_string(),
        conditions: Conditions {
            any: any.into_iter().map(|s| s.to_string()).collect(),
            all: all.into_iter().map(|s| s.to_string()).collect(),
            not: not.into_iter().map(|s| s.to_string()).collect(),
        },
    }
}

#[test]
fn compile_single_any_condition() {
    let r = rule(vec!["amount>1000"], vec![], vec![]);
    let q = compile_rule(&r).unwrap();
    assert_eq!(q, "SELECT * FROM virtual_table WHERE amount>1000");
}

#[test]
fn compile_joins_each_group_with_its_combinator() {
    let r = rule(vec!["a>1", "b>2"], vec!["c=3", "d=4"], vec!["e=5", "f=6"]);
    let q = compile_rule(&r).unwrap();
    // the groups follow one another without a combinator between them,
    // exactly as assembled for compatibility
    assert_eq!(q, "SELECT * FROM virtual_table WHERE a>1 OR b>2c=3 AND d=4e=5 NOT f=6");
}

#[test]
fn rule_without_conditions_is_skipped() {
    let r = rule(vec![], vec![], vec![]);
    assert!(compile_rule(&r).is_none());
    assert!(build_rule_expr(&r.conditions).is_none());
}

#[test]
fn alert_message_shape() {
    let a = alert_for_count(2);
    assert_eq!(a.id, None);
    assert!(!a.delete);
    assert_eq!(a.data.unwrap(), "2 elements triggered alert");
    let z = alert_for_count(0);
    assert_eq!(z.data.unwrap(), "0 elements triggered alert");
}

#[test]
fn validate_query_accepts_grammatical_text() {
    assert!(validate_query("SELECT * FROM virtual_table WHERE amount > 1000").is_ok());
}

#[test]
fn validate_query_rejects_broken_text() {
    let err = validate_query("SELECT WHERE FROM ???").unwrap_err();
    assert_eq!(err, RuleError::RuleSyntaxError);
}

#[test]
fn typed_builder_renders_parenthesized_combination() {
    let r = rule(vec!["a>1", "b<2"], vec!["c=3"], vec!["d=4"]);
    let e = build_rule_expr(&r.conditions).unwrap();
    let text = render_expr(&e);
    assert_eq!(text, "((((a>1) OR (b<2)) AND (c=3)) AND (NOT (d=4)))");
}

#[test]
fn typed_builder_single_groups() {
    let only_all = rule(vec![], vec!["c=3", "d=4"], vec![]);
    let e = build_rule_expr(&only_all.conditions).unwrap();
    assert_eq!(render_expr(&e), "((c=3) AND (d=4))");

    let only_not = rule(vec![], vec![], vec!["e=5"]);
    let e2 = build_rule_expr(&only_not.conditions).unwrap();
    assert_eq!(render_expr(&e2), "(NOT (e=5))");
}

#[test]
fn typed_builder_output_is_grammatical() {
    let r = rule(vec!["a > 1", "b < 2"], vec!["c = 3"], vec!["d = 4"]);
    let e = build_rule_expr(&r.conditions).unwrap();
    let mut q = "SELECT * FROM virtual_table WHERE ".to_string();
    q.push_str(&render_expr(&e));
    assert!(validate_query(&q).is_ok());
}

#[test]
fn two_of_three_rows_trigger_one_alert() {
    let r = rule(vec!["amount>1000"], vec![], vec![]);
    let query = compile_rule(&r).unwrap();
    assert!(validate_query(&query).is_ok());

    let schema = Arc::new(Schema::new(vec![Field::new("amount", DataType::Int64, false)]));
    let batch = RecordBatch::try_new(
        schema.clone(),
        vec![Arc::new(Int64Array::from(vec![500i64, 1500, 2000]))],
    )
    .unwrap();
    let mem = MemTable::try_new(schema, vec![vec![batch]]).unwrap();

    let rt = tokio::runtime::Runtime::new().unwrap();
    let matched: usize = rt.block_on(async {
        let ctx = SessionContext::new();
        ctx.register_table("virtual_table", Arc::new(mem)).unwrap();
        let df = ctx.sql(&query).await.unwrap();
        let batches = df.collect().await.unwrap();
        batches.iter().map(|b| b.num_rows()).sum()
    });
    assert_eq!(matched, 2);

    let alerts = vec![alert_for_count(matched as u64)];
    assert_eq!(alerts.len(), 1);
    assert_eq!(alerts[0].data.as_deref(), Some("2 elements triggered alert"));
}
