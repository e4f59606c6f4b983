use mv_planner::mv::{create_mv_registry, index_statements, mv_from_columns, MaterializedView};
use mv_planner::profiling::{ProfilingConfig, ProfilingMode};
use mv_planner::query::AggOp;
use mv_planner::stats::{counts_query, topk_query};

fn s(x: &str) -> String {
    x.to_string()
}

#[test]
fn indexes_follow_the_key_patterns() {
    let r = create_mv_registry();
    assert_eq!(
        index_statements(&r[6]),
        vec![
            s("CREATE INDEX IF NOT EXISTS idx_mv_type_day_country_type_day ON mv_type_day_country(type, day);"),
            s("CREATE INDEX IF NOT EXISTS idx_mv_type_day_country_day ON mv_type_day_country(day);"),
            s("CREATE INDEX IF NOT EXISTS idx_mv_type_day_country_type ON mv_type_day_country(type);"),
            s("CREATE INDEX IF NOT EXISTS idx_mv_type_day_country_country ON mv_type_day_country(country);"),
            s("CREATE INDEX IF NOT EXISTS idx_mv_type_day_country_type_country ON mv_type_day_country(type, country);"),
        ]
    );
    assert_eq!(
        index_statements(&r[5]),
        vec![
            s("CREATE INDEX IF NOT EXISTS idx_mv_type_week_type ON mv_type_week(type);"),
            s("CREATE INDEX IF NOT EXISTS idx_mv_type_week_week ON mv_type_week(week);"),
        ]
    );
    let none = MaterializedView::new(s("mv_hour"), vec![s("hour")], vec![]);
    assert!(index_statements(&none).is_empty());
}

#[test]
fn stats_queries() {
    let r = create_mv_registry();
    assert_eq!(counts_query(&r[4]), "SELECT COUNT(*), COUNT(DISTINCT type), COUNT(DISTINCT country) FROM mv_type_country");
    assert_eq!(
        topk_query(&r[4], &s("country")),
        "SELECT CAST(country AS VARCHAR) as country, COUNT(*) as cnt FROM mv_type_country GROUP BY country ORDER BY cnt DESC LIMIT 10"
    );
}

#[test]
fn attached_stats_cover_every_key() {
    let mut mv = create_mv_registry()[4].clone();
    mv.attach_stats(48, vec![4, 12], vec![vec![(s("click"), 12)], vec![(s("US"), 4), (s("CA"), 4)]]);
    assert!(mv.has_stats());
    assert_eq!(mv.num_rows, Some(48));
    assert_eq!(mv.num_distinct, vec![(s("type"), 4), (s("country"), 12)]);
    assert_eq!(mv.col_to_topk[1].0, "country");
    assert_eq!(mv.col_to_topk[1].1.len(), 2);
}

#[test]
fn descriptors_from_table_columns() {
    let cols = vec![s("type"), s("day"), s("sum_bid_price"), s("count_rows"), s("count_total_price"), s("max_bid_price")];
    let base = mv_from_columns(s("mv_day_fast"), &cols);
    assert_eq!(base.group_by, vec![s("type"), s("day")]);
    assert!(base.partition.is_none());
    assert_eq!(base.aggs.len(), 4);
    assert_eq!(base.aggs[0].op, AggOp::Sum);
    assert_eq!(base.aggs[0].column, Some(s("bid_price")));
    assert_eq!(base.aggs[1].op, AggOp::Count);
    assert_eq!(base.aggs[1].column, None);
    assert_eq!(base.aggs[3].op, AggOp::Max);

    let sib = mv_from_columns(s("mv_type_day_country_type_click"), &vec![s("day"), s("country"), s("count_rows")]);
    assert_eq!(sib.partition, Some(s("click")));
    assert_eq!(sib.group_by, vec![s("day"), s("country")]);

    // A base view whose name holds `_type_` but does not end in an event type.
    let other = mv_from_columns(s("mv_type_day_country"), &vec![s("type"), s("day"), s("country")]);
    assert!(other.partition.is_none());
    assert_eq!(other.group_by.len(), 3);
}

#[test]
fn default_profiling_config() {
    let c = ProfilingConfig::default();
    assert_eq!(c.mode, ProfilingMode::Json);
    assert_eq!(c.output_dir, "profiling");
    assert!(c.enable_detailed && c.enable_optimizer_metrics && c.enable_planner_metrics && c.enable_physical_planner_metrics);
}

#[test]
fn repeated_metric_columns_give_one_aggregate() {
    let cols = vec![s("day"), s("count_rows"), s("count_rows"), s("sum_bid_price")];
    let mv = mv_from_columns(s("mv_day"), &cols);
    assert_eq!(mv.aggs.len(), 2);
    assert_eq!(mv.group_by, vec![s("day")]);
}
