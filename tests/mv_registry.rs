use mv_planner::mv::{create_mv_registry, create_type_partitioned_mvs, metric_col_name, MaterializedView};
use mv_planner::query::{Agg, AggOp};

fn s(x: &str) -> String {
    x.to_string()
}

#[test]
fn registry_lists_twelve_views_in_order() {
    let r = create_mv_registry();
    assert_eq!(r.len(), 12);
    assert_eq!(r[0].name, "mv_advertiser_id_full");
    assert_eq!(r[0].group_by, vec![s("type"), s("day"), s("country"), s("advertiser_id")]);
    assert_eq!(r[7].name, "mv_type_only");
    assert_eq!(r[7].group_by, vec![s("type")]);
    assert_eq!(r[11].name, "mv_type_day_country_publisher_id");
    for mv in &r {
        assert_eq!(mv.aggs.len(), 5);
        assert!(mv.partition.is_none());
        assert!(!mv.has_stats());
    }
}

#[test]
fn metric_names_follow_the_naming_rule() {
    assert_eq!(metric_col_name(AggOp::Count, &None), "count_rows");
    assert_eq!(metric_col_name(AggOp::Count, &Some(s("*"))), "count_rows");
    assert_eq!(metric_col_name(AggOp::Sum, &Some(s("bid_price"))), "sum_bid_price");
    assert_eq!(metric_col_name(AggOp::Count, &Some(s("total_price"))), "count_total_price");
    assert_eq!(metric_col_name(AggOp::Max, &Some(s("e.bid_price"))), "max_e_bid_price");
    assert_eq!(metric_col_name(AggOp::Sum, &None), "sum_rows");
}

#[test]
fn create_sql_for_a_base_view() {
    let r = create_mv_registry();
    let sql = r[1].generate_create_sql();
    assert_eq!(
        sql,
        "CREATE TABLE IF NOT EXISTS mv_day_fast AS\nSELECT\ntype,\nday,\nSUM(bid_price) AS sum_bid_price,\nSUM(total_price) AS sum_total_price,\nCOUNT(*) AS count_rows,\nCOUNT(bid_price) AS count_bid_price,\nCOUNT(total_price) AS count_total_price\nFROM events\nGROUP BY 1, 2 ORDER BY type, day;"
    );
}

#[test]
fn create_sql_sorts_type_day_country_first() {
    let mv = MaterializedView::new(
        s("mv_x"),
        vec![s("publisher_id"), s("country"), s("day"), s("type")],
        vec![Agg::new(AggOp::Count, None)],
    );
    assert_eq!(
        mv.generate_create_sql(),
        "CREATE TABLE IF NOT EXISTS mv_x AS\nSELECT\npublisher_id,\ncountry,\nday,\ntype,\nCOUNT(*) AS count_rows\nFROM events\nGROUP BY 1, 2, 3, 4 ORDER BY type, day, country, publisher_id;"
    );
}

#[test]
fn partitioned_siblings_of_large_views() {
    let mut base = create_mv_registry();
    base[6].num_rows = Some(250_000);
    base[7].num_rows = Some(4);
    let only = vec![base[6].clone(), base[7].clone()];
    let parts = create_type_partitioned_mvs(&only);
    assert_eq!(parts.len(), 4);
    assert_eq!(parts[0].name, "mv_type_day_country_type_impression");
    assert_eq!(parts[1].name, "mv_type_day_country_type_click");
    assert_eq!(parts[2].name, "mv_type_day_country_type_serve");
    assert_eq!(parts[3].name, "mv_type_day_country_type_purchase");
    assert_eq!(parts[3].group_by, vec![s("day"), s("country")]);
    assert_eq!(parts[3].partition, Some(s("purchase")));
    assert_eq!(parts[3].aggs.len(), 5);
    assert!(parts[3].num_rows.is_none());
    assert_eq!(
        parts[3].generate_create_sql(),
        "CREATE TABLE IF NOT EXISTS mv_type_day_country_type_purchase AS\nSELECT\nday,\ncountry,\nSUM(bid_price) AS sum_bid_price,\nSUM(total_price) AS sum_total_price,\nCOUNT(*) AS count_rows,\nCOUNT(bid_price) AS count_bid_price,\nCOUNT(total_price) AS count_total_price\nFROM events\nWHERE type = 'purchase'\nGROUP BY 1, 2 ORDER BY day, country;"
    );
}

#[test]
fn views_without_stats_or_type_key() {
    let base = create_mv_registry();
    // No stats: every view grouped by type is partitioned.
    assert_eq!(create_type_partitioned_mvs(&base).len(), 48);
    let no_type = vec![MaterializedView::new(s("mv_day"), vec![s("day")], vec![])];
    assert!(create_type_partitioned_mvs(&no_type).is_empty());
}

#[test]
fn partition_threshold_is_exclusive() {
    let mut base = create_mv_registry();
    base[1].num_rows = Some(99_999);
    assert!(create_type_partitioned_mvs(&vec![base[1].clone()]).is_empty());
    base[1].num_rows = Some(100_000);
    assert_eq!(create_type_partitioned_mvs(&vec![base[1].clone()]).len(), 4);
}

#[test]
fn has_stats_needs_all_three() {
    let mut mv = MaterializedView::new(s("mv"), vec![s("type")], vec![]);
    assert!(!mv.has_stats());
    mv.num_rows = Some(4);
    mv.num_distinct.push((s("type"), 4));
    assert!(!mv.has_stats());
    mv.col_to_topk.push((s("type"), vec![(s("click"), 1)]));
    assert!(mv.has_stats());
}

#[test]
fn new_view_stores_each_aggregate_once() {
    let mv = MaterializedView::new(
        s("mv"),
        vec![s("type")],
        vec![
            Agg::new(AggOp::Sum, Some(s("bid_price"))),
            Agg::new(AggOp::Count, None),
            Agg::new(AggOp::Sum, Some(s("bid_price"))),
            Agg::new(AggOp::Count, None),
        ],
    );
    assert_eq!(mv.aggs.len(), 2);
    assert_eq!(mv.aggs[0].op, AggOp::Sum);
    assert_eq!(mv.aggs[1].op, AggOp::Count);
}
