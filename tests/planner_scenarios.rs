use mv_planner::hardware::HardwareInfo;
use mv_planner::mv::{create_mv_registry, create_type_partitioned_mvs, MaterializedView};
use mv_planner::planner::{CostWeights, Planner, SEL_ONE};
use mv_planner::query::{Agg, AggOp, Condition, Literal, OrderItem, Predicate, Query, SelectItem};
use mv_planner::results::extract_query_number;
use mv_planner::sql::{assemble_sql, PlanError};

fn s(x: &str) -> String {
    x.to_string()
}

fn text(x: &str) -> Literal {
    Literal::Text(s(x))
}

fn agg(op: AggOp, col: Option<&str>) -> SelectItem {
    SelectItem::Aggregate(Agg::new(op, col.map(|c| c.to_string())))
}

fn col(c: &str) -> SelectItem {
    SelectItem::Column(s(c))
}

fn pred(c: &str, cond: Condition) -> Predicate {
    Predicate { col: s(c), cond }
}

fn query(select: Vec<SelectItem>, preds: Vec<Predicate>, group_by: Vec<&str>) -> Query {
    Query {
        select,
        from: s("events"),
        where_clause: preds,
        group_by: group_by.into_iter().map(s).collect(),
        order_by: vec![],
        limit: None,
    }
}

fn planner() -> Planner {
    Planner::new(CostWeights { scan: 1000, rollup: 32_000 })
}

/// Attaches statistics: a row count, distinct counts, and for `type` a top-K
/// list splitting the rows evenly over the four event types.
fn with_stats(mut mv: MaterializedView, rows: u64, distinct: &[(&str, u64)]) -> MaterializedView {
    mv.num_rows = Some(rows);
    for (k, d) in distinct {
        mv.num_distinct.push((s(k), *d));
    }
    if mv.group_by.iter().any(|k| k == "type") {
        let each = rows / 4;
        let tk = vec![(s("impression"), each), (s("click"), each), (s("serve"), each), (s("purchase"), each)];
        mv.col_to_topk.push((s("type"), tk));
    }
    mv
}

fn registry_with_stats() -> Vec<MaterializedView> {
    let r = create_mv_registry();
    let t = ("type", 4);
    vec![
        with_stats(r[0].clone(), 5_000_000, &[t, ("day", 366), ("country", 12), ("advertiser_id", 1600)]),
        with_stats(r[1].clone(), 1464, &[t, ("day", 366)]),
        with_stats(r[2].clone(), 2_000_000, &[t, ("day", 366), ("hour", 24), ("minute", 1440)]),
        with_stats(r[3].clone(), 6400, &[t, ("advertiser_id", 1600)]),
        with_stats(r[4].clone(), 48, &[t, ("country", 12)]),
        with_stats(r[5].clone(), 212, &[t, ("week", 53)]),
        with_stats(r[6].clone(), 17_568, &[t, ("day", 366), ("country", 12)]),
        with_stats(r[7].clone(), 4, &[t]),
        with_stats(r[8].clone(), 1_000_000, &[t, ("day", 366), ("publisher_id", 700)]),
        with_stats(r[9].clone(), 2_000_000, &[t, ("day", 366), ("minute", 1440)]),
        with_stats(r[10].clone(), 1464, &[t, ("week", 53), ("day", 366)]),
        with_stats(r[11].clone(), 3_000_000, &[t, ("day", 366), ("country", 12), ("publisher_id", 700)]),
    ]
}

fn with_purchase_partition() -> Vec<MaterializedView> {
    let mut mvs = registry_with_stats();
    let parents = vec![mvs[6].clone()];
    let mut sibs = create_type_partitioned_mvs(&{
        let mut p = parents.clone();
        p[0].num_rows = Some(200_000);
        p
    });
    for sib in sibs.iter_mut() {
        sib.num_rows = Some(4392);
        sib.num_distinct = vec![(s("day"), 366), (s("country"), 12)];
    }
    mvs.extend(sibs);
    mvs
}

#[test]
fn count_star_with_type_filter() {
    let mvs = registry_with_stats();
    let q = query(vec![agg(AggOp::Count, None)], vec![pred("type", Condition::Eq(text("impression")))], vec![]);
    let p = planner();
    assert_eq!(p.choose_mv(&q, &mvs), Some(7));
    assert_eq!(
        p.translate_query(&q, &mvs).unwrap(),
        "SELECT SUM(count_rows) AS \"count_star()\" FROM mv_type_only WHERE type = 'impression'"
    );
}

#[test]
fn type_partition_with_rollup_order_and_limit() {
    let mvs = with_purchase_partition();
    let mut q = query(
        vec![col("country"), agg(AggOp::Sum, Some("total_price"))],
        vec![
            pred("type", Condition::Eq(text("purchase"))),
            pred("day", Condition::Between(text("2024-01-01"), text("2024-01-31"))),
        ],
        vec!["country"],
    );
    q.order_by = vec![OrderItem { col: s("sum(total_price)"), desc: true }];
    q.limit = Some(10);
    let p = planner();
    let i = p.choose_mv(&q, &mvs).unwrap();
    assert_eq!(mvs[i].name, "mv_type_day_country_type_purchase");
    assert_eq!(
        p.translate_query(&q, &mvs).unwrap(),
        "SELECT country, SUM(sum_total_price) AS \"sum(total_price)\" FROM mv_type_day_country_type_purchase WHERE day BETWEEN '2024-01-01' AND '2024-01-31' GROUP BY country ORDER BY SUM(sum_total_price) DESC LIMIT 10"
    );
}

#[test]
fn average_from_sum_and_count() {
    let mvs = registry_with_stats();
    let q = query(vec![agg(AggOp::Avg, Some("bid_price"))], vec![pred("type", Condition::Eq(text("impression")))], vec![]);
    assert_eq!(
        planner().translate_query(&q, &mvs).unwrap(),
        "SELECT SUM(sum_bid_price)/NULLIF(SUM(count_bid_price),0) AS \"avg(bid_price)\" FROM mv_type_only WHERE type = 'impression'"
    );
}

#[test]
fn group_by_unknown_key_falls_back() {
    let mvs = registry_with_stats();
    let q = query(vec![col("auction_id"), agg(AggOp::Count, None)], vec![], vec!["auction_id"]);
    let p = planner();
    assert_eq!(p.choose_mv(&q, &mvs), None);
    assert_eq!(p.translate_query(&q, &mvs).unwrap(), "SELECT auction_id, COUNT(*) FROM events GROUP BY auction_id");
    assert_eq!(p.translate_query(&q, &mvs).unwrap(), assemble_sql(&q));
}

#[test]
fn in_list_sums_top_k() {
    let mut mvs = registry_with_stats();
    mvs[4].col_to_topk.push((s("country"), vec![(s("US"), 8), (s("CA"), 4)]));
    let in_pred = pred("country", Condition::In(vec![text("US"), text("CA"), text("DE")]));
    let p = planner();
    // US 8/48, CA 4/48, DE absent: 1/12; each rounded up.
    assert_eq!(p.predicate_selectivity(&in_pred, &mvs[4]), 166_667 + 83_334 + 83_334);
    let q = query(vec![col("country"), agg(AggOp::Count, None)], vec![in_pred], vec!["country"]);
    let i = p.choose_mv(&q, &mvs).unwrap();
    assert_eq!(mvs[i].name, "mv_type_country");
    assert_eq!(
        p.translate_query(&q, &mvs).unwrap(),
        "SELECT country, SUM(count_rows) AS \"count_star()\" FROM mv_type_country WHERE country IN ('US', 'CA', 'DE') GROUP BY country"
    );
}

#[test]
fn equal_costs_go_to_the_first_name() {
    let r = create_mv_registry();
    let mut b = with_stats(r[7].clone(), 4, &[("type", 4)]);
    b.name = s("mv_b");
    let mut a = b.clone();
    a.name = s("mv_a");
    let mvs = vec![b, a];
    let q = query(vec![agg(AggOp::Count, None)], vec![], vec!["type"]);
    let p = planner();
    assert_eq!(p.mv_cost(&q, &mvs[0]), p.mv_cost(&q, &mvs[1]));
    assert_eq!(p.choose_mv(&q, &mvs), Some(1));
}

#[test]
fn chosen_view_is_always_usable() {
    let mvs = with_purchase_partition();
    let p = planner();
    let queries = vec![
        query(vec![agg(AggOp::Count, None)], vec![pred("type", Condition::Eq(text("click")))], vec![]),
        query(vec![col("day"), agg(AggOp::Sum, Some("bid_price"))], vec![], vec!["day"]),
        query(vec![col("minute"), agg(AggOp::Count, None)], vec![pred("day", Condition::Eq(text("2024-06-01")))], vec!["minute"]),
        query(vec![col("publisher_id"), agg(AggOp::Avg, Some("total_price"))], vec![pred("country", Condition::Eq(text("JP")))], vec!["publisher_id"]),
    ];
    for q in &queries {
        let i = p.choose_mv(q, &mvs).unwrap();
        assert!(p.is_mv_usable(q, &mvs[i]));
    }
}

#[test]
fn fallback_when_no_view_stores_the_aggregate() {
    let mvs = registry_with_stats();
    let q = query(vec![agg(AggOp::Min, Some("bid_price"))], vec![], vec![]);
    let p = planner();
    for mv in &mvs {
        assert!(!p.is_mv_usable(&q, mv));
    }
    assert_eq!(p.translate_query(&q, &mvs).unwrap(), "SELECT MIN(bid_price) FROM events");
}

#[test]
fn partitions_need_a_matching_type_filter() {
    let mvs = with_purchase_partition();
    let p = planner();
    let sib = mvs.iter().find(|m| m.name == "mv_type_day_country_type_click").unwrap();
    let no_filter = query(vec![col("day"), agg(AggOp::Count, None)], vec![], vec!["day"]);
    assert!(!p.is_mv_usable(&no_filter, sib));
    let i = p.choose_mv(&no_filter, &mvs).unwrap();
    assert!(mvs[i].partition.is_none());
    let other = query(vec![agg(AggOp::Count, None)], vec![pred("type", Condition::Eq(text("purchase")))], vec![]);
    assert!(!p.is_mv_usable(&other, sib));
    let same = query(vec![agg(AggOp::Count, None)], vec![pred("type", Condition::Eq(text("click")))], vec![]);
    assert!(p.is_mv_usable(&same, sib));
}

#[test]
fn partition_reads_type_as_its_constant() {
    let mvs = with_purchase_partition();
    let sib = mvs.iter().find(|m| m.name == "mv_type_day_country_type_purchase").unwrap();
    let q = query(
        vec![col("type"), col("day"), agg(AggOp::Count, None)],
        vec![pred("type", Condition::Eq(text("purchase")))],
        vec!["type", "day"],
    );
    assert_eq!(
        mv_planner::sql::assemble_sql_for_mv(&q, sib).unwrap(),
        "SELECT 'purchase' AS type, day, SUM(count_rows) AS \"count_star()\" FROM mv_type_day_country_type_purchase GROUP BY day"
    );
}

#[test]
fn base_view_keeps_type_predicate() {
    let mvs = registry_with_stats();
    let q = query(
        vec![col("day"), agg(AggOp::Count, None)],
        vec![pred("type", Condition::Eq(text("click"))), pred("day", Condition::Gte(Literal::Number(s("20"))))],
        vec!["day"],
    );
    assert_eq!(
        mv_planner::sql::assemble_sql_for_mv(&q, &mvs[6]).unwrap(),
        "SELECT day, SUM(count_rows) AS \"count_star()\" FROM mv_type_day_country WHERE type = 'click' AND day >= 20 GROUP BY day"
    );
}

#[test]
fn unknown_order_function_is_an_error() {
    let mvs = registry_with_stats();
    let mut q = query(vec![col("type"), agg(AggOp::Count, None)], vec![], vec!["type"]);
    q.order_by = vec![OrderItem { col: s("median(bid_price)"), desc: false }];
    assert_eq!(planner().translate_query(&q, &mvs), Err(PlanError::UnsupportedAggregate));
    q.order_by = vec![OrderItem { col: s("count(*)"), desc: true }, OrderItem { col: s("type"), desc: false }];
    assert_eq!(
        planner().translate_query(&q, &mvs).unwrap(),
        "SELECT type, SUM(count_rows) AS \"count_star()\" FROM mv_type_only GROUP BY type ORDER BY SUM(count_rows) DESC, type ASC"
    );
}

#[test]
fn plain_statement_renders_every_clause() {
    let mut q = query(
        vec![col("country"), agg(AggOp::Max, Some("bid_price"))],
        vec![
            pred("country", Condition::Neq(text("US"))),
            pred("hour", Condition::Lt(Literal::Number(s("12")))),
            pred("week", Condition::In(vec![text("2024-01-01"), text("2024-01-08")])),
        ],
        vec!["country"],
    );
    q.order_by = vec![OrderItem { col: s("max(bid_price)"), desc: true }];
    q.limit = Some(5);
    assert_eq!(
        assemble_sql(&q),
        "SELECT country, MAX(bid_price) FROM events WHERE country != 'US' AND hour < 12 AND week IN ('2024-01-01', '2024-01-08') GROUP BY country ORDER BY max(bid_price) DESC LIMIT 5"
    );
}

#[test]
fn selectivity_rules() {
    let mvs = registry_with_stats();
    let p = planner();
    let m = &mvs[6];
    // top-K: 4392 of 17568 rows.
    assert_eq!(p.predicate_selectivity(&pred("type", Condition::Eq(text("click"))), m), 250_000);
    // not in top-K: one over the distinct count, rounded up.
    assert_eq!(p.predicate_selectivity(&pred("country", Condition::Eq(text("FR"))), m), 83_334);
    // neq: the complement, 11 of 12, rounded up.
    assert_eq!(p.predicate_selectivity(&pred("country", Condition::Neq(text("FR"))), m), 916_667);
    // neq with top-K: 13176 of 17568 rows are not clicks.
    assert_eq!(p.predicate_selectivity(&pred("type", Condition::Neq(text("click"))), m), 750_000);
    assert_eq!(p.predicate_selectivity(&pred("day", Condition::Between(text("a"), text("b"))), m), 500_000);
    assert_eq!(p.predicate_selectivity(&pred("day", Condition::Between(text("a"), text("b"))), &mvs[1]), 500_000);
    let mut small = mvs[1].clone();
    small.num_distinct = vec![(s("type"), 4), (s("day"), 31)];
    assert_eq!(p.predicate_selectivity(&pred("day", Condition::Between(text("a"), text("b"))), &small), 200_000);
    assert_eq!(p.predicate_selectivity(&pred("hour", Condition::Between(text("1"), text("2"))), &mvs[2]), 20_834);
    assert_eq!(p.predicate_selectivity(&pred("country", Condition::Between(text("A"), text("C"))), m), 333_334);
    assert_eq!(p.predicate_selectivity(&pred("day", Condition::Lt(text("2024-02-01"))), m), 100_000);
    // A numeric literal is looked up by its text: absent from top-K, so one over four.
    assert_eq!(p.predicate_selectivity(&pred("type", Condition::Eq(Literal::Number(s("3")))), m), 250_000);
    let mut ids = mvs[3].clone();
    ids.col_to_topk.push((s("advertiser_id"), vec![(s("42"), 640)]));
    assert_eq!(p.predicate_selectivity(&pred("advertiser_id", Condition::Eq(Literal::Number(s("42")))), &ids), 100_000);
    // no statistics for the column
    assert_eq!(p.predicate_selectivity(&pred("week", Condition::Eq(text("x"))), m), 100_000);
}

#[test]
fn selectivity_stays_a_fraction() {
    let mut mvs = registry_with_stats();
    mvs[4].col_to_topk.push((s("country"), vec![(s("US"), 40), (s("CA"), 30), (s("ZZ"), 0)]));
    let p = planner();
    let preds = vec![
        pred("country", Condition::In(vec![text("US"), text("CA"), text("DE")])),
        pred("country", Condition::Eq(text("US"))),
        pred("country", Condition::Neq(text("US"))),
        pred("country", Condition::Between(text("A"), text("Z"))),
        pred("type", Condition::Gt(text("a"))),
    ];
    for pr in &preds {
        let v = p.predicate_selectivity(pr, &mvs[4]);
        assert!(v <= SEL_ONE);
        assert!(v > 0);
    }
    // Over the cap: 40 + 30 of 48 rows.
    assert_eq!(p.predicate_selectivity(&preds[0], &mvs[4]), SEL_ONE);
    // Zero only where top-K records zero.
    assert_eq!(p.predicate_selectivity(&pred("country", Condition::Eq(text("ZZ"))), &mvs[4]), 0);
}

#[test]
fn neq_reads_zero_only_when_every_row_matches() {
    let r = create_mv_registry();
    let p = planner();
    let mut m = r[4].clone();
    m.num_rows = Some(2_000_000);
    m.num_distinct = vec![(s("type"), 4), (s("country"), 12)];
    m.col_to_topk = vec![(s("country"), vec![(s("US"), 1_999_999), (s("ALL"), 2_000_000)])];
    assert_eq!(p.predicate_selectivity(&pred("country", Condition::Eq(text("US"))), &m), SEL_ONE);
    assert_eq!(p.predicate_selectivity(&pred("country", Condition::Neq(text("US"))), &m), 1);
    assert_eq!(p.predicate_selectivity(&pred("country", Condition::Neq(text("ALL"))), &m), 0);
    let mut one = m.clone();
    one.col_to_topk = vec![];
    one.num_distinct = vec![(s("country"), 1)];
    assert_eq!(p.predicate_selectivity(&pred("country", Condition::Neq(text("US"))), &one), 0);
    one.num_distinct = vec![];
    assert_eq!(p.predicate_selectivity(&pred("country", Condition::Neq(text("US"))), &one), SEL_ONE - 100_000);
}

#[test]
fn cost_exact_value() {
    let mvs = registry_with_stats();
    let p = planner();
    let q = query(vec![col("type"), col("day"), agg(AggOp::Count, None)], vec![], vec!["type", "day"]);
    // Exact key match on mv_day_fast, under ten thousand rows: factor 0.8 * 0.9.
    assert_eq!(p.mv_cost(&q, &mvs[1]), (1000u128 * 1464 * 1_000_000 + 32_000 * 1_000_000) * 720_000);
    // Rollup from mv_type_week_day (type, week, day): 53 weeks rolled away, 1464 rows, factor 0.9.
    assert_eq!(p.mv_cost(&q, &mvs[10]), (1000u128 * 1464 * 1_000_000 + 32_000 * 53 * 1_000_000) * 900_000);
    // Exact match on a larger view: 0.8 * 1.05.
    let mut big = mvs[1].clone();
    big.num_rows = Some(2_000_000);
    assert_eq!(p.mv_cost(&q, &big), (1000u128 * 2_000_000 * 1_000_000 + 32_000 * 1_000_000) * 840_000);
}

#[test]
fn cost_grows_with_rows_and_weights() {
    let mvs = registry_with_stats();
    let q = query(vec![col("country"), agg(AggOp::Count, None)], vec![pred("country", Condition::Eq(text("JP")))], vec!["country"]);
    let p = planner();
    let mut bigger = mvs[4].clone();
    bigger.num_rows = Some(4800);
    assert!(p.mv_cost(&q, &bigger) > p.mv_cost(&q, &mvs[4]));
    let heavy = Planner::new(CostWeights { scan: 2000, rollup: 32_000 });
    let heavier = Planner::new(CostWeights { scan: 3000, rollup: 32_000 });
    let c1 = p.mv_cost(&q, &mvs[4]);
    let c2 = heavy.mv_cost(&q, &mvs[4]);
    let c3 = heavier.mv_cost(&q, &mvs[4]);
    assert!(c2 > c1);
    assert_eq!(c3 - c2, c2 - c1);
}

#[test]
fn weights_from_hardware() {
    let base = HardwareInfo { num_threads: 10, available_memory_kb: 18 * 1_048_576 };
    let w = base.cost_weights();
    assert_eq!((w.scan, w.rollup), (1000, 32_000));
    let big = HardwareInfo { num_threads: 40, available_memory_kb: 72 * 1_048_576 };
    let w = big.cost_weights();
    assert_eq!((w.scan, w.rollup), (500, 16_000));
    let small = HardwareInfo { num_threads: 1, available_memory_kb: 0 };
    let w = small.cost_weights();
    assert_eq!((w.scan, w.rollup), (2000, 64_000));
    assert_eq!(base.optimal_row_group_size(245_000_000), 1_225_000);
    assert_eq!(base.optimal_row_group_size(1000), 500_000);
    assert_eq!(small.optimal_row_group_size(1_000_000_000), 2_000_000);
}

#[test]
fn query_numbers_from_file_names() {
    assert_eq!(extract_query_number(&s("q5.csv")), 5);
    assert_eq!(extract_query_number(&s("q12.csv")), 12);
    assert_eq!(extract_query_number(&s("q.csv")), 0);
    assert_eq!(extract_query_number(&s("qa.csv")), 0);
    assert_eq!(extract_query_number(&s("x5.csv")), 0);
    assert_eq!(extract_query_number(&s("q5.txt")), 0);
}
