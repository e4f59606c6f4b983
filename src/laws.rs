//! Properties the planner guarantees, stated over its spec functions and proved.
use vstd::prelude::*;
use crate::query::{Agg, AggOp, Condition, Literal, Predicate, Query, SelectItem, opt_view, supported_pred};
use crate::mv::{MaterializedView, metric_name, agg_views};
use crate::planner::{
    usable, is_choice, preferred, mv_has_key, topk_count, neq_sel, rows_or_one, has_type_eq, pred_sel, eq_sel, sum_eq_sel, selectivity, fraction,
    lookup_count, cost_value, scan_term, rollup_term, rows_scanned, size_factor,
    extra_groups, rollup_product, clamp, CostWeights, SEL_ONE,
};
use crate::sql::{mv_preds, drop_type_preds};

verus! {

/// The planner never reads an MV that fails the usability rules: the MV that
/// `choose_mv` picks is usable for the query.
pub proof fn lemma_choice_is_usable(q: Query, mvs: Seq<MaterializedView>, w: CostWeights, i: int)
    requires
        is_choice(q, mvs, w, i),
    ensures
        usable(q, mvs[i]),
{
}

proof fn lemma_drop_type_preds(preds: Seq<Predicate>)
    ensures
        forall|i: int| 0 <= i < drop_type_preds(preds).len() ==> (#[trigger] drop_type_preds(preds)[i]).col@ != "type"@,
        drop_type_preds(preds) == preds.filter(|p: Predicate| p.col@ != "type"@),
    decreases preds.len(),
{
    if preds.len() > 0 {
        lemma_drop_type_preds(preds.drop_last());
        let f = |p: Predicate| p.col@ != "type"@;
        reveal(Seq::filter);
        assert(preds.filter(f) == if f(preds.last()) {
            preds.drop_last().filter(f).push(preds.last())
        } else {
            preds.drop_last().filter(f)
        });
    }
}

/// A type-partitioned MV is usable only by a query holding `type eq <its type>`,
/// and the statement read from it keeps no predicate on `type`: its WHERE list
/// is the query's other predicates, in order.
pub proof fn lemma_partition_needs_type_filter(q: Query, m: MaterializedView)
    requires
        usable(q, m),
        m.partition is Some,
    ensures
        has_type_eq(q, m.partition->0@),
        forall|i: int| 0 <= i < mv_preds(q, m).len() ==> (#[trigger] mv_preds(q, m)[i]).col@ != "type"@,
        mv_preds(q, m) == q.where_clause@.filter(|p: Predicate| p.col@ != "type"@),
{
    lemma_drop_type_preds(q.where_clause@);
}

/// A query with no `type eq` filter is never answered from a type-partitioned MV.
pub proof fn lemma_no_type_filter_no_partition(q: Query, mvs: Seq<MaterializedView>, w: CostWeights, i: int)
    requires
        is_choice(q, mvs, w, i),
        forall|v: Seq<char>| !has_type_eq(q, v),
    ensures
        mvs[i].partition is None,
{
}

/// Whether the top-K list of `col` on `m` records a count of zero for `l`.
pub open spec fn topk_shows_zero(m: MaterializedView, col: Seq<char>, l: Literal) -> bool {
    topk_count(m, col, l) == Some(0u64)
}

/// Whether the statistics of `col` on `m` say every row holds `l`: its top-K
/// count reaches the row count, or it is outside top-K and the key has at most
/// one distinct value.
pub open spec fn stats_show_all(m: MaterializedView, col: Seq<char>, l: Literal) -> bool {
    match topk_count(m, col, l) {
        Some(c) => c >= rows_or_one(m),
        None => lookup_count(m.num_distinct@, col) matches Some(d) && d <= 1,
    }
}

proof fn lemma_fraction(num: nat, den: nat)
    ensures
        fraction(num, den) <= SEL_ONE,
        num > 0 ==> fraction(num, den) > 0,
{
    let d: int = if den == 0 { 1 } else { den as int };
    if num > 0 {
        assert(num * SEL_ONE + d - 1 >= d) by (nonlinear_arith) requires num >= 1, d >= 1;
        assert((num * SEL_ONE + d - 1) / d >= 1) by (nonlinear_arith) requires num * SEL_ONE + d - 1 >= d, d >= 1;
    }
}

proof fn lemma_eq_sel(m: MaterializedView, col: Seq<char>, l: Literal)
    ensures
        eq_sel(m, col, l) <= SEL_ONE,
        eq_sel(m, col, l) == 0 ==> topk_shows_zero(m, col, l),
{
    match topk_count(m, col, l) {
        Some(c) => { lemma_fraction(c as nat, rows_or_one(m)); },
        None => {
            match lookup_count(m.num_distinct@, col) {
                Some(d) => { lemma_fraction(1, d as nat); },
                None => {},
            }
        },
    }
}

proof fn lemma_neq_sel(m: MaterializedView, col: Seq<char>, l: Literal)
    ensures
        neq_sel(m, col, l) <= SEL_ONE,
        neq_sel(m, col, l) == 0 ==> stats_show_all(m, col, l),
{
    match topk_count(m, col, l) {
        Some(c) => {
            let n = rows_or_one(m);
            lemma_fraction(if c >= n { 0 } else { (n - c) as nat }, n);
        },
        None => {
            match lookup_count(m.num_distinct@, col) {
                Some(d) => {
                    let dd: nat = if d == 0 { 1 } else { d as nat };
                    lemma_fraction((dd - 1) as nat, dd);
                },
                None => {},
            }
        },
    }
}

proof fn lemma_sum_zero(m: MaterializedView, col: Seq<char>, ls: Seq<Literal>)
    requires
        sum_eq_sel(m, col, ls) == 0,
    ensures
        forall|i: int| 0 <= i < ls.len() ==> topk_shows_zero(m, col, #[trigger] ls[i]),
    decreases ls.len(),
{
    if ls.len() > 0 {
        lemma_sum_zero(m, col, ls.drop_last());
        lemma_eq_sel(m, col, ls.last());
        assert forall|i: int| 0 <= i < ls.len() implies topk_shows_zero(m, col, #[trigger] ls[i]) by {
            if i < ls.len() - 1 {
                assert(ls[i] == ls.drop_last()[i]);
            }
        }
    }
}

/// Selectivity estimates are fractions: at most `SEL_ONE` for every predicate;
/// and zero only where the statistics show it: for `eq` and `in`, top-K records
/// a count of zero for the literal (for every literal, for `in`); for `neq`,
/// they show that every row holds the literal.
pub proof fn lemma_selectivity_sane(m: MaterializedView, p: Predicate)
    requires
        supported_pred(p),
    ensures
        pred_sel(m, p) <= SEL_ONE,
        pred_sel(m, p) == 0 ==> match p.cond {
            Condition::Eq(l) => topk_shows_zero(m, p.col@, l),
            Condition::Neq(l) => stats_show_all(m, p.col@, l),
            Condition::In(ls) => forall|i: int| 0 <= i < ls@.len() ==> topk_shows_zero(m, p.col@, #[trigger] ls@[i]),
            _ => false,
        },
{
    match p.cond {
        Condition::Eq(l) => { lemma_eq_sel(m, p.col@, l); },
        Condition::Neq(l) => { lemma_neq_sel(m, p.col@, l); },
        Condition::In(ls) => {
            if sum_eq_sel(m, p.col@, ls@) == 0 {
                lemma_sum_zero(m, p.col@, ls@);
            }
        },
        Condition::Between(_, _) => {
            match lookup_count(m.num_distinct@, p.col@) {
                Some(d) => {
                    lemma_fraction(1, 2 * d as nat);
                    lemma_fraction(1, d as nat);
                    lemma_fraction(1, 3);
                },
                None => {},
            }
        },
        _ => {},
    }
}

/// The selectivity of a whole WHERE list is a fraction too: at most `SEL_ONE`.
pub proof fn lemma_where_selectivity_bounded(m: MaterializedView, preds: Seq<Predicate>)
    requires
        forall|i: int| 0 <= i < preds.len() ==> supported_pred(#[trigger] preds[i]),
    ensures
        selectivity(m, preds) <= SEL_ONE,
    decreases preds.len(),
{
    if preds.len() > 0 {
        lemma_where_selectivity_bounded(m, preds.drop_last());
        lemma_selectivity_sane(m, preds.last());
        let a = selectivity(m, preds.drop_last()) as int;
        let b = pred_sel(m, preds.last()) as int;
        assert(a * b <= 1_000_000 * 1_000_000) by (nonlinear_arith) requires 0 <= a <= 1_000_000, 0 <= b <= 1_000_000;
    }
}

proof fn lemma_rollup_same(m1: MaterializedView, m2: MaterializedView, g: Seq<String>, q: Seq<String>)
    requires
        m1.num_distinct == m2.num_distinct,
    ensures
        rollup_product(m1, g, q) == rollup_product(m2, g, q),
    decreases g.len(),
{
    if g.len() > 0 {
        lemma_rollup_same(m1, m2, g.drop_last(), q);
    }
}

/// Cost grows with the MV's size: an MV that differs only by holding more rows,
/// with the same positive selectivity, costs strictly more under a positive
/// scan weight; so does the cost `mv_cost` returns, while it fits in a `u128`.
pub proof fn lemma_cost_grows_with_rows(q: Query, m1: MaterializedView, m2: MaterializedView, w: CostWeights, n1: u64, n2: u64)
    requires
        m1.num_rows == Some(n1),
        m2.num_rows == Some(n2),
        n1 < n2,
        m1.name == m2.name,
        m1.group_by == m2.group_by,
        m1.aggs == m2.aggs,
        m1.partition == m2.partition,
        m1.num_distinct == m2.num_distinct,
        m1.col_to_topk == m2.col_to_topk,
        selectivity(m1, q.where_clause@) == selectivity(m2, q.where_clause@),
        selectivity(m1, q.where_clause@) > 0,
        w.scan > 0,
    ensures
        cost_value(q, m1, w) < cost_value(q, m2, w),
        cost_value(q, m2, w) <= u128::MAX ==> clamp(cost_value(q, m1, w) as int) < clamp(cost_value(q, m2, w) as int),
{
    lemma_rollup_same(m1, m2, m1.group_by@, q.group_by@);
    let s = selectivity(m1, q.where_clause@) as int;
    let r1 = rows_scanned(q, m1) as int;
    let r2 = rows_scanned(q, m2) as int;
    assert(r1 == n1 * s);
    assert(r2 == n2 * s);
    assert(r1 < r2) by (nonlinear_arith) requires r1 == n1 * s, r2 == n2 * s, n1 < n2, s > 0;
    let f1 = size_factor(q, m1) as int;
    let f2 = size_factor(q, m2) as int;
    assert(0 < f1 <= f2);
    let g = extra_groups(q, m1) as int;
    assert(g == extra_groups(q, m2));
    let ws = w.scan as int;
    let wr = w.rollup as int;
    assert(ws * (r1 * f1) < ws * (r2 * f2)) by (nonlinear_arith) requires 0 <= r1 < r2, 0 < f1 <= f2, ws > 0;
    assert(wr * (g * SEL_ONE * f1) <= wr * (g * SEL_ONE * f2)) by (nonlinear_arith) requires g >= 0, wr >= 0, 0 < f1 <= f2;
}

/// Cost is linear in the weights: changing them changes the cost by each
/// weight's change times a non-negative term that does not depend on the
/// weights; the rollup term is positive wherever groups are rolled up. The
/// same holds of the cost `mv_cost` returns while both costs fit in a `u128`.
pub proof fn lemma_cost_linear_in_weights(q: Query, m: MaterializedView, w1: CostWeights, w2: CostWeights)
    ensures
        cost_value(q, m, w2) - cost_value(q, m, w1)
            == (w2.scan - w1.scan) * scan_term(q, m) + (w2.rollup - w1.rollup) * rollup_term(q, m),
        scan_term(q, m) >= 0,
        rollup_term(q, m) >= 0,
        w1.scan <= w2.scan && w1.rollup <= w2.rollup ==> cost_value(q, m, w1) <= cost_value(q, m, w2),
        extra_groups(q, m) > 0 ==> rollup_term(q, m) > 0,
        cost_value(q, m, w1) <= u128::MAX && cost_value(q, m, w2) <= u128::MAX ==>
            clamp(cost_value(q, m, w2) as int) - clamp(cost_value(q, m, w1) as int)
                == (w2.scan - w1.scan) * scan_term(q, m) + (w2.rollup - w1.rollup) * rollup_term(q, m),
{
    let g = extra_groups(q, m) as int;
    let f = size_factor(q, m) as int;
    assert(f > 0);
    if g > 0 {
        assert(g * SEL_ONE * f > 0) by (nonlinear_arith) requires g > 0, f > 0;
    }
    let a = scan_term(q, m) as int;
    let b = rollup_term(q, m) as int;
    assert((w2.scan as int) * a + (w2.rollup as int) * b - ((w1.scan as int) * a + (w1.rollup as int) * b)
        == (w2.scan - w1.scan) * a + (w2.rollup - w1.rollup) * b) by (nonlinear_arith);
    if w1.scan <= w2.scan && w1.rollup <= w2.rollup {
        assert((w2.scan - w1.scan) * a + (w2.rollup - w1.rollup) * b >= 0) by (nonlinear_arith)
            requires w2.scan - w1.scan >= 0, w2.rollup - w1.rollup >= 0, a >= 0, b >= 0;
    }
}

/// The metric columns that the expression for aggregate `a` over an MV reads:
/// the stored sum and count of its column for AVG, else its own stored metric.
pub open spec fn metrics_read(a: Agg) -> Seq<Seq<char>> {
    if a.op == AggOp::Avg {
        seq![metric_name(AggOp::Sum, opt_view(a.column)), metric_name(AggOp::Count, opt_view(a.column))]
    } else {
        seq![metric_name(a.op, opt_view(a.column))]
    }
}

/// Whether `m` has a metric column called `name`.
pub open spec fn stores_metric(m: MaterializedView, name: Seq<char>) -> bool {
    exists|j: int| 0 <= j < m.aggs@.len() && metric_name((#[trigger] m.aggs@[j]).op, opt_view(m.aggs@[j].column)) == name
}

proof fn lemma_stored(m: MaterializedView, v: (AggOp, Option<Seq<char>>))
    requires
        agg_views(m.aggs@).contains(v),
    ensures
        stores_metric(m, metric_name(v.0, v.1)),
{
    let j = choose|j: int| 0 <= j < agg_views(m.aggs@).len() && agg_views(m.aggs@)[j] == v;
    assert(m.aggs@[j]@ == v);
}

/// A statement read from a usable MV reads only what the MV holds: each
/// selected bare column is one of its keys, and each selected aggregate is
/// computed from metric columns it stores.
pub proof fn lemma_usable_reads_stored_columns(q: Query, m: MaterializedView, i: int)
    requires
        usable(q, m),
        0 <= i < q.select@.len(),
    ensures
        match q.select@[i] {
            SelectItem::Column(c) => mv_has_key(m, c@),
            SelectItem::Aggregate(a) => forall|k: int| 0 <= k < metrics_read(a).len() ==> stores_metric(m, #[trigger] metrics_read(a)[k]),
        },
{
    match q.select@[i] {
        SelectItem::Column(_) => {},
        SelectItem::Aggregate(a) => {
            if a.op == AggOp::Avg {
                lemma_stored(m, (AggOp::Sum, opt_view(a.column)));
                lemma_stored(m, (AggOp::Count, opt_view(a.column)));
            } else {
                lemma_stored(m, a@);
            }
        },
    }
}

/// The planner's choice is determined: no two indexes are both the choice.
pub proof fn lemma_choice_is_unique(q: Query, mvs: Seq<MaterializedView>, w: CostWeights, i: int, j: int)
    requires
        is_choice(q, mvs, w, i),
        is_choice(q, mvs, w, j),
    ensures
        i == j,
{
    if i < j {
        assert(preferred(q, mvs[j], mvs[i], w));
    } else if j < i {
        assert(preferred(q, mvs[i], mvs[j], w));
    }
}

} // verus!
