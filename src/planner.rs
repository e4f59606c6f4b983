//! The planner: which MVs can answer a query, what each would cost to read,
//! and which one to read.
//!
//! Selectivities are fixed-point fractions of `SEL_ONE`; cost weights are in
//! thousandths; costs are exact integers in those units, saturating at
//! `u128::MAX`.
use vstd::prelude::*;
use crate::query::{Agg, AggOp, Condition, Literal, Predicate, Query, SelectItem, opt_view};
use crate::mv::{MaterializedView, agg_views, aggs_contain};
use crate::text::{seq_has, vec_has, str_is, keys};
use crate::sql::{PlanError, mv_sql, plain_sql, assemble_sql_for_mv, assemble_sql};

verus! {

/// The planner, with the weights of its cost model.
#[derive(Clone, Copy, Debug)]
pub struct Planner {
    pub weights: CostWeights,
}

impl Planner {
    pub fn new(weights: CostWeights) -> (r: Planner)
        ensures
            r.weights == weights,
    {
        Planner { weights }
    }
}

/// Weights of the cost model, in thousandths: `scan` per row read, `rollup`
/// per group that must be aggregated away.
#[derive(Clone, Copy, Debug, PartialEq, Eq, Structural)]
pub struct CostWeights {
    pub scan: u64,
    pub rollup: u64,
}

/// Whether `m` has `k` as a key: one of its grouping keys, or `type` for a
/// type-partitioned MV, whose `type` is constant.
pub open spec fn mv_has_key(m: MaterializedView, k: Seq<char>) -> bool {
    seq_has(m.group_by@, k) || (m.partition is Some && k == "type"@)
}

/// Whether `q` holds the predicate `type eq v` with `v` as text.
pub open spec fn has_type_eq(q: Query, v: Seq<char>) -> bool {
    exists|i: int|
        0 <= i < q.where_clause@.len() && is_type_eq(#[trigger] q.where_clause@[i], v)
}

pub open spec fn is_type_eq(p: Predicate, v: Seq<char>) -> bool {
    p.col@ == "type"@ && (p.cond matches Condition::Eq(Literal::Text(t)) && t@ == v)
}

/// Whether the stored aggregates of `m` give aggregate `a`: AVG from SUM and
/// COUNT of its column, any other aggregate from itself.
pub open spec fn derivable(a: Agg, m: MaterializedView) -> bool {
    if a.op == AggOp::Avg {
        agg_views(m.aggs@).contains((AggOp::Sum, opt_view(a.column)))
            && agg_views(m.aggs@).contains((AggOp::Count, opt_view(a.column)))
    } else {
        agg_views(m.aggs@).contains(a@)
    }
}

pub open spec fn select_item_ok(s: SelectItem, m: MaterializedView) -> bool {
    match s {
        SelectItem::Column(c) => mv_has_key(m, c@),
        SelectItem::Aggregate(a) => derivable(a, m),
    }
}

/// Whether `q` can be answered from `m` by grouping and its stored aggregates.
pub open spec fn usable(q: Query, m: MaterializedView) -> bool {
    &&& match m.partition {
        Some(v) => has_type_eq(q, v@),
        None => true,
    }
    &&& forall|i: int| 0 <= i < q.group_by@.len() ==> mv_has_key(m, (#[trigger] q.group_by@[i])@)
    &&& forall|i: int| 0 <= i < q.where_clause@.len() ==> mv_has_key(m, (#[trigger] q.where_clause@[i]).col@)
    &&& forall|i: int| 0 <= i < q.select@.len() ==> select_item_ok(#[trigger] q.select@[i], m)
}

fn has_key(m: &MaterializedView, k: &String) -> (r: bool)
    ensures
        r == mv_has_key(*m, k@),
{
    vec_has(&m.group_by, k) || (m.partition.is_some() && str_is(k, "type"))
}

impl Planner {
    /// Whether aggregate `agg` can be derived from the stored aggregates of `mv`.
    pub fn agg_derivable(&self, agg: &Agg, mv: &MaterializedView) -> (r: bool)
        ensures
            r == derivable(*agg, *mv),
    {
        if agg.op == AggOp::Avg {
            let sum = Agg::new(AggOp::Sum, agg.copy().column);
            let count = Agg::new(AggOp::Count, agg.copy().column);
            aggs_contain(&mv.aggs, &sum) && aggs_contain(&mv.aggs, &count)
        } else {
            aggs_contain(&mv.aggs, agg)
        }
    }
}

/// The text of the first `type eq <text>` predicate of `q`, if any.
pub open spec fn first_type_eq(preds: Seq<Predicate>) -> Option<Seq<char>>
    decreases preds.len(),
{
    if preds.len() == 0 {
        None
    } else if preds[0].col@ == "type"@ {
        match preds[0].cond {
            Condition::Eq(Literal::Text(t)) => Some(t@),
            _ => first_type_eq(preds.drop_first()),
        }
    } else {
        first_type_eq(preds.drop_first())
    }
}

impl Planner {
    /// The event type that `q` filters on with `type eq`, if any: the first such predicate.
    pub fn extract_type_filter(&self, q: &Query) -> (r: Option<String>)
        ensures
            opt_view(r) == first_type_eq(q.where_clause@),
    {
        let preds = &q.where_clause;
        let mut i: usize = 0;
        assert(preds@.skip(0) =~= preds@);
        while i < preds.len()
            invariant
                i <= preds.len(),
                preds@ == q.where_clause@,
                first_type_eq(preds@.skip(i as int)) == first_type_eq(preds@),
            decreases preds.len() - i,
        {
            assert(preds@.skip(i as int).drop_first() =~= preds@.skip(i as int + 1));
            assert(preds@.skip(i as int)[0] == preds@[i as int]);
            let p = &preds[i];
            if str_is(&p.col, "type") {
                if let Condition::Eq(Literal::Text(t)) = &p.cond {
                    let ghost rest = preds@.skip(i as int);
                    assert(rest[0].cond == Condition::Eq(Literal::Text(*t)));
                    assert(first_type_eq(rest) == Some(t@));
                    let c = String::from_str(t.as_str());
                    return Some(c);
                }
            }
            i = i + 1;
        }
        None
    }
}

impl Planner {
    /// Whether `mv` can answer `query`: every grouping key, WHERE column and bare
    /// selected column is a key of `mv` (`type` counting as one for a
    /// type-partitioned MV, which also needs `type eq <its type>` in the query), and
    /// every selected aggregate is derivable from its stored aggregates.
    pub fn is_mv_usable(&self, query: &Query, mv: &MaterializedView) -> (r: bool)
        ensures
            r == usable(*query, *mv),
    {
        match &mv.partition {
            Some(v) => {
                let mut found = false;
                let mut i: usize = 0;
                while i < query.where_clause.len()
                    invariant
                        i <= query.where_clause.len(),
                        found == exists|j: int| 0 <= j < i && is_type_eq(#[trigger] query.where_clause@[j], v@),
                    decreases query.where_clause.len() - i,
                {
                    let p = &query.where_clause[i];
                    if str_is(&p.col, "type") {
                        if let Condition::Eq(Literal::Text(t)) = &p.cond {
                            if *t == *v {
                                found = true;
                            }
                        }
                    }
                    i = i + 1;
                }
                if !found {
                    return false;
                }
            },
            None => {},
        }
        let mut i: usize = 0;
        while i < query.group_by.len()
            invariant
                i <= query.group_by.len(),
                forall|j: int| 0 <= j < i ==> mv_has_key(*mv, (#[trigger] query.group_by@[j])@),
            decreases query.group_by.len() - i,
        {
            if !has_key(mv, &query.group_by[i]) {
                return false;
            }
            i = i + 1;
        }
        let mut i: usize = 0;
        while i < query.where_clause.len()
            invariant
                i <= query.where_clause.len(),
                forall|j: int| 0 <= j < i ==> mv_has_key(*mv, (#[trigger] query.where_clause@[j]).col@),
            decreases query.where_clause.len() - i,
        {
            if !has_key(mv, &query.where_clause[i].col) {
                return false;
            }
            i = i + 1;
        }
        let mut i: usize = 0;
        while i < query.select.len()
            invariant
                i <= query.select.len(),
                forall|j: int| 0 <= j < i ==> select_item_ok(#[trigger] query.select@[j], *mv),
            decreases query.select.len() - i,
        {
            let ok = match &query.select[i] {
                SelectItem::Column(c) => has_key(mv, c),
                SelectItem::Aggregate(a) => self.agg_derivable(a, mv),
            };
            if !ok {
                return false;
            }
            i = i + 1;
        }
        true
    }
}

/// A selectivity of one: every row survives.
pub const SEL_ONE: u64 = 1_000_000;

/// The selectivity of a predicate the estimator has no rule for: one tenth.
pub const DEFAULT_SEL: u64 = 100_000;

/// The count stored under `k` in an association list; the first entry wins.
pub open spec fn lookup_count(s: Seq<(String, u64)>, k: Seq<char>) -> Option<u64>
    decreases s.len(),
{
    if s.len() == 0 {
        None
    } else if s[0].0@ == k {
        Some(s[0].1)
    } else {
        lookup_count(s.drop_first(), k)
    }
}

/// The top-K list stored under `k`; the first entry wins.
pub open spec fn lookup_topk(s: Seq<(String, Vec<(String, u64)>)>, k: Seq<char>) -> Option<Seq<(String, u64)>>
    decreases s.len(),
{
    if s.len() == 0 {
        None
    } else if s[0].0@ == k {
        Some(s[0].1@)
    } else {
        lookup_topk(s.drop_first(), k)
    }
}

fn find_count(s: &Vec<(String, u64)>, k: &String) -> (r: Option<u64>)
    ensures
        r == lookup_count(s@, k@),
{
    let mut i: usize = 0;
    assert(s@.skip(0) =~= s@);
    while i < s.len()
        invariant
            i <= s.len(),
            lookup_count(s@.skip(i as int), k@) == lookup_count(s@, k@),
        decreases s.len() - i,
    {
        assert(s@.skip(i as int).drop_first() =~= s@.skip(i as int + 1));
        if s[i].0 == *k {
            return Some(s[i].1);
        }
        i = i + 1;
    }
    None
}

fn find_topk<'a>(s: &'a Vec<(String, Vec<(String, u64)>)>, k: &String) -> (r: Option<&'a Vec<(String, u64)>>)
    ensures
        match r {
            Some(v) => lookup_topk(s@, k@) == Some(v@),
            None => lookup_topk(s@, k@) is None,
        },
{
    let mut i: usize = 0;
    assert(s@.skip(0) =~= s@);
    while i < s.len()
        invariant
            i <= s.len(),
            lookup_topk(s@.skip(i as int), k@) == lookup_topk(s@, k@),
        decreases s.len() - i,
    {
        assert(s@.skip(i as int).drop_first() =~= s@.skip(i as int + 1));
        if s[i].0 == *k {
            return Some(&s[i].1);
        }
        i = i + 1;
    }
    None
}

/// `num / den` as a fixed-point fraction of `SEL_ONE`, rounded up (so that a
/// surviving fraction never reads as zero) and capped at one; a zero `den`
/// counts as one.
pub open spec fn fraction(num: nat, den: nat) -> nat {
    let d: int = if den == 0 { 1 } else { den as int };
    let f: int = (num * SEL_ONE + d - 1) / d;
    if f > SEL_ONE { SEL_ONE as nat } else { f as nat }
}

fn fraction_of(num: u64, den: u128) -> (r: u64)
    requires
        den <= 2 * (u64::MAX as u128),
    ensures
        r == fraction(num as nat, den as nat),
        r <= SEL_ONE,
{
    let d: u128 = if den == 0 { 1 } else { den };
    assert((num as u128) * (SEL_ONE as u128) <= u64::MAX as u128 * 1_000_000) by (nonlinear_arith);
    let f: u128 = ((num as u128) * (SEL_ONE as u128) + d - 1) / d;
    if f > SEL_ONE as u128 { SEL_ONE } else { f as u64 }
}

/// The row count an MV's fractions are taken of: its `num_rows`, or one where
/// that is absent or zero.
pub open spec fn rows_or_one(m: MaterializedView) -> nat {
    match m.num_rows {
        Some(n) => if n == 0 { 1 } else { n as nat },
        None => 1,
    }
}

/// The text of a literal, as statistics key it.
pub open spec fn lit_text(l: Literal) -> Seq<char> {
    match l {
        Literal::Text(v) => v@,
        Literal::Number(v) => v@,
    }
}

/// The top-K count of literal `l` in key `col` of `m`, where top-K lists it.
pub open spec fn topk_count(m: MaterializedView, col: Seq<char>, l: Literal) -> Option<u64> {
    match lookup_topk(m.col_to_topk@, col) {
        Some(tk) => lookup_count(tk, lit_text(l)),
        None => None,
    }
}

/// The selectivity of `col = lit` on `m`: the literal's top-K frequency over
/// the row count where top-K lists it, else one over the key's distinct count,
/// else the default.
pub open spec fn eq_sel(m: MaterializedView, col: Seq<char>, lit: Literal) -> nat {
    match topk_count(m, col, lit) {
        Some(c) => fraction(c as nat, rows_or_one(m)),
        None => match lookup_count(m.num_distinct@, col) {
            Some(d) => fraction(1, d as nat),
            None => DEFAULT_SEL as nat,
        },
    }
}

/// The selectivity of `col != lit` on `m`: one less the eq-selectivity,
/// computed from the complementary count and rounded up, so that it reads zero
/// only where every row holds the literal (its top-K count reaches the row
/// count, or it is outside top-K and the key has a single distinct value).
pub open spec fn neq_sel(m: MaterializedView, col: Seq<char>, lit: Literal) -> nat {
    match topk_count(m, col, lit) {
        Some(c) => {
            let n = rows_or_one(m);
            fraction(if c >= n { 0 } else { (n - c) as nat }, n)
        },
        None => match lookup_count(m.num_distinct@, col) {
            Some(d) => {
                let dd: nat = if d == 0 { 1 } else { d as nat };
                fraction((dd - 1) as nat, dd)
            },
            None => (SEL_ONE - DEFAULT_SEL) as nat,
        },
    }
}

/// The sum of the eq-selectivities of `lits`.
pub open spec fn sum_eq_sel(m: MaterializedView, col: Seq<char>, lits: Seq<Literal>) -> nat
    decreases lits.len(),
{
    if lits.len() == 0 {
        0
    } else {
        sum_eq_sel(m, col, lits.drop_last()) + eq_sel(m, col, lits.last())
    }
}

/// The selectivity of a BETWEEN on `col`: for `day`, one half where the key has
/// over a hundred distinct values and one fifth otherwise; for `hour` and
/// `minute`, one over twice the distinct count; for another key, one over its
/// distinct count up to three, and one third beyond.
pub open spec fn between_sel(m: MaterializedView, col: Seq<char>) -> nat {
    match lookup_count(m.num_distinct@, col) {
        None => DEFAULT_SEL as nat,
        Some(d) => if col == "day"@ {
            if d > 100 { 500_000 } else { 200_000 }
        } else if col == "hour"@ || col == "minute"@ {
            fraction(1, 2 * d as nat)
        } else if d < 3 {
            fraction(1, d as nat)
        } else {
            fraction(1, 3)
        },
    }
}

/// The estimated fraction of the rows of `m` that `p` keeps.
pub open spec fn pred_sel(m: MaterializedView, p: Predicate) -> nat {
    match p.cond {
        Condition::Eq(l) => eq_sel(m, p.col@, l),
        Condition::Neq(l) => neq_sel(m, p.col@, l),
        Condition::In(ls) => {
            let s = sum_eq_sel(m, p.col@, ls@);
            if s > SEL_ONE { SEL_ONE as nat } else { s }
        },
        Condition::Between(_, _) => between_sel(m, p.col@),
        _ => DEFAULT_SEL as nat,
    }
}

/// The estimated fraction of the rows of `m` that all of `preds` keep: the
/// product of their selectivities, each step rounded up.
pub open spec fn selectivity(m: MaterializedView, preds: Seq<Predicate>) -> nat
    decreases preds.len(),
{
    if preds.len() == 0 {
        SEL_ONE as nat
    } else {
        let prev = selectivity(m, preds.drop_last());
        ((prev * pred_sel(m, preds.last()) + SEL_ONE - 1) / SEL_ONE as int) as nat
    }
}

fn literal_text(l: &Literal) -> (r: &String)
    ensures
        r@ == lit_text(*l),
{
    match l {
        Literal::Text(v) => v,
        Literal::Number(v) => v,
    }
}

fn find_topk_count(mv: &MaterializedView, col: &String, lit: &Literal) -> (r: Option<u64>)
    ensures
        r == topk_count(*mv, col@, *lit),
{
    match find_topk(&mv.col_to_topk, col) {
        Some(tk) => find_count(tk, literal_text(lit)),
        None => None,
    }
}

fn rows_or_one_of(mv: &MaterializedView) -> (r: u64)
    ensures
        r == rows_or_one(*mv),
        r >= 1,
{
    match mv.num_rows {
        Some(n) => if n == 0 { 1 } else { n },
        None => 1,
    }
}

fn eq_selectivity(mv: &MaterializedView, col: &String, lit: &Literal) -> (r: u64)
    ensures
        r == eq_sel(*mv, col@, *lit),
        r <= SEL_ONE,
{
    match find_topk_count(mv, col, lit) {
        Some(c) => fraction_of(c, rows_or_one_of(mv) as u128),
        None => match find_count(&mv.num_distinct, col) {
            Some(d) => fraction_of(1, d as u128),
            None => DEFAULT_SEL,
        },
    }
}

fn neq_selectivity(mv: &MaterializedView, col: &String, lit: &Literal) -> (r: u64)
    ensures
        r == neq_sel(*mv, col@, *lit),
        r <= SEL_ONE,
{
    match find_topk_count(mv, col, lit) {
        Some(c) => {
            let n = rows_or_one_of(mv);
            let rest: u64 = if c >= n { 0 } else { n - c };
            fraction_of(rest, n as u128)
        },
        None => match find_count(&mv.num_distinct, col) {
            Some(d) => {
                let dd: u64 = if d == 0 { 1 } else { d };
                fraction_of(dd - 1, dd as u128)
            },
            None => SEL_ONE - DEFAULT_SEL,
        },
    }
}

fn between_selectivity(mv: &MaterializedView, col: &String) -> (r: u64)
    ensures
        r == between_sel(*mv, col@),
        r <= SEL_ONE,
{
    match find_count(&mv.num_distinct, col) {
        None => DEFAULT_SEL,
        Some(d) => {
            if str_is(col, "day") {
                if d > 100 { 500_000 } else { 200_000 }
            } else if str_is(col, "hour") || str_is(col, "minute") {
                fraction_of(1, 2 * (d as u128))
            } else if d < 3 {
                fraction_of(1, d as u128)
            } else {
                fraction_of(1, 3u128)
            }
        },
    }
}

impl Planner {
    /// The estimated fraction, of `SEL_ONE`, of the rows of `mv` that `pred` keeps.
    pub fn predicate_selectivity(&self, pred: &Predicate, mv: &MaterializedView) -> (r: u64)
        ensures
            r == pred_sel(*mv, *pred),
            r <= SEL_ONE,
    {
        match &pred.cond {
            Condition::Eq(l) => eq_selectivity(mv, &pred.col, l),
            Condition::Neq(l) => neq_selectivity(mv, &pred.col, l),
            Condition::In(ls) => {
                let mut sum: u64 = 0;
                let mut i: usize = 0;
                while i < ls.len()
                    invariant
                        i <= ls.len(),
                        sum <= SEL_ONE,
                        sum == (if sum_eq_sel(*mv, pred.col@, ls@.take(i as int)) > SEL_ONE { SEL_ONE as nat } else { sum_eq_sel(*mv, pred.col@, ls@.take(i as int)) }),
                    decreases ls.len() - i,
                {
                    assert(ls@.take(i as int + 1).drop_last() =~= ls@.take(i as int));
                    let e = eq_selectivity(mv, &pred.col, &ls[i]);
                    sum = if sum + e > SEL_ONE { SEL_ONE } else { sum + e };
                    i = i + 1;
                }
                assert(ls@.take(ls.len() as int) =~= ls@);
                sum
            },
            Condition::Between(_, _) => between_selectivity(mv, &pred.col),
            _ => DEFAULT_SEL,
        }
    }
}

/// `x`, or `u128::MAX` where `x` exceeds it.
pub open spec fn clamp(x: int) -> int {
    if x > u128::MAX { u128::MAX as int } else { x }
}

proof fn lemma_clamp_mul(a: int, b: int)
    requires
        a >= 0,
        b >= 0,
    ensures
        clamp(clamp(a) * b) == clamp(a * b),
        clamp(b * clamp(a)) == clamp(b * a),
{
    if a > u128::MAX {
        if b > 0 {
            assert(a * b >= a) by (nonlinear_arith) requires a >= 0, b >= 1;
            assert(clamp(a) * b >= clamp(a)) by (nonlinear_arith) requires clamp(a) >= 0, b >= 1;
        } else {
            assert(a * b == 0);
        }
    }
    assert(b * clamp(a) == clamp(a) * b) by (nonlinear_arith);
    assert(b * a == a * b) by (nonlinear_arith);
}

proof fn lemma_clamp_add(a: int, b: int)
    requires
        a >= 0,
        b >= 0,
    ensures
        clamp(clamp(a) + clamp(b)) == clamp(a + b),
{
}

fn sat_mul(a: u128, b: u128) -> (r: u128)
    ensures
        r == clamp(a * b),
{
    match a.checked_mul(b) {
        Some(p) => p,
        None => u128::MAX,
    }
}

fn sat_add(a: u128, b: u128) -> (r: u128)
    ensures
        r == clamp(a + b),
{
    match a.checked_add(b) {
        Some(p) => p,
        None => u128::MAX,
    }
}

/// Whether two key lists hold the same keys, as sets.
pub open spec fn same_keys(a: Seq<String>, b: Seq<String>) -> bool {
    (forall|i: int| 0 <= i < a.len() ==> seq_has(b, (#[trigger] a[i])@))
        && (forall|i: int| 0 <= i < b.len() ==> seq_has(a, (#[trigger] b[i])@))
}

fn all_in(a: &Vec<String>, b: &Vec<String>) -> (r: bool)
    ensures
        r == forall|i: int| 0 <= i < a@.len() ==> seq_has(b@, (#[trigger] a@[i])@),
{
    let mut i: usize = 0;
    while i < a.len()
        invariant
            i <= a.len(),
            forall|j: int| 0 <= j < i ==> seq_has(b@, (#[trigger] a@[j])@),
        decreases a.len() - i,
    {
        if !vec_has(b, &a[i]) {
            return false;
        }
        i = i + 1;
    }
    true
}

fn same_key_sets(a: &Vec<String>, b: &Vec<String>) -> (r: bool)
    ensures
        r == same_keys(a@, b@),
{
    all_in(a, b) && all_in(b, a)
}

/// The distinct count of key `k` of `m`, or one where it is unknown.
pub open spec fn distinct_or_one(m: MaterializedView, k: Seq<char>) -> nat {
    match lookup_count(m.num_distinct@, k) {
        Some(d) => d as nat,
        None => 1,
    }
}

/// The product of the distinct counts of the keys of `g` that `q` lacks.
pub open spec fn rollup_product(m: MaterializedView, g: Seq<String>, q: Seq<String>) -> nat
    decreases g.len(),
{
    if g.len() == 0 {
        1
    } else {
        let p = rollup_product(m, g.drop_last(), q);
        if seq_has(q, g.last()@) { p } else { p * distinct_or_one(m, g.last()@) }
    }
}

/// The groups a rollup of `m` to the grouping of `q` aggregates away: one
/// where the key sets agree, else the product of the distinct counts of the
/// keys of `m` that `q` does not group by.
pub open spec fn extra_groups(q: Query, m: MaterializedView) -> nat {
    if same_keys(q.group_by@, m.group_by@) {
        1
    } else {
        rollup_product(m, m.group_by@, q.group_by@)
    }
}

/// The rows of `m` a scan for `q` is expected to touch, in millionths of a row.
pub open spec fn rows_scanned(q: Query, m: MaterializedView) -> nat {
    let n: nat = match m.num_rows {
        Some(n) => n as nat,
        None => 0,
    };
    n * selectivity(m, q.where_clause@)
}

/// The size bucket of an MV, in thousandths: 900 under ten thousand rows,
/// 950 under a hundred thousand, 1000 under a million or unknown, 1050 beyond.
pub open spec fn size_bucket(m: MaterializedView) -> nat {
    match m.num_rows {
        None => 1000,
        Some(n) => if n < 10_000 {
            900
        } else if n < 100_000 {
            950
        } else if n < 1_000_000 {
            1000
        } else {
            1050
        },
    }
}

/// The adjustment of a cost, in millionths: the size bucket, times 800 more
/// (0.8) on an exact match of the key sets, or times 1000 (1.0) otherwise.
pub open spec fn size_factor(q: Query, m: MaterializedView) -> nat {
    if same_keys(q.group_by@, m.group_by@) {
        800 * size_bucket(m)
    } else {
        1000 * size_bucket(m)
    }
}

/// The part of the cost of reading `m` for `q` that each unit of scan weight adds.
pub open spec fn scan_term(q: Query, m: MaterializedView) -> nat {
    rows_scanned(q, m) * size_factor(q, m)
}

/// The part of the cost of reading `m` for `q` that each unit of rollup weight adds.
pub open spec fn rollup_term(q: Query, m: MaterializedView) -> nat {
    extra_groups(q, m) * (SEL_ONE as nat) * size_factor(q, m)
}

/// The cost of answering `q` from `m`:
/// `(w_scan * rows_scanned + w_rollup * extra_groups) * size_factor`, in
/// thousandths of weight, millionths of a row and millionths of a factor.
pub open spec fn cost_value(q: Query, m: MaterializedView, w: CostWeights) -> nat {
    (w.scan as nat) * scan_term(q, m) + (w.rollup as nat) * rollup_term(q, m)
}

fn rollup_groups(mv: &MaterializedView, q_keys: &Vec<String>) -> (r: u128)
    ensures
        r == clamp(rollup_product(*mv, mv.group_by@, q_keys@) as int),
{
    let g = &mv.group_by;
    let mut p: u128 = 1;
    let mut i: usize = 0;
    while i < g.len()
        invariant
            g@ == mv.group_by@,
            i <= g.len(),
            p == clamp(rollup_product(*mv, g@.take(i as int), q_keys@) as int),
        decreases g.len() - i,
    {
        assert(g@.take(i as int + 1).drop_last() =~= g@.take(i as int));
        let ghost prev = rollup_product(*mv, g@.take(i as int), q_keys@) as int;
        if !vec_has(q_keys, &g[i]) {
            let d: u64 = match find_count(&mv.num_distinct, &g[i]) {
                Some(d) => d,
                None => 1,
            };
            proof { lemma_clamp_mul(prev, d as int); }
            p = sat_mul(p, d as u128);
        }
        i = i + 1;
    }
    assert(g@.take(g.len() as int) =~= g@);
    p
}

fn size_factor_of(query: &Query, mv: &MaterializedView, exact: bool) -> (r: u128)
    requires
        exact == same_keys(query.group_by@, mv.group_by@),
    ensures
        r == size_factor(*query, *mv),
{
    let bucket: u128 = match mv.num_rows {
        None => 1000,
        Some(n) => if n < 10_000 {
            900
        } else if n < 100_000 {
            950
        } else if n < 1_000_000 {
            1000
        } else {
            1050
        },
    };
    if exact { 800 * bucket } else { 1000 * bucket }
}

impl Planner {
    /// The selectivity of all of `query`'s predicates on `mv`, of `SEL_ONE`.
    pub fn where_selectivity(&self, query: &Query, mv: &MaterializedView) -> (r: u64)
        ensures
            r == selectivity(*mv, query.where_clause@),
            r <= SEL_ONE,
    {
        let preds = &query.where_clause;
        let mut sel: u64 = SEL_ONE;
        let mut i: usize = 0;
        while i < preds.len()
            invariant
                preds@ == query.where_clause@,
                i <= preds.len(),
                sel <= SEL_ONE,
                sel == selectivity(*mv, preds@.take(i as int)),
            decreases preds.len() - i,
        {
            assert(preds@.take(i as int + 1).drop_last() =~= preds@.take(i as int));
            let p = self.predicate_selectivity(&preds[i], mv);
            assert((sel as int) * (p as int) <= 1_000_000 * 1_000_000) by (nonlinear_arith)
                requires sel <= 1_000_000, p <= 1_000_000;
            let prod: u64 = sel * p;
            let next: u64 = (prod + SEL_ONE - 1) / SEL_ONE;
            assert(next <= SEL_ONE);
            sel = next;
            i = i + 1;
        }
        assert(preds@.take(preds.len() as int) =~= preds@);
        sel
    }
}

impl Planner {
    /// The cost of answering `query` from `mv` under the planner's weights, exactly
    /// `cost_value` where that fits in a `u128`, and `u128::MAX` beyond.
    pub fn mv_cost(&self, query: &Query, mv: &MaterializedView) -> (r: u128)
        ensures
            r == clamp(cost_value(*query, *mv, self.weights) as int),
    {
        let sel = self.where_selectivity(query, mv);
        let n: u64 = match mv.num_rows {
            Some(n) => n,
            None => 0,
        };
        assert((n as int) * (sel as int) <= u64::MAX as int * 1_000_000) by (nonlinear_arith)
            requires sel <= 1_000_000, n <= u64::MAX;
        let rows: u128 = (n as u128) * (sel as u128);
        let exact = same_key_sets(&query.group_by, &mv.group_by);
        let groups: u128 = if exact { 1 } else { rollup_groups(mv, &query.group_by) };
        let factor = size_factor_of(query, mv, exact);
        let t1 = sat_mul(self.weights.scan as u128, rows);
        let t2a = sat_mul(self.weights.rollup as u128, groups);
        let t2 = sat_mul(t2a, SEL_ONE as u128);
        let base = sat_add(t1, t2);
        let cost = sat_mul(base, factor);
        proof {
            let ws = self.weights.scan as int;
            let wr = self.weights.rollup as int;
            let g = extra_groups(*query, *mv) as int;
            let f = size_factor(*query, *mv) as int;
            let rw = rows as int;
            assert(rw == rows_scanned(*query, *mv));
            assert(groups == clamp(g));
            lemma_clamp_mul(g, wr);
            lemma_clamp_mul(wr * g, SEL_ONE as int);
            assert(wr * g >= 0) by (nonlinear_arith) requires wr >= 0, g >= 0;
            assert(ws * rw >= 0) by (nonlinear_arith) requires ws >= 0, rw >= 0;
            assert(wr * g * SEL_ONE >= 0) by (nonlinear_arith) requires wr * g >= 0;
            lemma_clamp_add(ws * rw, wr * g * SEL_ONE);
            lemma_clamp_mul(ws * rw + wr * g * SEL_ONE, f);
            assert((ws * rw + wr * g * SEL_ONE) * f == ws * (rw * f) + wr * (g * SEL_ONE * f)) by (nonlinear_arith);
        }
        cost
    }
}

/// Whether `a` sorts before `b`, character by character.
pub open spec fn name_lt(a: Seq<char>, b: Seq<char>) -> bool
    decreases a.len(),
{
    if a.len() == 0 {
        b.len() > 0
    } else if b.len() == 0 {
        false
    } else if a[0] != b[0] {
        a[0] < b[0]
    } else {
        name_lt(a.drop_first(), b.drop_first())
    }
}

proof fn lemma_name_lt_irrefl(a: Seq<char>)
    ensures
        !name_lt(a, a),
    decreases a.len(),
{
    if a.len() > 0 {
        lemma_name_lt_irrefl(a.drop_first());
    }
}

proof fn lemma_name_lt_trans(a: Seq<char>, b: Seq<char>, c: Seq<char>)
    requires
        name_lt(a, b),
        name_lt(b, c),
    ensures
        name_lt(a, c),
    decreases a.len(),
{
    if a.len() > 0 && b.len() > 0 && c.len() > 0 {
        if a[0] == b[0] && b[0] == c[0] {
            lemma_name_lt_trans(a.drop_first(), b.drop_first(), c.drop_first());
        }
    }
}

proof fn lemma_name_lt_total(a: Seq<char>, b: Seq<char>)
    requires
        !name_lt(a, b),
        a != b,
    ensures
        name_lt(b, a),
    decreases a.len(),
{
    if a.len() > 0 && b.len() > 0 {
        if a[0] == b[0] {
            if a.drop_first() == b.drop_first() {
                assert(a =~= seq![a[0]] + a.drop_first());
                assert(b =~= seq![b[0]] + b.drop_first());
            }
            lemma_name_lt_total(a.drop_first(), b.drop_first());
        }
    } else if a.len() == 0 && b.len() == 0 {
        assert(a =~= b);
    }
}

/// Whether `a` sorts before `b`.
pub fn name_less(a: &String, b: &String) -> (r: bool)
    ensures
        r == name_lt(a@, b@),
{
    let n = a.as_str().unicode_len();
    let m = b.as_str().unicode_len();
    let mut i: usize = 0;
    assert(a@.skip(0) =~= a@);
    assert(b@.skip(0) =~= b@);
    while i < n && i < m
        invariant
            n == a@.len(),
            m == b@.len(),
            i <= n,
            i <= m,
            name_lt(a@.skip(i as int), b@.skip(i as int)) == name_lt(a@, b@),
        decreases n - i,
    {
        let x = a.as_str().get_char(i);
        let y = b.as_str().get_char(i);
        assert(a@.skip(i as int)[0] == x);
        assert(b@.skip(i as int)[0] == y);
        if x != y {
            return x < y;
        }
        assert(a@.skip(i as int).drop_first() =~= a@.skip(i as int + 1));
        assert(b@.skip(i as int).drop_first() =~= b@.skip(i as int + 1));
        i = i + 1;
    }
    assert(a@.skip(i as int).len() == n - i);
    i == n && i < m
}

/// The factor, in tenths, that the type-partitioned preference applies:
/// one tenth of the cost for a sibling of the type `q` filters on, a hundred
/// times the cost for a sibling of another type, and the cost itself otherwise.
pub open spec fn type_factor(q: Query, m: MaterializedView) -> nat {
    match m.partition {
        None => 10,
        Some(v) => match first_type_eq(q.where_clause@) {
            Some(t) => if t == v@ { 1 } else { 1000 },
            None => 10,
        },
    }
}

/// The cost of `m` for `q` after the type-partitioned preference, in tenths.
pub open spec fn adjusted_cost(q: Query, m: MaterializedView, w: CostWeights) -> int {
    clamp((cost_value(q, m, w) * type_factor(q, m)) as int)
}

/// Whether `a` is preferred to `b`: cheaper, or as cheap with a name that sorts first.
pub open spec fn preferred(q: Query, a: MaterializedView, b: MaterializedView, w: CostWeights) -> bool {
    adjusted_cost(q, a, w) < adjusted_cost(q, b, w)
        || (adjusted_cost(q, a, w) == adjusted_cost(q, b, w) && name_lt(a.name@, b.name@))
}

/// Whether index `i` of `mvs` is the planner's choice for `q`: usable, preferred
/// to every usable MV before it, and no usable MV after it preferred to it.
pub open spec fn is_choice(q: Query, mvs: Seq<MaterializedView>, w: CostWeights, i: int) -> bool {
    &&& 0 <= i < mvs.len()
    &&& usable(q, mvs[i])
    &&& forall|j: int| 0 <= j < i && usable(q, #[trigger] mvs[j]) ==> preferred(q, mvs[i], mvs[j], w)
    &&& forall|j: int| i < j < mvs.len() && usable(q, #[trigger] mvs[j]) ==> !preferred(q, mvs[j], mvs[i], w)
}

proof fn lemma_preferred_trans(q: Query, a: MaterializedView, b: MaterializedView, c: MaterializedView, w: CostWeights)
    requires
        preferred(q, a, b, w),
        preferred(q, b, c, w),
    ensures
        preferred(q, a, c, w),
{
    if adjusted_cost(q, a, w) == adjusted_cost(q, b, w) && adjusted_cost(q, b, w) == adjusted_cost(q, c, w) {
        lemma_name_lt_trans(a.name@, b.name@, c.name@);
    }
}

proof fn lemma_preferred_not(q: Query, a: MaterializedView, b: MaterializedView, c: MaterializedView, w: CostWeights)
    requires
        preferred(q, a, b, w),
        !preferred(q, c, b, w),
    ensures
        preferred(q, a, c, w),
{
    if adjusted_cost(q, a, w) == adjusted_cost(q, b, w) && adjusted_cost(q, b, w) == adjusted_cost(q, c, w) {
        if c.name@ == b.name@ {
        } else {
            lemma_name_lt_total(c.name@, b.name@);
            lemma_name_lt_trans(a.name@, b.name@, c.name@);
        }
    }
}

fn adjusted_cost_of(planner: &Planner, query: &Query, mv: &MaterializedView, qtype: &Option<String>) -> (r: u128)
    requires
        opt_view(*qtype) == first_type_eq(query.where_clause@),
    ensures
        r == adjusted_cost(*query, *mv, planner.weights),
{
    let weights = planner.weights;
    let cost = planner.mv_cost(query, mv);
    let factor: u128 = match &mv.partition {
        None => 10,
        Some(v) => match qtype {
            Some(t) => if *t == *v { 1 } else { 1000 },
            None => 10,
        },
    };
    proof { lemma_clamp_mul(cost_value(*query, *mv, weights) as int, factor as int); }
    sat_mul(cost, factor)
}

impl Planner {
    /// The index of the MV the planner reads for `query`: the usable MV of least
    /// adjusted cost, ties going to the name that sorts first, then to the
    /// earlier index; `None` where no MV is usable.
    pub fn choose_mv(&self, query: &Query, mvs: &Vec<MaterializedView>) -> (r: Option<usize>)
        ensures
            match r {
                Some(i) => is_choice(*query, mvs@, self.weights, i as int),
                None => forall|j: int| 0 <= j < mvs@.len() ==> !usable(*query, #[trigger] mvs@[j]),
            },
    {
        let qtype = self.extract_type_filter(query);
        let mut best: Option<usize> = None;
        let mut best_cost: u128 = 0;
        let mut i: usize = 0;
        while i < mvs.len()
            invariant
                i <= mvs.len(),
                opt_view(qtype) == first_type_eq(query.where_clause@),
                match best {
                    None => forall|j: int| 0 <= j < i ==> !usable(*query, #[trigger] mvs@[j]),
                    Some(b) => b < i && best_cost == adjusted_cost(*query, mvs@[b as int], self.weights) && usable(*query, mvs@[b as int])
                        && (forall|j: int| 0 <= j < b && usable(*query, #[trigger] mvs@[j]) ==> preferred(*query, mvs@[b as int], mvs@[j], self.weights))
                        && (forall|j: int| b < j < i && usable(*query, #[trigger] mvs@[j]) ==> !preferred(*query, mvs@[j], mvs@[b as int], self.weights)),
                },
            decreases mvs.len() - i,
        {
            let mv = &mvs[i];
            if self.is_mv_usable(query, mv) {
                let c = adjusted_cost_of(self, query, mv, &qtype);
                match best {
                    None => {
                        best = Some(i);
                        best_cost = c;
                    },
                    Some(b) => {
                        let better = c < best_cost || (c == best_cost && name_less(&mv.name, &mvs[b].name));
                        if better {
                            proof {
                                assert forall|j: int| 0 <= j < i && usable(*query, #[trigger] mvs@[j]) implies preferred(*query, mvs@[i as int], mvs@[j], self.weights) by {
                                    if j < b {
                                        lemma_preferred_trans(*query, mvs@[i as int], mvs@[b as int], mvs@[j], self.weights);
                                    } else if j > b {
                                        lemma_preferred_not(*query, mvs@[i as int], mvs@[b as int], mvs@[j], self.weights);
                                    }
                                }
                            }
                            best = Some(i);
                            best_cost = c;
                        }
                    },
                }
            }
            i = i + 1;
        }
        best
    }
}

impl Planner {
    /// The statement that answers `query`: read from the MV `choose_mv`
    /// picks, or from the table `query` names where no MV is usable.
    pub fn translate_query(&self, query: &Query, mvs: &Vec<MaterializedView>) -> (r: Result<String, PlanError>)
        ensures
            (forall|j: int| 0 <= j < mvs@.len() ==> !usable(*query, #[trigger] mvs@[j]))
                ==> r == Ok::<String, PlanError>(r->Ok_0) && r->Ok_0@ == plain_sql(*query),
            (exists|j: int| 0 <= j < mvs@.len() && usable(*query, #[trigger] mvs@[j]))
                ==> exists|i: int| is_choice(*query, mvs@, self.weights, i) && match mv_sql(*query, #[trigger] mvs@[i]) {
                    Ok(t) => r == Ok::<String, PlanError>(r->Ok_0) && r->Ok_0@ == t,
                    Err(e) => r == Err::<String, PlanError>(e),
                },
    {
        match self.choose_mv(query, mvs) {
            Some(i) => {
                let r = assemble_sql_for_mv(query, &mvs[i]);
                assert(is_choice(*query, mvs@, self.weights, i as int));
                r
            },
            None => Ok(assemble_sql(query)),
        }
    }
}

} // verus!
