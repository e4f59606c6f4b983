//! The SQL emitter: the statement that answers a query from an MV, with
//! aggregates rewritten over its stored metrics, or from the table it names.
use vstd::prelude::*;
use crate::query::{AggOp, Condition, Literal, OrderItem, Predicate, Query, SelectItem, op_lower, op_upper, opt_view, lemma_op_names_differ};
use crate::mv::{MaterializedView, metric_name, metric_col_name, drop_key};
use crate::text::{keys, join, decimal, push_joined, push_decimal, str_is, folded, codes};

verus! {

/// Why no statement could be emitted.
#[derive(Clone, Copy, Debug, PartialEq, Eq, Structural)]
pub enum PlanError {
    /// An ORDER BY entry of the form `f(c)` whose `f` is no known aggregate.
    UnsupportedAggregate,
}

/// A literal in SQL: text single-quoted, a number as written.
pub open spec fn lit_sql(l: Literal) -> Seq<char> {
    match l {
        Literal::Text(s) => "'"@ + s@ + "'"@,
        Literal::Number(s) => s@,
    }
}

/// A predicate in SQL.
pub open spec fn pred_sql(p: Predicate) -> Seq<char> {
    match p.cond {
        Condition::Eq(l) => p.col@ + " = "@ + lit_sql(l),
        Condition::Neq(l) => p.col@ + " != "@ + lit_sql(l),
        Condition::Lt(l) => p.col@ + " < "@ + lit_sql(l),
        Condition::Lte(l) => p.col@ + " <= "@ + lit_sql(l),
        Condition::Gt(l) => p.col@ + " > "@ + lit_sql(l),
        Condition::Gte(l) => p.col@ + " >= "@ + lit_sql(l),
        Condition::Between(a, b) => p.col@ + " BETWEEN "@ + lit_sql(a) + " AND "@ + lit_sql(b),
        Condition::In(ls) => p.col@ + " IN ("@ + join(ls@.map_values(|l: Literal| lit_sql(l)), ", "@) + ")"@,
    }
}

/// `preds` without those on column `type`.
pub open spec fn drop_type_preds(preds: Seq<Predicate>) -> Seq<Predicate>
    decreases preds.len(),
{
    if preds.len() == 0 {
        preds
    } else if preds.last().col@ == "type"@ {
        drop_type_preds(preds.drop_last())
    } else {
        drop_type_preds(preds.drop_last()).push(preds.last())
    }
}

/// A WHERE clause over `preds`; empty where there are none.
pub open spec fn where_sql(preds: Seq<Predicate>) -> Seq<char> {
    if preds.len() == 0 {
        Seq::empty()
    } else {
        "WHERE "@ + join(preds.map_values(|p: Predicate| pred_sql(p)), " AND "@)
    }
}

/// A GROUP BY clause over `ks`; empty where there are none.
pub open spec fn group_sql(ks: Seq<Seq<char>>) -> Seq<char> {
    if ks.len() == 0 {
        Seq::empty()
    } else {
        "GROUP BY "@ + join(ks, ", "@)
    }
}

/// An ORDER BY clause over rendered entries; empty where there are none.
pub open spec fn order_sql(items: Seq<Seq<char>>) -> Seq<char> {
    if items.len() == 0 {
        Seq::empty()
    } else {
        "ORDER BY "@ + join(items, ", "@)
    }
}

/// A select list; `*` where it is empty.
pub open spec fn select_sql(items: Seq<Seq<char>>) -> Seq<char> {
    if items.len() == 0 {
        "*"@
    } else {
        join(items, ", "@)
    }
}

/// A clause after a space; nothing where it is empty.
pub open spec fn clause(s: Seq<char>) -> Seq<char> {
    if s.len() == 0 {
        Seq::empty()
    } else {
        " "@ + s
    }
}

pub open spec fn limit_sql(l: Option<u64>) -> Seq<char> {
    match l {
        Some(n) => " LIMIT "@ + decimal(n as nat),
        None => Seq::empty(),
    }
}

pub open spec fn dir_sql(desc: bool) -> Seq<char> {
    if desc { " DESC"@ } else { " ASC"@ }
}

/// The expression that computes `op` over `col` from an MV's stored metrics:
/// SUM of the stored sum or count, MIN or MAX of the stored extreme, and for
/// AVG the summed sum over the summed count.
pub open spec fn agg_expr(op: AggOp, col: Option<Seq<char>>) -> Seq<char> {
    match op {
        AggOp::Avg => "SUM("@ + metric_name(AggOp::Sum, col) + ")/NULLIF(SUM("@ + metric_name(AggOp::Count, col) + "),0)"@,
        AggOp::Sum => "SUM("@ + metric_name(op, col) + ")"@,
        AggOp::Count => "SUM("@ + metric_name(op, col) + ")"@,
        _ => op_upper(op) + "("@ + metric_name(op, col) + ")"@,
    }
}

/// The output name of an aggregate: `count_star()` for COUNT(*), else `op(col)` in lower case.
pub open spec fn agg_alias(op: AggOp, col: Option<Seq<char>>) -> Seq<char> {
    if op == AggOp::Count && (col is None || col == Some("*"@)) {
        "count_star()"@
    } else {
        op_lower(op) + "("@ + match col {
            Some(c) => c,
            None => "*"@,
        } + ")"@
    }
}

/// A select entry read from `m`: a bare column passes through, but for a
/// type-partitioned MV `type` is its constant; an aggregate is rewritten over
/// the stored metrics and named as it would be over `events`.
pub open spec fn mv_item_sql(s: SelectItem, m: MaterializedView) -> Seq<char> {
    match s {
        SelectItem::Column(c) => match m.partition {
            Some(v) => if c@ == "type"@ { "'"@ + v@ + "' AS type"@ } else { c@ },
            None => c@,
        },
        SelectItem::Aggregate(a) => agg_expr(a.op, opt_view(a.column)) + " AS \""@ + agg_alias(a.op, opt_view(a.column)) + "\""@,
    }
}

/// A select entry read from the base table.
pub open spec fn plain_item_sql(s: SelectItem) -> Seq<char> {
    match s {
        SelectItem::Column(c) => c@,
        SelectItem::Aggregate(a) => op_upper(a.op) + "("@ + match a.column {
            Some(c) => c@,
            None => "*"@,
        } + ")"@,
    }
}

/// The first index of `(` in `s`, where `s` ends with `)` and holds one: the
/// function name before it and the argument up to the closing `)`.
pub open spec fn call_parts(s: Seq<char>) -> Option<(Seq<char>, Seq<char>)> {
    if s.len() > 0 && s.last() == ')' && s.contains('(') {
        let i = choose|i: int| 0 <= i < s.len() && s[i] == '(' && forall|j: int| 0 <= j < i ==> s[j] != '(';
        Some((s.take(i), s.subrange(i + 1, s.len() - 1)))
    } else {
        None
    }
}

/// The aggregate function called `f`, in any letter case.
pub open spec fn op_named(f: Seq<char>) -> Option<AggOp> {
    if exists|op: AggOp| folded(f) == codes(op_lower(op)) {
        Some(choose|op: AggOp| folded(f) == codes(op_lower(op)))
    } else {
        None
    }
}

/// An ORDER BY entry over an MV: `f(c)` becomes the expression the select
/// list uses for that aggregate; another entry passes through.
pub open spec fn mv_order_item(o: OrderItem) -> Result<Seq<char>, PlanError> {
    match call_parts(o.col@) {
        Some((f, arg)) => match op_named(f) {
            Some(op) => Ok(agg_expr(op, if arg == "*"@ { None } else { Some(arg) }) + dir_sql(o.desc)),
            None => Err(PlanError::UnsupportedAggregate),
        },
        None => Ok(o.col@ + dir_sql(o.desc)),
    }
}

/// The ORDER BY entries over an MV, or the first error.
pub open spec fn mv_order_items(items: Seq<OrderItem>) -> Result<Seq<Seq<char>>, PlanError>
    decreases items.len(),
{
    if items.len() == 0 {
        Ok(Seq::empty())
    } else {
        match mv_order_items(items.drop_last()) {
            Ok(prev) => match mv_order_item(items.last()) {
                Ok(s) => Ok(prev.push(s)),
                Err(e) => Err(e),
            },
            Err(e) => Err(e),
        }
    }
}

/// The grouping keys emitted over `m`: those of `q`, but `type` for a
/// type-partitioned MV, where it is constant.
pub open spec fn mv_group_keys(q: Query, m: MaterializedView) -> Seq<Seq<char>> {
    if m.partition is Some {
        drop_key(keys(q.group_by@), "type"@)
    } else {
        keys(q.group_by@)
    }
}

/// The predicates emitted over `m`: those of `q`, but the ones on `type` for a
/// type-partitioned MV.
pub open spec fn mv_preds(q: Query, m: MaterializedView) -> Seq<Predicate> {
    if m.partition is Some {
        drop_type_preds(q.where_clause@)
    } else {
        q.where_clause@
    }
}

/// The statement that answers `q` from `m`.
pub open spec fn mv_sql(q: Query, m: MaterializedView) -> Result<Seq<char>, PlanError> {
    match mv_order_items(q.order_by@) {
        Ok(o) => Ok(
            "SELECT "@ + select_sql(q.select@.map_values(|s: SelectItem| mv_item_sql(s, m))) + " FROM "@ + m.name@
                + clause(where_sql(mv_preds(q, m)))
                + clause(group_sql(mv_group_keys(q, m)))
                + clause(order_sql(o))
                + limit_sql(q.limit),
        ),
        Err(e) => Err(e),
    }
}

/// The statement that answers `q` from the table it names.
pub open spec fn plain_sql(q: Query) -> Seq<char> {
    "SELECT "@ + select_sql(q.select@.map_values(|s: SelectItem| plain_item_sql(s))) + " FROM "@ + q.from@
        + clause(where_sql(q.where_clause@))
        + clause(group_sql(keys(q.group_by@)))
        + clause(order_sql(q.order_by@.map_values(|o: OrderItem| o.col@ + dir_sql(o.desc))))
        + limit_sql(q.limit)
}

fn push_lit(out: &mut String, l: &Literal)
    ensures
        final(out)@ == old(out)@ + lit_sql(*l),
{
    match l {
        Literal::Text(t) => {
            out.append("'");
            out.append(t.as_str());
            out.append("'");
        },
        Literal::Number(n) => out.append(n.as_str()),
    }
}

fn lits_to_sql(ls: &Vec<Literal>) -> (r: Vec<String>)
    ensures
        keys(r@) == ls@.map_values(|l: Literal| lit_sql(l)),
{
    let mut r: Vec<String> = Vec::new();
    let mut i: usize = 0;
    while i < ls.len()
        invariant
            i <= ls.len(),
            r@.len() == i,
            forall|k: int| 0 <= k < i ==> (#[trigger] r@[k])@ == lit_sql(ls@[k]),
        decreases ls.len() - i,
    {
        let mut s = String::new();
        push_lit(&mut s, &ls[i]);
        r.push(s);
        i = i + 1;
    }
    assert(keys(r@) =~= ls@.map_values(|l: Literal| lit_sql(l)));
    r
}

fn push_compare(out: &mut String, col: &String, op: &str, l: &Literal)
    ensures
        final(out)@ == old(out)@ + (col@ + op@ + lit_sql(*l)),
{
    out.append(col.as_str());
    out.append(op);
    push_lit(out, l);
}

/// A predicate in SQL: a comparison, `BETWEEN low AND high`, or `IN (...)`.
pub fn predicate_to_sql(p: &Predicate) -> (r: String)
    ensures
        r@ == pred_sql(*p),
{
    let mut out = String::new();
    match &p.cond {
        Condition::Eq(l) => push_compare(&mut out, &p.col, " = ", l),
        Condition::Neq(l) => push_compare(&mut out, &p.col, " != ", l),
        Condition::Lt(l) => push_compare(&mut out, &p.col, " < ", l),
        Condition::Lte(l) => push_compare(&mut out, &p.col, " <= ", l),
        Condition::Gt(l) => push_compare(&mut out, &p.col, " > ", l),
        Condition::Gte(l) => push_compare(&mut out, &p.col, " >= ", l),
        Condition::Between(a, b) => {
            push_compare(&mut out, &p.col, " BETWEEN ", a);
            out.append(" AND ");
            push_lit(&mut out, b);
        },
        Condition::In(ls) => {
            out.append(p.col.as_str());
            out.append(" IN (");
            let parts = lits_to_sql(ls);
            push_joined(&mut out, &parts, ", ");
            out.append(")");
        },
    }
    out
}

/// The WHERE clause over `preds`, leaving out those on `type` where `drop_type`
/// holds; empty where nothing is left.
pub fn where_to_sql(preds: &Vec<Predicate>, drop_type: bool) -> (r: String)
    ensures
        r@ == where_sql(if drop_type { drop_type_preds(preds@) } else { preds@ }),
{
    let ghost kept = if drop_type { drop_type_preds(preds@) } else { preds@ };
    let mut parts: Vec<String> = Vec::new();
    let mut i: usize = 0;
    while i < preds.len()
        invariant
            i <= preds.len(),
            kept == if drop_type { drop_type_preds(preds@) } else { preds@ },
            keys(parts@) == (if drop_type { drop_type_preds(preds@.take(i as int)) } else { preds@.take(i as int) }).map_values(|p: Predicate| pred_sql(p)),
        decreases preds.len() - i,
    {
        assert(preds@.take(i as int + 1).drop_last() =~= preds@.take(i as int));
        let ghost before = parts@;
        let skip = drop_type && str_is(&preds[i].col, "type");
        if !skip {
            let s = predicate_to_sql(&preds[i]);
            parts.push(s);
            assert(keys(parts@) =~= keys(before).push(s@));
        }
        assert(keys(parts@) =~= (if drop_type { drop_type_preds(preds@.take(i as int + 1)) } else { preds@.take(i as int + 1) }).map_values(|p: Predicate| pred_sql(p)));
        i = i + 1;
    }
    assert(preds@.take(preds.len() as int) =~= preds@);
    if parts.len() == 0 {
        String::new()
    } else {
        let mut out = String::from_str("WHERE ");
        push_joined(&mut out, &parts, " AND ");
        out
    }
}

/// The expression that computes `op` over `col` from an MV's stored metrics,
/// and the name of its output column.
pub fn compute_agg_alias_expr(op: AggOp, col: &Option<String>) -> (r: (String, String))
    ensures
        r.0@ == agg_expr(op, opt_view(*col)),
        r.1@ == agg_alias(op, opt_view(*col)),
{
    let expr = match op {
        AggOp::Avg => {
            let mut e = String::from_str("SUM(");
            e.append(metric_col_name(AggOp::Sum, col).as_str());
            e.append(")/NULLIF(SUM(");
            e.append(metric_col_name(AggOp::Count, col).as_str());
            e.append("),0)");
            e
        },
        AggOp::Sum | AggOp::Count => {
            let mut e = String::from_str("SUM(");
            e.append(metric_col_name(op, col).as_str());
            e.append(")");
            e
        },
        _ => {
            let mut e = String::from_str(op.upper_name());
            e.append("(");
            e.append(metric_col_name(op, col).as_str());
            e.append(")");
            e
        },
    };
    let star = match col {
        Some(c) => str_is(c, "*"),
        None => true,
    };
    let alias = if op == AggOp::Count && star {
        String::from_str("count_star()")
    } else {
        let mut a = String::from_str(op.lower_name());
        a.append("(");
        match col {
            Some(c) => a.append(c.as_str()),
            None => a.append("*"),
        }
        a.append(")");
        a
    };
    (expr, alias)
}

fn mv_item_to_sql(s: &SelectItem, mv: &MaterializedView) -> (r: String)
    ensures
        r@ == mv_item_sql(*s, *mv),
{
    match s {
        SelectItem::Column(c) => {
            match &mv.partition {
                Some(v) => {
                    if str_is(c, "type") {
                        let mut out = String::from_str("'");
                        out.append(v.as_str());
                        out.append("' AS type");
                        out
                    } else {
                        c.clone()
                    }
                },
                None => c.clone(),
            }
        },
        SelectItem::Aggregate(a) => {
            let (expr, alias) = compute_agg_alias_expr(a.op, &a.column);
            let mut out = expr;
            out.append(" AS \"");
            out.append(alias.as_str());
            out.append("\"");
            out
        },
    }
}

fn plain_item_to_sql(s: &SelectItem) -> (r: String)
    ensures
        r@ == plain_item_sql(*s),
{
    match s {
        SelectItem::Column(c) => c.clone(),
        SelectItem::Aggregate(a) => {
            let mut out = String::from_str(a.op.upper_name());
            out.append("(");
            match &a.column {
                Some(c) => out.append(c.as_str()),
                None => out.append("*"),
            }
            out.append(")");
            out
        },
    }
}

/// The select list of `select` read from `mv`; `*` where it is empty.
pub fn select_over_mv(select: &Vec<SelectItem>, mv: &MaterializedView) -> (r: String)
    ensures
        r@ == select_sql(select@.map_values(|s: SelectItem| mv_item_sql(s, *mv))),
{
    let mut parts: Vec<String> = Vec::new();
    let mut i: usize = 0;
    while i < select.len()
        invariant
            i <= select.len(),
            parts@.len() == i,
            forall|k: int| 0 <= k < i ==> (#[trigger] parts@[k])@ == mv_item_sql(select@[k], *mv),
        decreases select.len() - i,
    {
        parts.push(mv_item_to_sql(&select[i], mv));
        i = i + 1;
    }
    assert(keys(parts@) =~= select@.map_values(|s: SelectItem| mv_item_sql(s, *mv)));
    if parts.len() == 0 {
        String::from_str("*")
    } else {
        let mut out = String::new();
        push_joined(&mut out, &parts, ", ");
        out
    }
}

/// The select list of `select` read from the base table; `*` where it is empty.
pub fn select_plain(select: &Vec<SelectItem>) -> (r: String)
    ensures
        r@ == select_sql(select@.map_values(|s: SelectItem| plain_item_sql(s))),
{
    let mut parts: Vec<String> = Vec::new();
    let mut i: usize = 0;
    while i < select.len()
        invariant
            i <= select.len(),
            parts@.len() == i,
            forall|k: int| 0 <= k < i ==> (#[trigger] parts@[k])@ == plain_item_sql(select@[k]),
        decreases select.len() - i,
    {
        parts.push(plain_item_to_sql(&select[i]));
        i = i + 1;
    }
    assert(keys(parts@) =~= select@.map_values(|s: SelectItem| plain_item_sql(s)));
    if parts.len() == 0 {
        String::from_str("*")
    } else {
        let mut out = String::new();
        push_joined(&mut out, &parts, ", ");
        out
    }
}

/// The GROUP BY clause over `group_by`, leaving out `type` where `drop_type`
/// holds; empty where nothing is left.
pub fn group_by_to_sql(group_by: &Vec<String>, drop_type: bool) -> (r: String)
    ensures
        r@ == group_sql(if drop_type { drop_key(keys(group_by@), "type"@) } else { keys(group_by@) }),
{
    let mut parts: Vec<String> = Vec::new();
    let mut i: usize = 0;
    while i < group_by.len()
        invariant
            i <= group_by.len(),
            keys(parts@) == (if drop_type { drop_key(keys(group_by@.take(i as int)), "type"@) } else { keys(group_by@.take(i as int)) }),
        decreases group_by.len() - i,
    {
        assert(keys(group_by@.take(i as int + 1)).drop_last() =~= keys(group_by@.take(i as int)));
        assert(keys(group_by@.take(i as int + 1)) =~= keys(group_by@.take(i as int)).push(group_by@[i as int]@));
        let ghost before = parts@;
        let skip = drop_type && str_is(&group_by[i], "type");
        if !skip {
            let c = group_by[i].clone();
            parts.push(c);
            assert(keys(parts@) =~= keys(before).push(c@));
        }
        i = i + 1;
    }
    assert(group_by@.take(group_by.len() as int) =~= group_by@);
    if parts.len() == 0 {
        String::new()
    } else {
        let mut out = String::from_str("GROUP BY ");
        push_joined(&mut out, &parts, ", ");
        out
    }
}

/// Splits `f(arg)` into `f` and `arg`: the text before the first `(`, and what
/// lies between it and a closing `)` that ends the text.
pub fn split_call(s: &String) -> (r: Option<(String, String)>)
    ensures
        match r {
            Some((f, a)) => call_parts(s@) == Some((f@, a@)),
            None => call_parts(s@) is None,
        },
{
    let n = s.as_str().unicode_len();
    if n == 0 || s.as_str().get_char(n - 1) != ')' {
        return None;
    }
    let mut i: usize = 0;
    while i < n
        invariant
            n == s@.len(),
            n > 0,
            s@[n - 1] == ')',
            i <= n,
            forall|j: int| 0 <= j < i ==> s@[j] != '(',
        decreases n - i,
    {
        if s.as_str().get_char(i) == '(' {
            proof {
                let k = choose|k: int| 0 <= k < s@.len() && s@[k] == '(' && forall|j: int| 0 <= j < k ==> s@[j] != '(';
                assert(s@.contains('('));
                if k < i {
                    assert(s@[k] != '(');
                }
                if k > i {
                    assert(s@[i as int] != '(');
                }
                assert(k == i);
            }
            let f = s.as_str().substring_char(0, i);
            let a = s.as_str().substring_char(i + 1, n - 1);
            return Some((String::from_str(f), String::from_str(a)));
        }
        i = i + 1;
    }
    None
}

fn dir_str(desc: bool) -> (r: &'static str)
    ensures
        r@ == dir_sql(desc),
{
    if desc { " DESC" } else { " ASC" }
}

fn mv_order_to_sql(o: &OrderItem) -> (r: Result<String, PlanError>)
    ensures
        match r {
            Ok(t) => mv_order_item(*o) == Ok::<Seq<char>, PlanError>(t@),
            Err(e) => mv_order_item(*o) == Err::<Seq<char>, PlanError>(e),
        },
{
    match split_call(&o.col) {
        Some((f, arg)) => {
            match AggOp::from_name(&f) {
                Some(op) => {
                    proof {
                        let c = choose|x: AggOp| folded(f@) == codes(op_lower(x));
                        lemma_op_names_differ(c, op, f@);
                    }
                    let col = if str_is(&arg, "*") { None } else { Some(arg) };
                    let (expr, _) = compute_agg_alias_expr(op, &col);
                    let mut out = expr;
                    out.append(dir_str(o.desc));
                    Ok(out)
                },
                None => Err(PlanError::UnsupportedAggregate),
            }
        },
        None => {
            let mut out = o.col.clone();
            out.append(dir_str(o.desc));
            Ok(out)
        },
    }
}

/// The ORDER BY clause over an MV, with `f(c)` entries rewritten to the
/// expressions the select list uses; empty where there are no entries.
pub fn order_by_to_sql(order_by: &Vec<OrderItem>) -> (r: Result<String, PlanError>)
    ensures
        match mv_order_items(order_by@) {
            Ok(items) => r == Ok::<String, PlanError>(r->Ok_0) && r->Ok_0@ == order_sql(items),
            Err(e) => r == Err::<String, PlanError>(e),
        },
{
    let mut parts: Vec<String> = Vec::new();
    let mut i: usize = 0;
    assert(order_by@.take(0) =~= Seq::<OrderItem>::empty());
    assert(keys(parts@) =~= Seq::<Seq<char>>::empty());
    while i < order_by.len()
        invariant
            i <= order_by.len(),
            mv_order_items(order_by@.take(i as int)) == Ok::<Seq<Seq<char>>, PlanError>(keys(parts@)),
        decreases order_by.len() - i,
    {
        assert(order_by@.take(i as int + 1).drop_last() =~= order_by@.take(i as int));
        match mv_order_to_sql(&order_by[i]) {
            Ok(t) => {
                let ghost before = parts@;
                parts.push(t);
                assert(keys(parts@) =~= keys(before).push(t@));
            },
            Err(e) => {
                proof { lemma_order_error_sticks(order_by@, i as int + 1); }
                return Err(e);
            },
        }
        i = i + 1;
    }
    assert(order_by@.take(order_by.len() as int) =~= order_by@);
    if parts.len() == 0 {
        Ok(String::new())
    } else {
        let mut out = String::from_str("ORDER BY ");
        push_joined(&mut out, &parts, ", ");
        Ok(out)
    }
}

proof fn lemma_order_error_sticks(items: Seq<OrderItem>, i: int)
    requires
        0 < i <= items.len(),
        mv_order_items(items.take(i)) is Err,
    ensures
        mv_order_items(items) == mv_order_items(items.take(i)),
    decreases items.len() - i,
{
    if i == items.len() {
        assert(items.take(i) =~= items);
    } else {
        assert(items.take(i + 1).drop_last() =~= items.take(i));
        lemma_order_error_sticks(items, i + 1);
    }
}

/// The ORDER BY clause over the base table: each entry as written.
pub fn order_by_plain(order_by: &Vec<OrderItem>) -> (r: String)
    ensures
        r@ == order_sql(order_by@.map_values(|o: OrderItem| o.col@ + dir_sql(o.desc))),
{
    let mut parts: Vec<String> = Vec::new();
    let mut i: usize = 0;
    while i < order_by.len()
        invariant
            i <= order_by.len(),
            parts@.len() == i,
            forall|k: int| 0 <= k < i ==> (#[trigger] parts@[k])@ == order_by@[k].col@ + dir_sql(order_by@[k].desc),
        decreases order_by.len() - i,
    {
        let mut t = order_by[i].col.clone();
        t.append(dir_str(order_by[i].desc));
        parts.push(t);
        i = i + 1;
    }
    assert(keys(parts@) =~= order_by@.map_values(|o: OrderItem| o.col@ + dir_sql(o.desc)));
    if parts.len() == 0 {
        String::new()
    } else {
        let mut out = String::from_str("ORDER BY ");
        push_joined(&mut out, &parts, ", ");
        out
    }
}

fn push_clause(out: &mut String, c: &String)
    ensures
        final(out)@ == old(out)@ + clause(c@),
{
    if c.as_str().unicode_len() > 0 {
        out.append(" ");
        out.append(c.as_str());
    } else {
        assert(clause(c@) =~= Seq::<char>::empty());
    }
}

fn push_limit(out: &mut String, limit: Option<u64>)
    ensures
        final(out)@ == old(out)@ + limit_sql(limit),
{
    match limit {
        Some(n) => {
            out.append(" LIMIT ");
            push_decimal(out, n);
        },
        None => {
            assert(limit_sql(limit) =~= Seq::<char>::empty());
        },
    }
}

/// The statement that answers `query` from `mv`: aggregates rewritten over its
/// stored metrics and, for a type-partitioned MV, the `type` predicates left
/// out and `type` read as its constant.
pub fn assemble_sql_for_mv(query: &Query, mv: &MaterializedView) -> (r: Result<String, PlanError>)
    ensures
        match mv_sql(*query, *mv) {
            Ok(t) => r == Ok::<String, PlanError>(r->Ok_0) && r->Ok_0@ == t,
            Err(e) => r == Err::<String, PlanError>(e),
        },
{
    let order = match order_by_to_sql(&query.order_by) {
        Ok(o) => o,
        Err(e) => return Err(e),
    };
    let partitioned = mv.partition.is_some();
    let mut out = String::from_str("SELECT ");
    out.append(select_over_mv(&query.select, mv).as_str());
    out.append(" FROM ");
    out.append(mv.name.as_str());
    push_clause(&mut out, &where_to_sql(&query.where_clause, partitioned));
    push_clause(&mut out, &group_by_to_sql(&query.group_by, partitioned));
    push_clause(&mut out, &order);
    push_limit(&mut out, query.limit);
    Ok(out)
}

/// The statement that answers `query` from the table it names, as written.
pub fn assemble_sql(query: &Query) -> (r: String)
    ensures
        r@ == plain_sql(*query),
{
    let mut out = String::from_str("SELECT ");
    out.append(select_plain(&query.select).as_str());
    out.append(" FROM ");
    out.append(query.from.as_str());
    push_clause(&mut out, &where_to_sql(&query.where_clause, false));
    push_clause(&mut out, &group_by_to_sql(&query.group_by, false));
    push_clause(&mut out, &order_by_plain(&query.order_by));
    push_limit(&mut out, query.limit);
    out
}

} // verus!
