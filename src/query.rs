//! The query IR: what a parsed JSON query holds, and the rules that reject a
//! malformed one.
use vstd::prelude::*;
use crate::text::{name_is, folded, codes, str_is, vec_has, seq_has};

verus! {

/// The aggregate functions a query may ask for.
#[derive(Clone, Copy, Debug, PartialEq, Eq, Structural)]
pub enum AggOp {
    Count,
    Sum,
    Min,
    Max,
    Avg,
}

/// The lower-case name of an aggregate function.
pub open spec fn op_lower(op: AggOp) -> Seq<char> {
    match op {
        AggOp::Count => "count"@,
        AggOp::Sum => "sum"@,
        AggOp::Min => "min"@,
        AggOp::Max => "max"@,
        AggOp::Avg => "avg"@,
    }
}

/// The upper-case name of an aggregate function.
pub open spec fn op_upper(op: AggOp) -> Seq<char> {
    match op {
        AggOp::Count => "COUNT"@,
        AggOp::Sum => "SUM"@,
        AggOp::Min => "MIN"@,
        AggOp::Max => "MAX"@,
        AggOp::Avg => "AVG"@,
    }
}

impl AggOp {
    pub fn lower_name(&self) -> (r: &'static str)
        ensures
            r@ == op_lower(*self),
    {
        match self {
            AggOp::Count => "count",
            AggOp::Sum => "sum",
            AggOp::Min => "min",
            AggOp::Max => "max",
            AggOp::Avg => "avg",
        }
    }

    pub fn upper_name(&self) -> (r: &'static str)
        ensures
            r@ == op_upper(*self),
    {
        match self {
            AggOp::Count => "COUNT",
            AggOp::Sum => "SUM",
            AggOp::Min => "MIN",
            AggOp::Max => "MAX",
            AggOp::Avg => "AVG",
        }
    }

    /// Reads an aggregate function's name, in any letter case.
    pub fn from_name(name: &String) -> (r: Option<AggOp>)
        ensures
            r matches Some(op) ==> folded(name@) == codes(op_lower(op)),
            r is None ==> forall|op: AggOp| folded(name@) != codes(op_lower(op)),
    {
        if name_is(name, "count") {
            Some(AggOp::Count)
        } else if name_is(name, "sum") {
            Some(AggOp::Sum)
        } else if name_is(name, "min") {
            Some(AggOp::Min)
        } else if name_is(name, "max") {
            Some(AggOp::Max)
        } else if name_is(name, "avg") {
            Some(AggOp::Avg)
        } else {
            None
        }
    }
}

/// An aggregate over a column; no column stands for `*`.
#[derive(Clone, Debug)]
pub struct Agg {
    pub op: AggOp,
    pub column: Option<String>,
}

/// The view of an optional column name.
pub open spec fn opt_view(c: Option<String>) -> Option<Seq<char>> {
    match c {
        Some(s) => Some(s@),
        None => None,
    }
}

impl View for Agg {
    type V = (AggOp, Option<Seq<char>>);

    open spec fn view(&self) -> (AggOp, Option<Seq<char>>) {
        (self.op, opt_view(self.column))
    }
}

impl Agg {
    pub fn new(op: AggOp, column: Option<String>) -> (r: Agg)
        ensures
            r.op == op,
            r.column == column,
    {
        Agg { op, column }
    }

    pub fn copy(&self) -> (r: Agg)
        ensures
            r@ == self@,
    {
        let column = match &self.column {
            Some(c) => Some(c.clone()),
            None => None,
        };
        Agg { op: self.op, column }
    }

    /// Whether two aggregates are the same function over the same column.
    pub fn same(&self, other: &Agg) -> (r: bool)
        ensures
            r == (self@ == other@),
    {
        if self.op != other.op {
            return false;
        }
        match (&self.column, &other.column) {
            (Some(a), Some(b)) => *a == *b,
            (None, None) => true,
            _ => false,
        }
    }
}

/// A literal of a predicate: text is quoted in SQL, a number is not.
#[derive(Clone, Debug)]
pub enum Literal {
    Text(String),
    Number(String),
}

/// What a predicate tests of its column.
#[derive(Clone, Debug)]
pub enum Condition {
    Eq(Literal),
    Neq(Literal),
    Lt(Literal),
    Lte(Literal),
    Gt(Literal),
    Gte(Literal),
    Between(Literal, Literal),
    In(Vec<Literal>),
}

/// One conjunct of a WHERE list.
#[derive(Clone, Debug)]
pub struct Predicate {
    pub col: String,
    pub cond: Condition,
}

/// The value of a predicate as it was written: one scalar or an array.
#[derive(Clone, Debug)]
pub enum PredValue {
    Scalar(Literal),
    List(Vec<Literal>),
}

/// Why a query was rejected.
#[derive(Clone, Copy, Debug, PartialEq, Eq, Structural)]
pub enum QueryError {
    /// A required field (`select`, or a predicate's `col`, `op` or `val`) is absent.
    MissingField,
    /// A predicate operator outside eq, neq, lt, lte, gt, gte, between, in.
    UnknownOp,
    /// A `between` whose array does not hold exactly two values.
    BetweenArity,
    /// An `in` whose value is not a non-empty array, or a scalar operator given an array.
    BadValue,
    /// An aggregate function the library does not know.
    UnknownAggregate,
    /// `*` as the column of an aggregate other than COUNT.
    StarNotCount,
    /// A select entry that is not a single aggregate.
    BadSelectItem,
    /// A bare column in `select` that `group_by` lacks, where grouping applies.
    UngroupedColumn,
    /// An ORDER BY direction other than asc or desc.
    UnknownDirection,
}

/// The operator names a predicate may carry.
pub open spec fn scalar_op(op: Seq<char>) -> bool {
    op == "eq"@ || op == "neq"@ || op == "lt"@ || op == "lte"@ || op == "gt"@ || op == "gte"@
}

pub open spec fn known_op(op: Seq<char>) -> bool {
    scalar_op(op) || op == "between"@ || op == "in"@
}

/// The condition that `op` and `val` spell, if they spell one.
pub open spec fn spec_condition(op: Seq<char>, val: PredValue) -> Result<Condition, QueryError> {
    if !known_op(op) {
        Err(QueryError::UnknownOp)
    } else if op == "between"@ {
        match val {
            PredValue::List(v) => if v@.len() == 2 {
                Ok(Condition::Between(v@[0], v@[1]))
            } else {
                Err(QueryError::BetweenArity)
            },
            PredValue::Scalar(_) => Err(QueryError::BetweenArity),
        }
    } else if op == "in"@ {
        match val {
            PredValue::List(v) => if v@.len() > 0 {
                Ok(Condition::In(v))
            } else {
                Err(QueryError::BadValue)
            },
            PredValue::Scalar(_) => Err(QueryError::BadValue),
        }
    } else {
        match val {
            PredValue::Scalar(l) => Ok(
                if op == "eq"@ {
                    Condition::Eq(l)
                } else if op == "neq"@ {
                    Condition::Neq(l)
                } else if op == "lt"@ {
                    Condition::Lt(l)
                } else if op == "lte"@ {
                    Condition::Lte(l)
                } else if op == "gt"@ {
                    Condition::Gt(l)
                } else {
                    Condition::Gte(l)
                },
            ),
            PredValue::List(_) => Err(QueryError::BadValue),
        }
    }
}

/// The predicate that the JSON fields `col`, `op` and `val` spell, or why they spell none.
pub open spec fn spec_parse_predicate(col: Option<String>, op: Option<String>, val: Option<PredValue>) -> Result<Predicate, QueryError> {
    match (col, op, val) {
        (Some(c), Some(o), Some(v)) => match spec_condition(o@, v) {
            Ok(cond) => Ok(Predicate { col: c, cond }),
            Err(e) => Err(e),
        },
        _ => Err(QueryError::MissingField),
    }
}

impl Predicate {
    /// Builds a predicate from the `col`, `op` and `val` fields of its JSON form.
    pub fn parse(col: Option<String>, op: Option<String>, val: Option<PredValue>) -> (r: Result<Predicate, QueryError>)
        ensures
            r == spec_parse_predicate(col, op, val),
    {
        let (col, op, val) = match (col, op, val) {
            (Some(c), Some(o), Some(v)) => (c, o, v),
            _ => return Err(QueryError::MissingField),
        };
        let is_between = str_is(&op, "between");
        let is_in = str_is(&op, "in");
        let is_eq = str_is(&op, "eq");
        let is_neq = str_is(&op, "neq");
        let is_lt = str_is(&op, "lt");
        let is_lte = str_is(&op, "lte");
        let is_gt = str_is(&op, "gt");
        let is_gte = str_is(&op, "gte");
        if !(is_between || is_in || is_eq || is_neq || is_lt || is_lte || is_gt || is_gte) {
            return Err(QueryError::UnknownOp);
        }
        if is_between {
            match val {
                PredValue::List(v) => {
                    if v.len() == 2 {
                        let mut v = v;
                        let lo = v.remove(0);
                        let hi = v.remove(0);
                        Ok(Predicate { col, cond: Condition::Between(lo, hi) })
                    } else {
                        Err(QueryError::BetweenArity)
                    }
                },
                PredValue::Scalar(_) => Err(QueryError::BetweenArity),
            }
        } else if is_in {
            match val {
                PredValue::List(v) => {
                    if v.len() > 0 {
                        Ok(Predicate { col, cond: Condition::In(v) })
                    } else {
                        Err(QueryError::BadValue)
                    }
                },
                PredValue::Scalar(_) => Err(QueryError::BadValue),
            }
        } else {
            match val {
                PredValue::Scalar(l) => {
                    let cond = if is_eq {
                        Condition::Eq(l)
                    } else if is_neq {
                        Condition::Neq(l)
                    } else if is_lt {
                        Condition::Lt(l)
                    } else if is_lte {
                        Condition::Lte(l)
                    } else if is_gt {
                        Condition::Gt(l)
                    } else {
                        Condition::Gte(l)
                    };
                    Ok(Predicate { col, cond })
                },
                PredValue::List(_) => Err(QueryError::BadValue),
            }
        }
    }
}

/// One entry of a select list.
#[derive(Clone, Debug)]
pub enum SelectItem {
    Column(String),
    Aggregate(Agg),
}

/// The aggregate that a one-entry JSON object `{op: column}` spells.
pub open spec fn spec_parse_aggregate(entries: Seq<(String, String)>) -> Result<SelectItem, QueryError> {
    if entries.len() != 1 {
        Err(QueryError::BadSelectItem)
    } else {
        let (name, col) = entries[0];
        if forall|op: AggOp| folded(name@) != codes(op_lower(op)) {
            Err(QueryError::UnknownAggregate)
        } else {
            let op = choose|op: AggOp| folded(name@) == codes(op_lower(op));
            if col@ == "*"@ {
                if op == AggOp::Count {
                    Ok(SelectItem::Aggregate(Agg { op, column: None }))
                } else {
                    Err(QueryError::StarNotCount)
                }
            } else {
                Ok(SelectItem::Aggregate(Agg { op, column: Some(col) }))
            }
        }
    }
}

pub proof fn lemma_op_names_differ(a: AggOp, b: AggOp, name: Seq<char>)
    requires
        folded(name) == codes(op_lower(a)),
        folded(name) == codes(op_lower(b)),
    ensures
        a == b,
{
    reveal_strlit("count");
    reveal_strlit("sum");
    reveal_strlit("min");
    reveal_strlit("max");
    reveal_strlit("avg");
    let x = codes(op_lower(a));
    let y = codes(op_lower(b));
    assert(x == y);
    if a != b {
        assert(x.len() != y.len() || x[0] != y[0] || x[1] != y[1]);
    }
}

impl SelectItem {
    /// Reads an aggregate select entry from its key/value pairs.
    pub fn parse_aggregate(entries: Vec<(String, String)>) -> (r: Result<SelectItem, QueryError>)
        ensures
            r == spec_parse_aggregate(entries@),
    {
        if entries.len() != 1 {
            return Err(QueryError::BadSelectItem);
        }
        let mut entries = entries;
        let ghost e0 = entries@[0];
        let (name, col) = entries.remove(0);
        let op = match AggOp::from_name(&name) {
            Some(op) => op,
            None => return Err(QueryError::UnknownAggregate),
        };
        proof {
            let c = choose|o: AggOp| folded(name@) == codes(op_lower(o));
            lemma_op_names_differ(c, op, name@);
        }
        if str_is(&col, "*") {
            if op == AggOp::Count {
                Ok(SelectItem::Aggregate(Agg { op, column: None }))
            } else {
                Err(QueryError::StarNotCount)
            }
        } else {
            Ok(SelectItem::Aggregate(Agg { op, column: Some(col) }))
        }
    }
}

/// One ORDER BY entry: a column or an aggregate's text, and its direction.
#[derive(Clone, Debug)]
pub struct OrderItem {
    pub col: String,
    pub desc: bool,
}

/// The ORDER BY entry that the JSON fields `col` and `dir` spell.
pub open spec fn spec_parse_order(col: Option<String>, dir: Option<String>) -> Result<OrderItem, QueryError> {
    match col {
        None => Err(QueryError::MissingField),
        Some(c) => match dir {
            None => Ok(OrderItem { col: c, desc: false }),
            Some(d) => if folded(d@) == codes("asc"@) {
                Ok(OrderItem { col: c, desc: false })
            } else if folded(d@) == codes("desc"@) {
                Ok(OrderItem { col: c, desc: true })
            } else {
                Err(QueryError::UnknownDirection)
            },
        },
    }
}

impl OrderItem {
    pub fn parse(col: Option<String>, dir: Option<String>) -> (r: Result<OrderItem, QueryError>)
        ensures
            r == spec_parse_order(col, dir),
    {
        let col = match col {
            Some(c) => c,
            None => return Err(QueryError::MissingField),
        };
        match dir {
            None => Ok(OrderItem { col, desc: false }),
            Some(d) => {
                if name_is(&d, "asc") {
                    Ok(OrderItem { col, desc: false })
                } else if name_is(&d, "desc") {
                    Ok(OrderItem { col, desc: true })
                } else {
                    Err(QueryError::UnknownDirection)
                }
            },
        }
    }
}

/// A query over one table: SELECT, WHERE (a conjunction), GROUP BY, ORDER BY, LIMIT.
/// An absent `group_by` or `order_by` is an empty list.
#[derive(Clone, Debug)]
pub struct Query {
    pub select: Vec<SelectItem>,
    pub from: String,
    pub where_clause: Vec<Predicate>,
    pub group_by: Vec<String>,
    pub order_by: Vec<OrderItem>,
    pub limit: Option<u64>,
}

pub open spec fn has_aggregate(select: Seq<SelectItem>) -> bool {
    exists|i: int| 0 <= i < select.len() && (#[trigger] select[i]) is Aggregate
}

/// A bare column of `select` that `group_by` lacks.
pub open spec fn has_ungrouped(select: Seq<SelectItem>, group_by: Seq<String>) -> bool {
    exists|i: int|
        0 <= i < select.len() && (#[trigger] select[i] matches SelectItem::Column(c) && !seq_has(group_by, c@))
}

/// Whether the select list and grouping of a query fit together: where the
/// query groups or aggregates, every bare column is a grouping key.
pub open spec fn grouping_ok(select: Seq<SelectItem>, group_by: Seq<String>) -> bool {
    (group_by.len() > 0 || has_aggregate(select)) ==> !has_ungrouped(select, group_by)
}

/// A predicate as a well-formed query holds it: an IN list is never empty.
pub open spec fn supported_pred(p: Predicate) -> bool {
    p.cond matches Condition::In(ls) ==> ls@.len() > 0
}

pub open spec fn preds_ok(preds: Seq<Predicate>) -> bool {
    forall|i: int| 0 <= i < preds.len() ==> supported_pred(#[trigger] preds[i])
}

/// A well-formed query: a non-empty select list whose bare columns fit its
/// grouping, and predicates of supported form.
pub open spec fn well_formed(q: Query) -> bool {
    q.select@.len() > 0 && grouping_ok(q.select@, q.group_by@) && preds_ok(q.where_clause@)
}

impl Query {
    /// Builds a query from its fields, checking the rules a well-formed query meets.
    /// `from` defaults to `events`.
    pub fn new(
        select: Option<Vec<SelectItem>>,
        from: Option<String>,
        where_clause: Vec<Predicate>,
        group_by: Vec<String>,
        order_by: Vec<OrderItem>,
        limit: Option<u64>,
    ) -> (r: Result<Query, QueryError>)
        ensures
            match select {
                None => r == Err::<Query, QueryError>(QueryError::MissingField),
                Some(s) => if s@.len() == 0 {
                    r == Err::<Query, QueryError>(QueryError::MissingField)
                } else if !grouping_ok(s@, group_by@) {
                    r == Err::<Query, QueryError>(QueryError::UngroupedColumn)
                } else if !preds_ok(where_clause@) {
                    r == Err::<Query, QueryError>(QueryError::BadValue)
                } else {
                    r matches Ok(q) && well_formed(q) && q.select == s && q.where_clause == where_clause
                        && q.group_by == group_by && q.order_by == order_by && q.limit == limit
                        && q.from@ == match from { Some(f) => f@, None => "events"@ }
                },
            },
    {
        let items = match select {
            Some(s) => s,
            None => return Err(QueryError::MissingField),
        };
        if items.len() == 0 {
            return Err(QueryError::MissingField);
        }
        let mut any_agg = false;
        let mut i: usize = 0;
        while i < items.len()
            invariant
                i <= items.len(),
                select == Some(items),
                any_agg == exists|j: int| 0 <= j < i && (#[trigger] items@[j]) is Aggregate,
            decreases items.len() - i,
        {
            if let SelectItem::Aggregate(_) = &items[i] {
                any_agg = true;
            }
            i = i + 1;
        }
        assert(any_agg == has_aggregate(items@));
        if group_by.len() > 0 || any_agg {
            let mut k: usize = 0;
            while k < items.len()
                invariant
                    k <= items.len(),
                    select == Some(items),
                    group_by.len() > 0 || has_aggregate(items@),
                    forall|j: int| 0 <= j < k ==> !(#[trigger] items@[j] matches SelectItem::Column(c) && !seq_has(group_by@, c@)),
                decreases items.len() - k,
            {
                if let SelectItem::Column(c) = &items[k] {
                    if !vec_has(&group_by, c) {
                        assert(items@[k as int] matches SelectItem::Column(c) && !seq_has(group_by@, c@));
                        assert(has_ungrouped(items@, group_by@));
                        return Err(QueryError::UngroupedColumn);
                    }
                }
                k = k + 1;
            }
        }
        assert(grouping_ok(items@, group_by@));
        let mut k: usize = 0;
        while k < where_clause.len()
            invariant
                k <= where_clause.len(),
                select == Some(items),
                items@.len() > 0,
                grouping_ok(items@, group_by@),
                forall|j: int| 0 <= j < k ==> supported_pred(#[trigger] where_clause@[j]),
            decreases where_clause.len() - k,
        {
            if let Condition::In(ls) = &where_clause[k] .cond {
                if ls.len() == 0 {
                    assert(!supported_pred(where_clause@[k as int]));
                    return Err(QueryError::BadValue);
                }
            }
            k = k + 1;
        }
        let from = match from {
            Some(f) => f,
            None => String::from_str("events"),
        };
        Ok(Query { select: items, from, where_clause, group_by, order_by, limit })
    }
}

} // verus!
