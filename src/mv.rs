//! Materialized views: their descriptors, the registry of rollups to build,
//! the type-partitioned siblings, and the statements that build them.
use vstd::prelude::*;
use crate::query::{Agg, AggOp, op_lower, op_upper, opt_view};
use crate::text::{keys, join, decimal, seq_has, vec_has, str_is, push_joined, push_decimal, push_without_dots, dots_to_underscores};

verus! {

/// A rollup of `events`: its grouping keys, stored preaggregates and, once
/// collected, its statistics. `partition` is `Some(v)` for a type-partitioned
/// sibling that holds only the rows whose `type` is `v`.
#[derive(Clone, Debug)]
pub struct MaterializedView {
    pub name: String,
    pub group_by: Vec<String>,
    pub aggs: Vec<Agg>,
    pub partition: Option<String>,
    pub num_rows: Option<u64>,
    pub num_distinct: Vec<(String, u64)>,
    pub col_to_topk: Vec<(String, Vec<(String, u64)>)>,
}

/// The views of a list of aggregates.
pub open spec fn agg_views(aggs: Seq<Agg>) -> Seq<(AggOp, Option<Seq<char>>)> {
    aggs.map_values(|a: Agg| a@)
}

/// Whether `m` has no statistics attached.
pub open spec fn no_stats(m: MaterializedView) -> bool {
    m.num_rows is None && m.num_distinct@.len() == 0 && m.col_to_topk@.len() == 0
}

/// Whether no two entries of `s` are equal.
pub open spec fn distinct_seq<T>(s: Seq<T>) -> bool {
    forall|i: int, j: int| 0 <= i < j < s.len() ==> s[i] != s[j]
}

/// Whether `m` stores no aggregate twice.
pub open spec fn aggs_unique(m: MaterializedView) -> bool {
    distinct_seq(agg_views(m.aggs@))
}

/// Whether the statistics of `m` hold at most one entry per key.
pub open spec fn stats_keys_unique(m: MaterializedView) -> bool {
    distinct_seq(m.num_distinct@.map_values(|e: (String, u64)| e.0@))
        && distinct_seq(m.col_to_topk@.map_values(|e: (String, Vec<(String, u64)>)| e.0@))
}

/// The invariant of a view descriptor: its aggregates form a set, and its
/// statistics map each key once.
pub open spec fn descriptor_ok(m: MaterializedView) -> bool {
    aggs_unique(m) && stats_keys_unique(m)
}

/// Whether `aggs` holds an aggregate equal to `a`.
pub(crate) fn aggs_contain(aggs: &Vec<Agg>, a: &Agg) -> (r: bool)
    ensures
        r == agg_views(aggs@).contains(a@),
{
    let mut i: usize = 0;
    while i < aggs.len()
        invariant
            i <= aggs.len(),
            forall|j: int| 0 <= j < i ==> (#[trigger] aggs@[j])@ != a@,
        decreases aggs.len() - i,
    {
        if aggs[i].same(a) {
            assert(agg_views(aggs@)[i as int] == a@);
            return true;
        }
        i = i + 1;
    }
    proof {
        if agg_views(aggs@).contains(a@) {
            let k = choose|k: int| 0 <= k < agg_views(aggs@).len() && agg_views(aggs@)[k] == a@;
            assert(aggs@[k]@ == a@);
        }
    }
    false
}

/// The aggregates of `aggs`, each once, in order of first occurrence.
fn dedup_aggs(aggs: Vec<Agg>) -> (r: Vec<Agg>)
    ensures
        distinct_seq(agg_views(r@)),
        forall|v: (AggOp, Option<Seq<char>>)| agg_views(r@).contains(v) <==> agg_views(aggs@).contains(v),
        distinct_seq(agg_views(aggs@)) ==> agg_views(r@) == agg_views(aggs@),
{
    let ghost src = agg_views(aggs@);
    let mut out: Vec<Agg> = Vec::new();
    let mut i: usize = 0;
    while i < aggs.len()
        invariant
            i <= aggs.len(),
            src == agg_views(aggs@),
            distinct_seq(agg_views(out@)),
            forall|v: (AggOp, Option<Seq<char>>)| agg_views(out@).contains(v) <==> src.take(i as int).contains(v),
            distinct_seq(src) ==> agg_views(out@) == src.take(i as int),
        decreases aggs.len() - i,
    {
        let ghost before = agg_views(out@);
        let ghost t0 = src.take(i as int);
        let ghost t1 = src.take(i as int + 1);
        assert(t1 =~= t0.push(src[i as int]));
        if !aggs_contain(&out, &aggs[i]) {
            let c = aggs[i].copy();
            out.push(c);
            assert(agg_views(out@) =~= before.push(c@));
            assert forall|v: (AggOp, Option<Seq<char>>)| agg_views(out@).contains(v) <==> t1.contains(v) by {
                if agg_views(out@).contains(v) {
                    if v == c@ {
                        assert(t1[i as int] == v);
                    } else {
                        let k = choose|k: int| 0 <= k < agg_views(out@).len() && #[trigger] agg_views(out@)[k] == v;
                        assert(before[k] == v);
                        assert(before.contains(v));
                        assert(t0.contains(v));
                        let k2 = choose|k2: int| 0 <= k2 < t0.len() && #[trigger] t0[k2] == v;
                        assert(t1[k2] == v);
                    }
                }
                if t1.contains(v) {
                    let k = choose|k: int| 0 <= k < t1.len() && #[trigger] t1[k] == v;
                    if k < i {
                        assert(t0[k] == v);
                        assert(before.contains(v));
                        let k2 = choose|k2: int| 0 <= k2 < before.len() && #[trigger] before[k2] == v;
                        assert(agg_views(out@)[k2] == v);
                    } else {
                        assert(agg_views(out@)[before.len() as int] == v);
                    }
                }
            }
        } else {
            proof {
                if distinct_seq(src) {
                    let k = choose|k: int| 0 <= k < before.len() && #[trigger] before[k] == aggs@[i as int]@;
                    assert(t0[k] == src[i as int]);
                    assert(false);
                }
                assert forall|v: (AggOp, Option<Seq<char>>)| agg_views(out@).contains(v) <==> t1.contains(v) by {
                    if t1.contains(v) && v != src[i as int] {
                        let k = choose|k: int| 0 <= k < t1.len() && #[trigger] t1[k] == v;
                        assert(t0[k] == v);
                    }
                    if agg_views(out@).contains(v) {
                        assert(t0.contains(v));
                        let k = choose|k: int| 0 <= k < t0.len() && #[trigger] t0[k] == v;
                        assert(t1[k] == v);
                    }
                }
            }
        }
        i = i + 1;
    }
    assert(src.take(aggs.len() as int) =~= src);
    out
}

/// The name of the MV column that stores an aggregate.
pub open spec fn metric_name(op: AggOp, col: Option<Seq<char>>) -> Seq<char> {
    if op == AggOp::Count && (col is None || col == Some("*"@)) {
        "count_rows"@
    } else {
        op_lower(op) + "_"@ + match col {
            Some(c) => dots_to_underscores(c),
            None => "rows"@,
        }
    }
}

/// The name of the MV column that stores `op` over `col`: `count_rows` for
/// COUNT(*), else `<op>_<col>` in lower case, with `.` written as `_`.
pub fn metric_col_name(op: AggOp, col: &Option<String>) -> (r: String)
    ensures
        r@ == metric_name(op, opt_view(*col)),
{
    let star = match col {
        Some(c) => crate::text::str_is(c, "*"),
        None => true,
    };
    if op == AggOp::Count && star {
        return String::from_str("count_rows");
    }
    let mut out = String::from_str(op.lower_name());
    out.append("_");
    match col {
        Some(c) => push_without_dots(&mut out, c),
        None => out.append("rows"),
    }
    out
}

/// The select entry that builds one stored aggregate.
pub open spec fn agg_part(a: Agg) -> Seq<char> {
    match a.column {
        None => "COUNT(*) AS count_rows"@,
        Some(c) => op_upper(a.op) + "("@ + c@ + ") AS "@ + metric_name(a.op, Some(c@)),
    }
}

/// The GROUP BY positions `1`, `2`, ..., `n`.
pub open spec fn positions(n: nat) -> Seq<Seq<char>> {
    Seq::new(n, |i: int| decimal((i + 1) as nat))
}

/// `acc` followed by the entries of `g` it lacks, each once, in order.
pub open spec fn add_missing(acc: Seq<Seq<char>>, g: Seq<Seq<char>>) -> Seq<Seq<char>>
    decreases g.len(),
{
    if g.len() == 0 {
        acc
    } else {
        add_missing(if acc.contains(g[0]) { acc } else { acc.push(g[0]) }, g.drop_first())
    }
}

/// The keys an MV's rows are sorted by: `type`, `day` and `country` first
/// where present, then the other keys in order.
pub open spec fn sort_keys(g: Seq<Seq<char>>) -> Seq<Seq<char>> {
    let lead = (if g.contains("type"@) { seq!["type"@] } else { Seq::empty() })
        + (if g.contains("day"@) { seq!["day"@] } else { Seq::empty() })
        + (if g.contains("country"@) { seq!["country"@] } else { Seq::empty() });
    add_missing(lead, g)
}

/// The statement that builds `m` from `events`.
pub open spec fn create_sql(m: MaterializedView) -> Seq<char> {
    let g = keys(m.group_by@);
    let parts = g + m.aggs@.map_values(|a: Agg| agg_part(a));
    "CREATE TABLE IF NOT EXISTS "@ + m.name@ + " AS\nSELECT\n"@ + join(parts, ",\n"@) + "\nFROM events"@
        + match m.partition {
            Some(v) => "\nWHERE type = '"@ + v@ + "'"@,
            None => Seq::empty(),
        }
        + (if g.len() > 0 { "\nGROUP BY "@ + join(positions(g.len()), ", "@) } else { Seq::empty() })
        + (if g.len() > 0 { " ORDER BY "@ + join(sort_keys(g), ", "@) } else { Seq::empty() })
        + ";"@
}

proof fn lemma_keys_has(v: Seq<String>, x: Seq<char>)
    ensures
        seq_has(v, x) == keys(v).contains(x),
{
    if seq_has(v, x) {
        let i = choose|i: int| 0 <= i < v.len() && (#[trigger] v[i])@ == x;
        assert(keys(v)[i] == x);
    }
    if keys(v).contains(x) {
        let i = choose|i: int| 0 <= i < keys(v).len() && keys(v)[i] == x;
        assert(v[i]@ == x);
    }
}

proof fn lemma_add_missing_step(acc: Seq<Seq<char>>, g: Seq<Seq<char>>, i: int)
    requires
        0 <= i < g.len(),
    ensures
        add_missing(acc, g.skip(i)) == add_missing(
            if acc.contains(g[i]) { acc } else { acc.push(g[i]) },
            g.skip(i + 1),
        ),
{
    assert(g.skip(i).drop_first() =~= g.skip(i + 1));
}

/// Appends `lit` to `v` if `g` holds it.
fn push_if_key(v: &mut Vec<String>, g: &Vec<String>, lit: &str)
    ensures
        keys(final(v)@) == keys(old(v)@) + (if keys(g@).contains(lit@) { seq![lit@] } else { Seq::empty() }),
{
    let s = String::from_str(lit);
    proof { lemma_keys_has(g@, lit@); }
    if vec_has(g, &s) {
        v.push(s);
        assert(keys(final(v)@) =~= keys(old(v)@) + seq![lit@]);
    } else {
        assert(keys(final(v)@) =~= keys(old(v)@));
    }
}

fn sort_key_list(g: &Vec<String>) -> (r: Vec<String>)
    ensures
        keys(r@) == sort_keys(keys(g@)),
{
    let mut acc: Vec<String> = Vec::new();
    push_if_key(&mut acc, g, "type");
    push_if_key(&mut acc, g, "day");
    push_if_key(&mut acc, g, "country");
    let ghost gk = keys(g@);
    assert(keys(acc@) =~= (if gk.contains("type"@) { seq!["type"@] } else { Seq::<Seq<char>>::empty() })
        + (if gk.contains("day"@) { seq!["day"@] } else { Seq::<Seq<char>>::empty() })
        + (if gk.contains("country"@) { seq!["country"@] } else { Seq::<Seq<char>>::empty() }));
    assert(gk.skip(0) =~= gk);
    let mut i: usize = 0;
    while i < g.len()
        invariant
            i <= g.len(),
            gk == keys(g@),
            add_missing(keys(acc@), gk.skip(i as int)) == sort_keys(gk),
        decreases g.len() - i,
    {
        proof {
            lemma_add_missing_step(keys(acc@), gk, i as int);
            lemma_keys_has(acc@, g@[i as int]@);
        }
        if !vec_has(&acc, &g[i]) {
            let ghost before = acc@;
            acc.push(g[i].clone());
            assert(keys(acc@) =~= keys(before).push(gk[i as int]));
        }
        i = i + 1;
    }
    assert(gk.skip(g.len() as int) =~= Seq::<Seq<char>>::empty());
    acc
}

/// A copy of a list of strings.
fn clone_strings(v: &Vec<String>) -> (r: Vec<String>)
    ensures
        keys(r@) == keys(v@),
        r@.len() == v@.len(),
        forall|k: int| 0 <= k < v@.len() ==> (#[trigger] r@[k])@ == v@[k]@,
{
    let mut r: Vec<String> = Vec::new();
    let mut i: usize = 0;
    while i < v.len()
        invariant
            i <= v.len(),
            r@.len() == i,
            forall|k: int| 0 <= k < i ==> (#[trigger] r@[k])@ == v@[k]@,
        decreases v.len() - i,
    {
        r.push(v[i].clone());
        i = i + 1;
    }
    assert(keys(r@) =~= keys(v@));
    r
}

fn agg_select_part(a: &Agg) -> (r: String)
    ensures
        r@ == agg_part(*a),
{
    match &a.column {
        None => String::from_str("COUNT(*) AS count_rows"),
        Some(c) => {
            let mut out = String::from_str(a.op.upper_name());
            out.append("(");
            out.append(c.as_str());
            out.append(") AS ");
            let m = metric_col_name(a.op, &a.column);
            out.append(m.as_str());
            out
        },
    }
}

fn position_list(n: usize) -> (r: Vec<String>)
    requires
        n < u64::MAX,
    ensures
        keys(r@) == positions(n as nat),
{
    let mut v: Vec<String> = Vec::new();
    let mut i: usize = 0;
    while i < n
        invariant
            i <= n,
            n < u64::MAX,
            v@.len() == i,
            forall|k: int| 0 <= k < i ==> (#[trigger] v@[k])@ == decimal((k + 1) as nat),
        decreases n - i,
    {
        let mut s = String::new();
        push_decimal(&mut s, (i + 1) as u64);
        v.push(s);
        i = i + 1;
    }
    assert(keys(v@) =~= positions(n as nat));
    v
}

impl MaterializedView {
    /// A base MV over `group_by` that stores the aggregates of `aggs`, each
    /// once, with no statistics yet.
    pub fn new(name: String, group_by: Vec<String>, aggs: Vec<Agg>) -> (r: MaterializedView)
        ensures
            r.name == name,
            r.group_by == group_by,
            forall|v: (AggOp, Option<Seq<char>>)| agg_views(r.aggs@).contains(v) <==> agg_views(aggs@).contains(v),
            distinct_seq(agg_views(aggs@)) ==> agg_views(r.aggs@) == agg_views(aggs@),
            r.partition is None,
            no_stats(r),
            descriptor_ok(r),
    {
        let aggs = dedup_aggs(aggs);
        proof {
            assert(Seq::<(String, u64)>::empty().map_values(|e: (String, u64)| e.0@) =~= Seq::<Seq<char>>::empty());
            assert(Seq::<(String, Vec<(String, u64)>)>::empty().map_values(|e: (String, Vec<(String, u64)>)| e.0@) =~= Seq::<Seq<char>>::empty());
        }
        MaterializedView {
            name,
            group_by,
            aggs,
            partition: None,
            num_rows: None,
            num_distinct: Vec::new(),
            col_to_topk: Vec::new(),
        }
    }

    pub open spec fn spec_has_stats(&self) -> bool {
        self.num_distinct@.len() > 0 && self.col_to_topk@.len() > 0 && self.num_rows is Some
    }

    /// Whether statistics have been attached.
    pub fn has_stats(&self) -> (r: bool)
        ensures
            r == self.spec_has_stats(),
    {
        self.num_distinct.len() > 0 && self.col_to_topk.len() > 0 && self.num_rows.is_some()
    }

    /// The statement that builds this MV from `events`: a grouped aggregate
    /// whose select list is the keys and then the stored aggregates, restricted
    /// to one `type` for a partitioned sibling, and sorted by its keys.
    pub fn generate_create_sql(&self) -> (r: String)
        requires
            self.group_by@.len() < u64::MAX,
        ensures
            r@ == create_sql(*self),
    {
        let mut parts = clone_strings(&self.group_by);
        let ghost g = keys(self.group_by@);
        let ghost ap = self.aggs@.map_values(|a: Agg| agg_part(a));
        let ghost n0 = parts@.len();
        let mut j: usize = 0;
        while j < self.aggs.len()
            invariant
                j <= self.aggs.len(),
                n0 == g.len(),
                g == keys(self.group_by@),
                ap == self.aggs@.map_values(|a: Agg| agg_part(a)),
                parts@.len() == n0 + j,
                forall|k: int| 0 <= k < n0 ==> (#[trigger] parts@[k])@ == g[k],
                forall|k: int| 0 <= k < j ==> (#[trigger] parts@[n0 + k])@ == ap[k],
            decreases self.aggs.len() - j,
        {
            let p = agg_select_part(&self.aggs[j]);
            parts.push(p);
            j = j + 1;
        }
        assert forall|k: int| 0 <= k < parts@.len() implies #[trigger] keys(parts@)[k] == (g + ap)[k] by {
            if k >= n0 {
                assert(parts@[n0 + (k - n0)]@ == ap[k - n0]);
            }
        }
        assert(keys(parts@) =~= g + ap);
        let mut out = String::from_str("CREATE TABLE IF NOT EXISTS ");
        out.append(self.name.as_str());
        out.append(" AS\nSELECT\n");
        push_joined(&mut out, &parts, ",\n");
        out.append("\nFROM events");
        match &self.partition {
            Some(v) => {
                out.append("\nWHERE type = '");
                out.append(v.as_str());
                out.append("'");
            },
            None => {},
        }
        let n = self.group_by.len();
        if n > 0 {
            out.append("\nGROUP BY ");
            let pos = position_list(n);
            push_joined(&mut out, &pos, ", ");
            out.append(" ORDER BY ");
            let sk = sort_key_list(&self.group_by);
            push_joined(&mut out, &sk, ", ");
        }
        out.append(";");
        out
    }
}

/// The preaggregates every registered MV stores: SUM and COUNT of each
/// monetary column, and COUNT(*).
pub open spec fn canonical_aggs() -> Seq<(AggOp, Option<Seq<char>>)> {
    seq![
        (AggOp::Sum, Some("bid_price"@)),
        (AggOp::Sum, Some("total_price"@)),
        (AggOp::Count, None),
        (AggOp::Count, Some("bid_price"@)),
        (AggOp::Count, Some("total_price"@)),
    ]
}

fn common_aggs() -> (r: Vec<Agg>)
    ensures
        agg_views(r@) == canonical_aggs(),
        distinct_seq(canonical_aggs()),
{
    proof {
        reveal_strlit("bid_price");
        reveal_strlit("total_price");
        assert("bid_price"@.len() != "total_price"@.len());
        assert(distinct_seq(canonical_aggs()));
    }
    let mut v: Vec<Agg> = Vec::new();
    v.push(Agg::new(AggOp::Sum, Some(String::from_str("bid_price"))));
    v.push(Agg::new(AggOp::Sum, Some(String::from_str("total_price"))));
    v.push(Agg::new(AggOp::Count, None));
    v.push(Agg::new(AggOp::Count, Some(String::from_str("bid_price"))));
    v.push(Agg::new(AggOp::Count, Some(String::from_str("total_price"))));
    assert(agg_views(v@) =~= canonical_aggs());
    v
}

/// The names of the registered MVs, in build order.
pub open spec fn registry_names() -> Seq<Seq<char>> {
    seq![
        "mv_advertiser_id_full"@,
        "mv_day_fast"@,
        "mv_time_fast"@,
        "mv_advertiser_id_fast"@,
        "mv_type_country"@,
        "mv_type_week"@,
        "mv_type_day_country"@,
        "mv_type_only"@,
        "mv_type_day_publisher_id"@,
        "mv_type_day_minute"@,
        "mv_type_week_day"@,
        "mv_type_day_country_publisher_id"@,
    ]
}

/// The grouping keys of the registered MVs, in build order.
pub open spec fn registry_keys() -> Seq<Seq<Seq<char>>> {
    seq![
        seq!["type"@, "day"@, "country"@, "advertiser_id"@],
        seq!["type"@, "day"@],
        seq!["type"@, "day"@, "hour"@, "minute"@],
        seq!["type"@, "advertiser_id"@],
        seq!["type"@, "country"@],
        seq!["type"@, "week"@],
        seq!["type"@, "day"@, "country"@],
        seq!["type"@],
        seq!["type"@, "day"@, "publisher_id"@],
        seq!["type"@, "day"@, "minute"@],
        seq!["type"@, "week"@, "day"@],
        seq!["type"@, "day"@, "country"@, "publisher_id"@],
    ]
}

/// Whether `m` is the registered base MV called `name`, over `group_by`.
pub open spec fn is_registered_mv(m: MaterializedView, name: Seq<char>, group_by: Seq<Seq<char>>) -> bool {
    &&& m.name@ == name
    &&& keys(m.group_by@) == group_by
    &&& agg_views(m.aggs@) == canonical_aggs()
    &&& m.partition is None
    &&& no_stats(m)
    &&& descriptor_ok(m)
}

fn registered(name: &str, group_by: Vec<&str>) -> (r: MaterializedView)
    ensures
        is_registered_mv(r, name@, group_by@.map_values(|k: &str| k@)),
{
    let mut g: Vec<String> = Vec::new();
    let mut i: usize = 0;
    while i < group_by.len()
        invariant
            i <= group_by.len(),
            g@.len() == i,
            forall|k: int| 0 <= k < i ==> (#[trigger] g@[k])@ == group_by@[k]@,
        decreases group_by.len() - i,
    {
        g.push(String::from_str(group_by[i]));
        i = i + 1;
    }
    assert(keys(g@) =~= group_by@.map_values(|k: &str| k@));
    MaterializedView::new(String::from_str(name), g, common_aggs())
}

/// The registry: one base MV per expected query shape, each storing the
/// canonical preaggregates, in the order they are built.
pub fn create_mv_registry() -> (r: Vec<MaterializedView>)
    ensures
        r@.len() == registry_names().len(),
        forall|i: int| 0 <= i < r@.len() ==> is_registered_mv(#[trigger] r@[i], registry_names()[i], registry_keys()[i]),
{
    let mut registry: Vec<MaterializedView> = Vec::new();
    let m0 = registered("mv_advertiser_id_full", vec!["type", "day", "country", "advertiser_id"]);
    proof {
        assert(seq!["type", "day", "country", "advertiser_id"].map_values(|k: &str| k@) =~= registry_keys()[0]);
    }
    registry.push(m0);
    let m1 = registered("mv_day_fast", vec!["type", "day"]);
    proof {
        assert(seq!["type", "day"].map_values(|k: &str| k@) =~= registry_keys()[1]);
    }
    registry.push(m1);
    let m2 = registered("mv_time_fast", vec!["type", "day", "hour", "minute"]);
    proof {
        assert(seq!["type", "day", "hour", "minute"].map_values(|k: &str| k@) =~= registry_keys()[2]);
    }
    registry.push(m2);
    let m3 = registered("mv_advertiser_id_fast", vec!["type", "advertiser_id"]);
    proof {
        assert(seq!["type", "advertiser_id"].map_values(|k: &str| k@) =~= registry_keys()[3]);
    }
    registry.push(m3);
    let m4 = registered("mv_type_country", vec!["type", "country"]);
    proof {
        assert(seq!["type", "country"].map_values(|k: &str| k@) =~= registry_keys()[4]);
    }
    registry.push(m4);
    let m5 = registered("mv_type_week", vec!["type", "week"]);
    proof {
        assert(seq!["type", "week"].map_values(|k: &str| k@) =~= registry_keys()[5]);
    }
    registry.push(m5);
    let m6 = registered("mv_type_day_country", vec!["type", "day", "country"]);
    proof {
        assert(seq!["type", "day", "country"].map_values(|k: &str| k@) =~= registry_keys()[6]);
    }
    registry.push(m6);
    let mut k7: Vec<&str> = Vec::new();
    k7.push("type");
    let m7 = registered("mv_type_only", k7);
    proof {
        assert(seq!["type"].map_values(|k: &str| k@) =~= registry_keys()[7]);
    }
    registry.push(m7);
    let m8 = registered("mv_type_day_publisher_id", vec!["type", "day", "publisher_id"]);
    proof {
        assert(seq!["type", "day", "publisher_id"].map_values(|k: &str| k@) =~= registry_keys()[8]);
    }
    registry.push(m8);
    let m9 = registered("mv_type_day_minute", vec!["type", "day", "minute"]);
    proof {
        assert(seq!["type", "day", "minute"].map_values(|k: &str| k@) =~= registry_keys()[9]);
    }
    registry.push(m9);
    let m10 = registered("mv_type_week_day", vec!["type", "week", "day"]);
    proof {
        assert(seq!["type", "week", "day"].map_values(|k: &str| k@) =~= registry_keys()[10]);
    }
    registry.push(m10);
    let m11 = registered("mv_type_day_country_publisher_id", vec!["type", "day", "country", "publisher_id"]);
    proof {
        assert(seq!["type", "day", "country", "publisher_id"].map_values(|k: &str| k@) =~= registry_keys()[11]);
    }
    registry.push(m11);
    assert forall|i: int| 0 <= i < registry@.len() implies is_registered_mv(#[trigger] registry@[i], registry_names()[i], registry_keys()[i]) by {
        if i == 0 { assert(registry@[i] == m0); }
        if i == 1 { assert(registry@[i] == m1); }
        if i == 2 { assert(registry@[i] == m2); }
        if i == 3 { assert(registry@[i] == m3); }
        if i == 4 { assert(registry@[i] == m4); }
        if i == 5 { assert(registry@[i] == m5); }
        if i == 6 { assert(registry@[i] == m6); }
        if i == 7 { assert(registry@[i] == m7); }
        if i == 8 { assert(registry@[i] == m8); }
        if i == 9 { assert(registry@[i] == m9); }
        if i == 10 { assert(registry@[i] == m10); }
        if i == 11 { assert(registry@[i] == m11); }
    }
    registry
}

/// Base MVs with fewer rows than this are not partitioned by `type`.
pub const PARTITION_MIN_ROWS: u64 = 100_000;

/// The event types a partitioned sibling is built for, in build order.
pub open spec fn partition_values() -> Seq<Seq<char>> {
    seq!["impression"@, "click"@, "serve"@, "purchase"@]
}

/// `g` without the entries equal to `x`.
pub open spec fn drop_key(g: Seq<Seq<char>>, x: Seq<char>) -> Seq<Seq<char>>
    decreases g.len(),
{
    if g.len() == 0 {
        g
    } else if g.last() == x {
        drop_key(g.drop_last(), x)
    } else {
        drop_key(g.drop_last(), x).push(g.last())
    }
}

/// Whether `m` gets type-partitioned siblings: it groups by `type` and is not
/// known to be small.
pub open spec fn partition_eligible(m: MaterializedView) -> bool {
    keys(m.group_by@).contains("type"@) && !(m.num_rows matches Some(n) && n < PARTITION_MIN_ROWS)
}

/// Whether `s` is the sibling of `p` holding the rows whose type is `t`:
/// named `<parent>_type_<t>`, grouped by the parent's keys but `type`, storing
/// the parent's aggregates, with no statistics yet.
pub open spec fn is_sibling(s: MaterializedView, p: MaterializedView, t: Seq<char>) -> bool {
    &&& s.name@ == p.name@ + "_type_"@ + t
    &&& keys(s.group_by@) == drop_key(keys(p.group_by@), "type"@)
    &&& agg_views(s.aggs@) == agg_views(p.aggs@)
    &&& opt_view(s.partition) == Some(t)
    &&& no_stats(s)
}

/// For each sibling to build, in order: the index of its parent in `base`, and its type.
pub open spec fn sibling_plan(base: Seq<MaterializedView>) -> Seq<(int, Seq<char>)>
    decreases base.len(),
{
    if base.len() == 0 {
        Seq::empty()
    } else {
        let i = base.len() - 1;
        sibling_plan(base.drop_last()) + if partition_eligible(base.last()) {
            partition_values().map_values(|t: Seq<char>| (i, t))
        } else {
            Seq::empty()
        }
    }
}

proof fn lemma_empty_stats_unique(m: MaterializedView)
    requires
        no_stats(m),
    ensures
        stats_keys_unique(m),
{
    assert(m.num_distinct@.map_values(|e: (String, u64)| e.0@) =~= Seq::<Seq<char>>::empty());
    assert(m.col_to_topk@.map_values(|e: (String, Vec<(String, u64)>)| e.0@) =~= Seq::<Seq<char>>::empty());
}

/// A copy of a list of aggregates.
fn copy_aggs(aggs: &Vec<Agg>) -> (r: Vec<Agg>)
    ensures
        agg_views(r@) == agg_views(aggs@),
{
    let mut r: Vec<Agg> = Vec::new();
    let mut i: usize = 0;
    while i < aggs.len()
        invariant
            i <= aggs.len(),
            r@.len() == i,
            forall|k: int| 0 <= k < i ==> (#[trigger] r@[k])@ == aggs@[k]@,
        decreases aggs.len() - i,
    {
        r.push(aggs[i].copy());
        i = i + 1;
    }
    assert(agg_views(r@) =~= agg_views(aggs@));
    r
}

/// The keys of `g` but `type`, in order.
fn keys_without_type(g: &Vec<String>) -> (r: Vec<String>)
    ensures
        keys(r@) == drop_key(keys(g@), "type"@),
{
    let mut r: Vec<String> = Vec::new();
    let mut i: usize = 0;
    while i < g.len()
        invariant
            i <= g.len(),
            keys(r@) == drop_key(keys(g@.take(i as int)), "type"@),
        decreases g.len() - i,
    {
        let ghost before = r@;
        assert(keys(g@.take(i as int + 1)).drop_last() =~= keys(g@.take(i as int)));
        if !crate::text::str_is(&g[i], "type") {
            r.push(g[i].clone());
            assert(keys(r@) =~= keys(before).push(g@[i as int]@));
        }
        i = i + 1;
    }
    assert(g@.take(g.len() as int) =~= g@);
    r
}

fn sibling(m: &MaterializedView, t: &str) -> (r: MaterializedView)
    ensures
        is_sibling(r, *m, t@),
{
    let mut name = m.name.clone();
    name.append("_type_");
    name.append(t);
    MaterializedView {
        name,
        group_by: keys_without_type(&m.group_by),
        aggs: copy_aggs(&m.aggs),
        partition: Some(String::from_str(t)),
        num_rows: None,
        num_distinct: Vec::new(),
        col_to_topk: Vec::new(),
    }
}

/// The type-partitioned siblings of the eligible MVs of `base`: for each MV
/// that groups by `type` and is not known to hold under `PARTITION_MIN_ROWS`
/// rows, one sibling per event type, in order.
pub fn create_type_partitioned_mvs(base: &Vec<MaterializedView>) -> (r: Vec<MaterializedView>)
    ensures
        r@.len() == sibling_plan(base@).len(),
        forall|k: int| 0 <= k < r@.len() ==> is_sibling(#[trigger] r@[k], base@[sibling_plan(base@)[k].0], sibling_plan(base@)[k].1),
        forall|k: int| 0 <= k < r@.len() && aggs_unique(base@[sibling_plan(base@)[k].0]) ==> descriptor_ok(#[trigger] r@[k]),
{
    let mut r: Vec<MaterializedView> = Vec::new();
    let mut i: usize = 0;
    while i < base.len()
        invariant
            i <= base.len(),
            r@.len() == sibling_plan(base@.take(i as int)).len(),
            forall|k: int| 0 <= k < r@.len() ==> is_sibling(#[trigger] r@[k], base@[sibling_plan(base@.take(i as int))[k].0], sibling_plan(base@.take(i as int))[k].1),
            forall|k: int| 0 <= k < r@.len() ==> 0 <= #[trigger] sibling_plan(base@.take(i as int))[k].0 < i,
        decreases base.len() - i,
    {
        let ghost prev = sibling_plan(base@.take(i as int));
        assert(base@.take(i as int + 1).drop_last() =~= base@.take(i as int));
        let m = &base[i];
        let type_key = String::from_str("type");
        proof { lemma_keys_has(m.group_by@, "type"@); }
        let small = match m.num_rows {
            Some(n) => n < PARTITION_MIN_ROWS,
            None => false,
        };
        if vec_has(&m.group_by, &type_key) && !small {
            let ghost before = r@;
            r.push(sibling(m, "impression"));
            r.push(sibling(m, "click"));
            r.push(sibling(m, "serve"));
            r.push(sibling(m, "purchase"));
            let ghost step = partition_values().map_values(|t: Seq<char>| (i as int, t));
            assert(sibling_plan(base@.take(i as int + 1)) =~= prev + step);
            assert forall|k: int| 0 <= k < r@.len() implies is_sibling(#[trigger] r@[k], base@[sibling_plan(base@.take(i as int + 1))[k].0], sibling_plan(base@.take(i as int + 1))[k].1)
                && 0 <= sibling_plan(base@.take(i as int + 1))[k].0 < i + 1 by {
                if k < before.len() {
                    assert(r@[k] == before[k]);
                    assert(sibling_plan(base@.take(i as int + 1))[k] == prev[k]);
                }
            }
        } else {
            assert(sibling_plan(base@.take(i as int + 1)) =~= prev);
        }
        i = i + 1;
    }
    assert(base@.take(base.len() as int) =~= base@);
    assert forall|k: int| 0 <= k < r@.len() && aggs_unique(base@[sibling_plan(base@)[k].0]) implies descriptor_ok(#[trigger] r@[k]) by {
        lemma_empty_stats_unique(r@[k]);
    }
    r
}

/// The statement that creates the index on `cols` of the MV called `name`.
pub open spec fn index_sql(name: Seq<char>, cols: Seq<Seq<char>>) -> Seq<char> {
    "CREATE INDEX IF NOT EXISTS idx_"@ + name + "_"@ + join(cols, "_"@) + " ON "@ + name + "("@ + join(cols, ", "@) + ");"@
}

/// The indexes built on an MV, one per column pattern it holds, in order:
/// (type, day), day, type, country, (type, country), advertiser_id,
/// publisher_id, minute, week.
pub open spec fn index_plan(m: MaterializedView) -> Seq<Seq<char>> {
    Seq::empty()
        + (if keys(m.group_by@).contains("type"@) && keys(m.group_by@).contains("day"@) { seq![index_sql(m.name@, seq!["type"@, "day"@])] } else { Seq::empty() })
        + (if keys(m.group_by@).contains("day"@) { seq![index_sql(m.name@, seq!["day"@])] } else { Seq::empty() })
        + (if keys(m.group_by@).contains("type"@) { seq![index_sql(m.name@, seq!["type"@])] } else { Seq::empty() })
        + (if keys(m.group_by@).contains("country"@) { seq![index_sql(m.name@, seq!["country"@])] } else { Seq::empty() })
        + (if keys(m.group_by@).contains("type"@) && keys(m.group_by@).contains("country"@) { seq![index_sql(m.name@, seq!["type"@, "country"@])] } else { Seq::empty() })
        + (if keys(m.group_by@).contains("advertiser_id"@) { seq![index_sql(m.name@, seq!["advertiser_id"@])] } else { Seq::empty() })
        + (if keys(m.group_by@).contains("publisher_id"@) { seq![index_sql(m.name@, seq!["publisher_id"@])] } else { Seq::empty() })
        + (if keys(m.group_by@).contains("minute"@) { seq![index_sql(m.name@, seq!["minute"@])] } else { Seq::empty() })
        + (if keys(m.group_by@).contains("week"@) { seq![index_sql(m.name@, seq!["week"@])] } else { Seq::empty() })
}

/// Appends the index statement on `cols` where `m` holds all of them.
fn push_index(out: &mut Vec<String>, m: &MaterializedView, cols: Vec<&str>)
    requires
        cols@.len() > 0,
    ensures
        keys(final(out)@) == keys(old(out)@) + if (forall|i: int| 0 <= i < cols@.len() ==> keys(m.group_by@).contains(#[trigger] cols@[i]@)) {
            seq![index_sql(m.name@, cols@.map_values(|k: &str| k@))]
        } else {
            Seq::empty()
        },
{
    let ghost cs = cols@.map_values(|k: &str| k@);
    let mut names: Vec<String> = Vec::new();
    let mut all = true;
    let mut i: usize = 0;
    while i < cols.len()
        invariant
            i <= cols.len(),
            cs == cols@.map_values(|k: &str| k@),
            names@.len() == i,
            forall|k: int| 0 <= k < i ==> (#[trigger] names@[k])@ == cols@[k]@,
            all == forall|k: int| 0 <= k < i ==> keys(m.group_by@).contains(#[trigger] cols@[k]@),
        decreases cols.len() - i,
    {
        let c = String::from_str(cols[i]);
        proof { lemma_keys_has(m.group_by@, c@); }
        if !vec_has(&m.group_by, &c) {
            all = false;
        }
        names.push(c);
        i = i + 1;
    }
    assert(keys(names@) =~= cs);
    if all {
        let mut sql = String::from_str("CREATE INDEX IF NOT EXISTS idx_");
        sql.append(m.name.as_str());
        sql.append("_");
        push_joined(&mut sql, &names, "_");
        sql.append(" ON ");
        sql.append(m.name.as_str());
        sql.append("(");
        push_joined(&mut sql, &names, ", ");
        sql.append(");");
        let ghost before = out@;
        out.push(sql);
        assert(keys(out@) =~= keys(before) + seq![index_sql(m.name@, cs)]);
    } else {
        assert(keys(out@) =~= keys(old(out)@) + Seq::<Seq<char>>::empty());
    }
}

/// The statements that index `m` for the common filters of the workload.
pub fn index_statements(m: &MaterializedView) -> (r: Vec<String>)
    ensures
        keys(r@) == index_plan(*m),
{
    let mut out: Vec<String> = Vec::new();
    push_index(&mut out, m, vec!["type", "day"]);
    proof { assert(seq!["type", "day"].map_values(|k: &str| k@) =~= seq!["type"@, "day"@]); }
    let mut c1: Vec<&str> = Vec::new();
    c1.push("day");
    push_index(&mut out, m, c1);
    proof { assert(seq!["day"].map_values(|k: &str| k@) =~= seq!["day"@]); }
    let mut c2: Vec<&str> = Vec::new();
    c2.push("type");
    push_index(&mut out, m, c2);
    proof { assert(seq!["type"].map_values(|k: &str| k@) =~= seq!["type"@]); }
    let mut c3: Vec<&str> = Vec::new();
    c3.push("country");
    push_index(&mut out, m, c3);
    proof { assert(seq!["country"].map_values(|k: &str| k@) =~= seq!["country"@]); }
    push_index(&mut out, m, vec!["type", "country"]);
    proof { assert(seq!["type", "country"].map_values(|k: &str| k@) =~= seq!["type"@, "country"@]); }
    let mut c5: Vec<&str> = Vec::new();
    c5.push("advertiser_id");
    push_index(&mut out, m, c5);
    proof { assert(seq!["advertiser_id"].map_values(|k: &str| k@) =~= seq!["advertiser_id"@]); }
    let mut c6: Vec<&str> = Vec::new();
    c6.push("publisher_id");
    push_index(&mut out, m, c6);
    proof { assert(seq!["publisher_id"].map_values(|k: &str| k@) =~= seq!["publisher_id"@]); }
    let mut c7: Vec<&str> = Vec::new();
    c7.push("minute");
    push_index(&mut out, m, c7);
    proof { assert(seq!["minute"].map_values(|k: &str| k@) =~= seq!["minute"@]); }
    let mut c8: Vec<&str> = Vec::new();
    c8.push("week");
    push_index(&mut out, m, c8);
    proof { assert(seq!["week"].map_values(|k: &str| k@) =~= seq!["week"@]); }
    proof {
        assert(keys(out@) =~= index_plan(*m));
    }
    out
}

/// Whether `s` begins with `t`.
pub open spec fn starts_with(s: Seq<char>, t: Seq<char>) -> bool {
    t.len() <= s.len() && s.take(t.len() as int) == t
}

/// Whether `s` ends with `t`, with something before it.
pub open spec fn ends_after(s: Seq<char>, t: Seq<char>) -> bool {
    t.len() < s.len() && s.subrange(s.len() - t.len(), s.len() as int) == t
}

fn has_prefix(s: &String, t: &str) -> (r: bool)
    ensures
        r == starts_with(s@, t@),
{
    let n = s.as_str().unicode_len();
    let k = t.unicode_len();
    if k > n {
        return false;
    }
    let head = String::from_str(s.as_str().substring_char(0, k));
    let want = String::from_str(t);
    head == want
}

fn has_suffix_after(s: &String, t: &str) -> (r: bool)
    ensures
        r == ends_after(s@, t@),
{
    let n = s.as_str().unicode_len();
    let k = t.unicode_len();
    if k >= n {
        return false;
    }
    let tail = String::from_str(s.as_str().substring_char(n - k, n));
    let want = String::from_str(t);
    tail == want
}

/// The event type of a table named `<parent>_type_<type>`, for one of the
/// partition types.
pub open spec fn partition_of_name(name: Seq<char>) -> Option<Seq<char>> {
    if ends_after(name, "_type_impression"@) {
        Some("impression"@)
    } else if ends_after(name, "_type_click"@) {
        Some("click"@)
    } else if ends_after(name, "_type_serve"@) {
        Some("serve"@)
    } else if ends_after(name, "_type_purchase"@) {
        Some("purchase"@)
    } else {
        None
    }
}

/// The aggregate a metric column stores, by its name: `<op>_<col>` for SUM,
/// COUNT, MIN and MAX, where `rows` stands for `*`.
pub open spec fn metric_of(c: Seq<char>) -> Option<(AggOp, Option<Seq<char>>)> {
    let (op, k): (AggOp, int) = if starts_with(c, "sum_"@) {
        (AggOp::Sum, 4)
    } else if starts_with(c, "count_"@) {
        (AggOp::Count, 6)
    } else if starts_with(c, "min_"@) {
        (AggOp::Min, 4)
    } else if starts_with(c, "max_"@) {
        (AggOp::Max, 4)
    } else {
        (AggOp::Avg, -1)
    };
    if k < 0 {
        None
    } else {
        let rest = c.skip(k);
        Some((op, if rest == "rows"@ { None } else { Some(rest) }))
    }
}

/// The aggregates stored by the metric columns among `cols`, each once, in
/// order of first occurrence.
pub open spec fn metric_aggs(cols: Seq<String>) -> Seq<(AggOp, Option<Seq<char>>)>
    decreases cols.len(),
{
    if cols.len() == 0 {
        Seq::empty()
    } else {
        let prev = metric_aggs(cols.drop_last());
        match metric_of(cols.last()@) {
            Some(a) => if prev.contains(a) { prev } else { prev.push(a) },
            None => prev,
        }
    }
}

/// The grouping keys among `cols`: every column that is not a metric, but
/// `type` in a type-partitioned table, where it is constant.
pub open spec fn key_columns(cols: Seq<String>, partitioned: bool) -> Seq<Seq<char>>
    decreases cols.len(),
{
    if cols.len() == 0 {
        Seq::empty()
    } else {
        let c = cols.last()@;
        if metric_of(c) is Some || (partitioned && c == "type"@) {
            key_columns(cols.drop_last(), partitioned)
        } else {
            key_columns(cols.drop_last(), partitioned).push(c)
        }
    }
}

fn metric_of_column(c: &String) -> (r: Option<Agg>)
    ensures
        match r {
            Some(a) => metric_of(c@) == Some(a@),
            None => metric_of(c@) is None,
        },
{
    let (op, k): (AggOp, usize) = if has_prefix(c, "sum_") {
        (AggOp::Sum, 4)
    } else if has_prefix(c, "count_") {
        (AggOp::Count, 6)
    } else if has_prefix(c, "min_") {
        (AggOp::Min, 4)
    } else if has_prefix(c, "max_") {
        (AggOp::Max, 4)
    } else {
        return None;
    };
    proof {
        reveal_strlit("sum_");
        reveal_strlit("count_");
        reveal_strlit("min_");
        reveal_strlit("max_");
    }
    let n = c.as_str().unicode_len();
    let rest = String::from_str(c.as_str().substring_char(k, n));
    assert(rest@ =~= c@.skip(k as int));
    if str_is(&rest, "rows") {
        Some(Agg::new(op, None))
    } else {
        Some(Agg::new(op, Some(rest)))
    }
}

/// The descriptor of an MV table found in a database, from its name and its
/// columns in order: metric columns give the stored aggregates, the others the
/// grouping keys; a name ending in `_type_<type>` marks a type-partitioned MV.
pub fn mv_from_columns(name: String, columns: &Vec<String>) -> (r: MaterializedView)
    ensures
        r.name == name,
        opt_view(r.partition) == partition_of_name(name@),
        keys(r.group_by@) == key_columns(columns@, partition_of_name(name@) is Some),
        agg_views(r.aggs@) == metric_aggs(columns@),
        no_stats(r),
        descriptor_ok(r),
{
    let partition: Option<String> = if has_suffix_after(&name, "_type_impression") {
        Some(String::from_str("impression"))
    } else if has_suffix_after(&name, "_type_click") {
        Some(String::from_str("click"))
    } else if has_suffix_after(&name, "_type_serve") {
        Some(String::from_str("serve"))
    } else if has_suffix_after(&name, "_type_purchase") {
        Some(String::from_str("purchase"))
    } else {
        None
    };
    let partitioned = partition.is_some();
    let mut group_by: Vec<String> = Vec::new();
    let mut aggs: Vec<Agg> = Vec::new();
    let mut i: usize = 0;
    while i < columns.len()
        invariant
            i <= columns.len(),
            partitioned == (partition_of_name(name@) is Some),
            keys(group_by@) == key_columns(columns@.take(i as int), partitioned),
            agg_views(aggs@) == metric_aggs(columns@.take(i as int)),
            distinct_seq(agg_views(aggs@)),
        decreases columns.len() - i,
    {
        assert(columns@.take(i as int + 1).drop_last() =~= columns@.take(i as int));
        let c = &columns[i];
        let ghost gb = group_by@;
        let ghost ab = aggs@;
        match metric_of_column(c) {
            Some(a) => {
                if !aggs_contain(&aggs, &a) {
                    aggs.push(a);
                    assert(agg_views(aggs@) =~= agg_views(ab).push(a@));
                }
            },
            None => {
                if !(partitioned && str_is(c, "type")) {
                    group_by.push(c.clone());
                    assert(keys(group_by@) =~= keys(gb).push(c@));
                }
            },
        }
        i = i + 1;
    }
    assert(columns@.take(columns.len() as int) =~= columns@);
    let r = MaterializedView {
        name,
        group_by,
        aggs,
        partition,
        num_rows: None,
        num_distinct: Vec::new(),
        col_to_topk: Vec::new(),
    };
    proof { lemma_empty_stats_unique(r); }
    r
}

} // verus!
