//! The statistics collector's side that needs no engine: the queries it runs
//! on an MV, and attaching their answers to the MV.
use vstd::prelude::*;
use crate::mv::{MaterializedView, distinct_seq, stats_keys_unique, descriptor_ok};
use crate::planner::{lookup_count, lookup_topk};
use crate::text::{keys, join, push_joined, push_decimal, decimal};

verus! {

/// How many of the most frequent values of each key the collector keeps.
pub const TOP_K: u64 = 10;

/// The query that counts the rows of `m` and the distinct values of each key.
pub open spec fn counts_sql(m: MaterializedView) -> Seq<char> {
    "SELECT "@ + join(
        seq!["COUNT(*)"@] + keys(m.group_by@).map_values(|k: Seq<char>| "COUNT(DISTINCT "@ + k + ")"@),
        ", "@,
    ) + " FROM "@ + m.name@
}

/// The query for the `TOP_K` most frequent values of key `col` in `m`, as text, with their counts.
pub open spec fn topk_sql(m: MaterializedView, col: Seq<char>) -> Seq<char> {
    "SELECT CAST("@ + col + " AS VARCHAR) as "@ + col + ", COUNT(*) as cnt FROM "@ + m.name@ + " GROUP BY "@ + col
        + " ORDER BY cnt DESC LIMIT "@ + decimal(TOP_K as nat)
}

/// The query whose one row holds the row count of `mv` and the distinct count
/// of each of its keys, in key order.
pub fn counts_query(mv: &MaterializedView) -> (r: String)
    ensures
        r@ == counts_sql(*mv),
{
    let ghost ks = keys(mv.group_by@);
    let mut parts: Vec<String> = Vec::new();
    parts.push(String::from_str("COUNT(*)"));
    let mut i: usize = 0;
    while i < mv.group_by.len()
        invariant
            i <= mv.group_by.len(),
            ks == keys(mv.group_by@),
            parts@.len() == i + 1,
            parts@[0]@ == "COUNT(*)"@,
            forall|k: int| 0 <= k < i ==> (#[trigger] parts@[k + 1])@ == "COUNT(DISTINCT "@ + ks[k] + ")"@,
        decreases mv.group_by.len() - i,
    {
        let mut c = String::from_str("COUNT(DISTINCT ");
        c.append(mv.group_by[i].as_str());
        c.append(")");
        parts.push(c);
        i = i + 1;
    }
    let ghost want = seq!["COUNT(*)"@] + ks.map_values(|k: Seq<char>| "COUNT(DISTINCT "@ + k + ")"@);
    assert forall|k: int| 0 <= k < parts@.len() implies #[trigger] keys(parts@)[k] == want[k] by {
        if k > 0 {
            assert(parts@[(k - 1) + 1]@ == "COUNT(DISTINCT "@ + ks[k - 1] + ")"@);
        }
    }
    assert(keys(parts@) =~= want);
    let mut out = String::from_str("SELECT ");
    push_joined(&mut out, &parts, ", ");
    out.append(" FROM ");
    out.append(mv.name.as_str());
    out
}

/// The query for the most frequent values of key `col` of `mv`.
pub fn topk_query(mv: &MaterializedView, col: &String) -> (r: String)
    ensures
        r@ == topk_sql(*mv, col@),
{
    let mut out = String::from_str("SELECT CAST(");
    out.append(col.as_str());
    out.append(" AS VARCHAR) as ");
    out.append(col.as_str());
    out.append(", COUNT(*) as cnt FROM ");
    out.append(mv.name.as_str());
    out.append(" GROUP BY ");
    out.append(col.as_str());
    out.append(" ORDER BY cnt DESC LIMIT ");
    push_decimal(&mut out, TOP_K);
    out
}

/// Whether `m` carries statistics for every one of its keys.
pub open spec fn stats_complete(m: MaterializedView) -> bool {
    &&& m.num_rows is Some
    &&& forall|i: int| 0 <= i < m.group_by@.len() ==> lookup_count(m.num_distinct@, (#[trigger] m.group_by@[i])@) is Some
    &&& forall|i: int| 0 <= i < m.group_by@.len() ==> lookup_topk(m.col_to_topk@, (#[trigger] m.group_by@[i])@) is Some
}

proof fn lemma_lookup_hit(s: Seq<(String, u64)>, t: Seq<(String, Vec<(String, u64)>)>, g: Seq<String>, i: int)
    requires
        s.len() == g.len(),
        t.len() == g.len(),
        0 <= i < g.len(),
        forall|k: int| 0 <= k < g.len() ==> (#[trigger] s[k]).0@ == g[k]@,
        forall|k: int| 0 <= k < g.len() ==> (#[trigger] t[k]).0@ == g[k]@,
    ensures
        lookup_count(s, g[i]@) is Some,
        lookup_topk(t, g[i]@) is Some,
    decreases i,
{
    if s[0].0@ != g[i]@ {
        assert(i > 0);
        lemma_lookup_hit(s.drop_first(), t.drop_first(), g.drop_first(), i - 1);
    }
}

impl MaterializedView {
    /// Attaches collected statistics: the row count, and for each key, in key
    /// order, its distinct count and its top-K values with their counts.
    pub fn attach_stats(&mut self, num_rows: u64, distinct: Vec<u64>, top_k: Vec<Vec<(String, u64)>>)
        requires
            distinct@.len() == old(self).group_by@.len(),
            top_k@.len() == old(self).group_by@.len(),
        ensures
            final(self).name == old(self).name,
            final(self).group_by == old(self).group_by,
            final(self).aggs == old(self).aggs,
            final(self).partition == old(self).partition,
            final(self).num_rows == Some(num_rows),
            final(self).num_distinct@.len() == distinct@.len(),
            final(self).col_to_topk@.len() == top_k@.len(),
            forall|i: int| 0 <= i < distinct@.len() ==> (#[trigger] final(self).num_distinct@[i]).0@ == old(self).group_by@[i]@
                && final(self).num_distinct@[i].1 == distinct@[i],
            forall|i: int| 0 <= i < top_k@.len() ==> (#[trigger] final(self).col_to_topk@[i]).0@ == old(self).group_by@[i]@
                && final(self).col_to_topk@[i].1 == top_k@[i],
            stats_complete(*final(self)),
            distinct_seq(keys(old(self).group_by@)) ==> stats_keys_unique(*final(self)),
            descriptor_ok(*old(self)) && distinct_seq(keys(old(self).group_by@)) ==> descriptor_ok(*final(self)),
    {
        let n = self.group_by.len();
        let mut nd: Vec<(String, u64)> = Vec::new();
        let mut tk: Vec<(String, Vec<(String, u64)>)> = Vec::new();
        let ghost orig = top_k@;
        let mut rest = top_k;
        let mut i: usize = 0;
        while i < n
            invariant
                n == self.group_by@.len(),
                i <= n,
                distinct@.len() == n,
                orig.len() == n,
                rest@ == orig.skip(i as int),
                nd@.len() == i,
                tk@.len() == i,
                forall|k: int| 0 <= k < i ==> (#[trigger] nd@[k]).0@ == self.group_by@[k]@ && nd@[k].1 == distinct@[k],
                forall|k: int| 0 <= k < i ==> (#[trigger] tk@[k]).0@ == self.group_by@[k]@ && tk@[k].1 == orig[k],
            decreases n - i,
        {
            nd.push((self.group_by[i].clone(), distinct[i]));
            assert(rest@[0] == orig[i as int]);
            let t = rest.remove(0);
            assert(rest@ =~= orig.skip(i as int + 1));
            tk.push((self.group_by[i].clone(), t));
            i = i + 1;
        }
        self.num_rows = Some(num_rows);
        self.num_distinct = nd;
        self.col_to_topk = tk;
        proof {
            assert forall|i: int| 0 <= i < self.group_by@.len() implies
                lookup_count(self.num_distinct@, (#[trigger] self.group_by@[i])@) is Some
                && lookup_topk(self.col_to_topk@, self.group_by@[i]@) is Some by {
                lemma_lookup_hit(self.num_distinct@, self.col_to_topk@, self.group_by@, i);
            }
            assert(self.num_distinct@.map_values(|e: (String, u64)| e.0@) =~= keys(self.group_by@));
            assert(self.col_to_topk@.map_values(|e: (String, Vec<(String, u64)>)| e.0@) =~= keys(self.group_by@));
        }
    }
}

} // verus!
