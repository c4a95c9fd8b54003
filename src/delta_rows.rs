//! Rows driven by the deltas of the aggregate stores: one column update per
//! tracked metric delta, a refresh and three snapshots per touched pool, and
//! the creation of a user's row on its first interaction.
use vstd::prelude::*;
use vstd::string::*;
use crate::keys::{key2, key3, segment_at, segments};
use crate::metrics::{
    flat_ops, interactions_metric, is_tracked_metric, lemma_flat_step,
    lemma_flat_trace, pool_collateral_kind, pool_metric_kind, tracked_metric, user_metric_kind,
};
use crate::contract::Events;
use crate::project::{
    event_rows, event_rows_out, factory_rows, graph_factory_out, address_bytes, address_bytes_of, liquidation_difference, liquidation_difference_of, min_rate,
    min_rate_of, row_view, rows_view, Column, Operation, PoolEnrichment, RowOp, RowView, Value,
    ValueView,
};
use crate::store::{str_equal, value_or_zero, AddStore, Delta, SetStore};
use crate::text::{int_text, text_int, u64_text};

verus! {

broadcast use vstd::string::to_string_from_display_ensures_for_str;

/// A row update setting one column.
pub open spec fn update_row(entity: Seq<char>, id: Seq<char>, name: Seq<char>, value: ValueView) -> RowView {
    RowView { operation: Operation::Update, entity, id, columns: seq![(name, value)] }
}

fn update_row_of(entity: &str, id: &str, name: &str, value: Value) -> (r: RowOp)
    ensures
        row_view(r) == update_row(entity@, id@, name@, crate::project::value_view(value)),
{
    let mut columns: Vec<Column> = Vec::new();
    columns.push(Column { name: name.to_string(), value });
    let r = RowOp { operation: Operation::Update, entity: entity.to_string(), id: id.to_string(), columns };
    proof {
        assert(row_view(r).columns =~= seq![(name@, crate::project::value_view(value))]);
    }
    r
}

/// The pool a pool-metric delta is about, if its key is one.
pub open spec fn pool_of_delta(d: Delta) -> Option<Seq<char>> {
    let segs = segments(d.key@);
    if segs.len() >= 3 && segs[0] == pool_metric_kind() {
        Some(segs[1])
    } else {
        None
    }
}

/// The column update a pool-metric delta makes: the new value of a tracked
/// metric, on the pool's row. Other deltas make none.
pub open spec fn pool_update_rows() -> spec_fn(Delta) -> Seq<RowView> {
    |d: Delta| {
        let segs = segments(d.key@);
        if segs.len() >= 3 && segs[0] == pool_metric_kind() && is_tracked_metric(segs[2]) {
            seq![update_row("group_pool_metric"@, segs[1], segs[2], ValueView::BigInt(d.new_value@))]
        } else {
            Seq::empty()
        }
    }
}

/// Appends the column update of each pool-metric delta, in log order.
pub fn pool_metric_update_rows_out(deltas: &Vec<Delta>, tables: &mut Vec<RowOp>)
    ensures
        rows_view(final(tables)@) == rows_view(old(tables)@) + flat_ops(deltas@, pool_update_rows()),
{
    let ghost before = rows_view(tables@);
    proof {
        assert(deltas@.take(0) =~= Seq::<Delta>::empty());
        assert(before + flat_ops(deltas@.take(0), pool_update_rows()) =~= before);
        reveal_strlit("group_pool_metric");
    }
    let mut i: usize = 0;
    while i < deltas.len()
        invariant
            i <= deltas@.len(),
            rows_view(tables@) == before + flat_ops(deltas@.take(i as int), pool_update_rows()),
        decreases deltas@.len() - i,
    {
        let d = &deltas[i];
        let ghost prev = tables@;
        proof {
            lemma_flat_step(deltas@, i as int, pool_update_rows());
        }
        let kind = segment_at(d.key.as_str(), 0);
        let pool = segment_at(d.key.as_str(), 1);
        let metric = segment_at(d.key.as_str(), 2);
        let mut emitted = false;
        if let (Some(kind), Some(pool), Some(metric)) = (kind, pool, metric) {
            if str_equal(kind.as_str(), "group_pool_metric") && tracked_metric(metric.as_str()) {
                let r = update_row_of("group_pool_metric", pool.as_str(), metric.as_str(), Value::BigInt(d.new_value.clone()));
                tables.push(r);
                emitted = true;
                proof {
                    assert(rows_view(tables@) =~= rows_view(prev) + seq![row_view(r)]);
                    assert(seq![row_view(r)] =~= pool_update_rows()(*d));
                }
            }
        }
        if !emitted {
            proof {
                assert(pool_update_rows()(*d) =~= Seq::<RowView>::empty());
                assert(rows_view(tables@) =~= rows_view(tables@) + Seq::<RowView>::empty());
            }
        }
        i = i + 1;
    }
    proof {
        assert(deltas@.take(deltas@.len() as int) =~= deltas@);
    }
}

/// Delta completeness: every column update of the pool-metric rows comes
/// from exactly one delta of the log, at increasing positions, and sets that
/// delta's metric to that delta's new value; every delta of a tracked pool
/// metric gives its update.
pub proof fn lemma_pool_updates_trace(deltas: Seq<Delta>)
    ensures
        exists|src: Seq<int>|
            {
                &&& #[trigger] src.len() == flat_ops(deltas, pool_update_rows()).len()
                &&& forall|k: int| 0 <= k < src.len() ==> 0 <= #[trigger] src[k] < deltas.len()
                &&& forall|k: int| 0 <= k < src.len() ==> pool_update_rows()(deltas[#[trigger] src[k]]) == seq![flat_ops(deltas, pool_update_rows())[k]]
                &&& forall|k1: int, k2: int| 0 <= k1 < k2 < src.len() ==> src[k1] < src[k2]
                &&& forall|j: int| 0 <= j < deltas.len() && (#[trigger] pool_update_rows()(deltas[j])).len() == 1
                    ==> exists|k: int| 0 <= k < src.len() && src[k] == j
            },
{
    assert forall|j: int| 0 <= j < deltas.len() implies (#[trigger] pool_update_rows()(deltas[j])).len() <= 1 by {}
    lemma_flat_trace(deltas, pool_update_rows());
}

/// A list with one more element where it is not in the list yet.
pub open spec fn add_unique(s: Seq<Seq<char>>, x: Seq<char>) -> Seq<Seq<char>> {
    if s.contains(x) {
        s
    } else {
        s.push(x)
    }
}

/// The pools that pool-metric deltas touch, each once, in order of first
/// appearance.
pub open spec fn touched(deltas: Seq<Delta>) -> Seq<Seq<char>>
    decreases deltas.len(),
{
    if deltas.len() == 0 {
        Seq::empty()
    } else {
        let t = touched(deltas.drop_last());
        match pool_of_delta(deltas.last()) {
            Some(p) => add_unique(t, p),
            None => t,
        }
    }
}

/// The touched pools are distinct, and are the pools of the pool-metric
/// deltas.
pub proof fn lemma_touched(deltas: Seq<Delta>)
    ensures
        forall|a: int, b: int| 0 <= a < b < touched(deltas).len() ==> touched(deltas)[a] != touched(deltas)[b],
        forall|p: Seq<char>| touched(deltas).contains(p) <==> exists|j: int|
            0 <= j < deltas.len() && pool_of_delta(#[trigger] deltas[j]) == Some(p),
    decreases deltas.len(),
{
    if deltas.len() > 0 {
        let front = deltas.drop_last();
        lemma_touched(front);
        let t = touched(front);
        assert forall|p: Seq<char>| touched(deltas).contains(p) <==> exists|j: int|
            0 <= j < deltas.len() && pool_of_delta(#[trigger] deltas[j]) == Some(p) by {
            if touched(deltas).contains(p) {
                if t.contains(p) {
                    let j = choose|j: int| 0 <= j < front.len() && pool_of_delta(#[trigger] front[j]) == Some(p);
                    assert(deltas[j] == front[j]);
                } else {
                    assert(pool_of_delta(deltas[deltas.len() - 1]) == Some(p));
                }
            }
            if exists|j: int| 0 <= j < deltas.len() && pool_of_delta(#[trigger] deltas[j]) == Some(p) {
                let j = choose|j: int| 0 <= j < deltas.len() && pool_of_delta(#[trigger] deltas[j]) == Some(p);
                if j < front.len() {
                    assert(front[j] == deltas[j]);
                    assert(t.contains(p));
                    match pool_of_delta(deltas.last()) {
                        Some(q) => {
                            if !t.contains(q) {
                                let i = choose|i: int| 0 <= i < t.len() && t[i] == p;
                                assert(t.push(q)[i] == p);
                            }
                        },
                        None => {},
                    }
                } else {
                    if !t.contains(p) {
                        assert(t.push(p)[t.len() as int] == p);
                    }
                }
            }
        }
    }
}

fn contains_text(v: &Vec<String>, x: &str) -> (r: bool)
    ensures
        r == v@.map_values(|s: String| s@).contains(x@),
{
    let ghost vs = v@.map_values(|s: String| s@);
    let mut i: usize = 0;
    while i < v.len()
        invariant
            i <= v@.len(),
            vs == v@.map_values(|s: String| s@),
            forall|j: int| 0 <= j < i ==> vs[j] != x@,
        decreases v@.len() - i,
    {
        if str_equal(v[i].as_str(), x) {
            proof {
                assert(vs[i as int] == x@);
            }
            return true;
        }
        i = i + 1;
    }
    false
}

/// The pools touched by pool-metric deltas, each once, in order of first
/// appearance.
pub fn touched_pools(deltas: &Vec<Delta>) -> (r: Vec<String>)
    ensures
        r@.map_values(|s: String| s@) == touched(deltas@),
{
    let mut pools: Vec<String> = Vec::new();
    proof {
        assert(deltas@.take(0) =~= Seq::<Delta>::empty());
        assert(pools@.map_values(|s: String| s@) =~= Seq::<Seq<char>>::empty());
        reveal_strlit("group_pool_metric");
    }
    let mut i: usize = 0;
    while i < deltas.len()
        invariant
            i <= deltas@.len(),
            pools@.map_values(|s: String| s@) == touched(deltas@.take(i as int)),
        decreases deltas@.len() - i,
    {
        let d = &deltas[i];
        let ghost prev = pools@;
        proof {
            assert(deltas@.take(i as int + 1).drop_last() =~= deltas@.take(i as int));
            assert(deltas@.take(i as int + 1).last() == *d);
        }
        let kind = segment_at(d.key.as_str(), 0);
        let pool = segment_at(d.key.as_str(), 1);
        let third = segment_at(d.key.as_str(), 2);
        if let (Some(kind), Some(pool), Some(_)) = (kind, pool, third) {
            if str_equal(kind.as_str(), "group_pool_metric") {
                if !contains_text(&pools, pool.as_str()) {
                    pools.push(pool);
                    proof {
                        assert(pools@.map_values(|s: String| s@) =~= prev.map_values(|s: String| s@).push(pool@));
                    }
                }
            }
        }
        i = i + 1;
    }
    proof {
        assert(deltas@.take(deltas@.len() as int) =~= deltas@);
    }
    pools
}

/// The refresh of a touched pool's supplementary columns from its reads.
pub open spec fn enrichment_rows(enrichment: Seq<PoolEnrichment>) -> spec_fn(Seq<char>) -> Seq<RowView> {
    |p: Seq<char>|
        seq![
            update_row("group_pool_metric"@, p, "current_min_interest_rate"@, ValueView::BigInt(min_rate_of(enrichment, p))),
            update_row(
                "group_pool_metric"@,
                p,
                "token_difference_from_liquidations"@,
                ValueView::BigInt(liquidation_difference_of(enrichment, p)),
            ),
        ]
}

/// The refresh of a touched pool's collateral-withdrawn column, where its
/// total is known.
pub open spec fn collateral_rows(totals: Map<Seq<char>, int>) -> spec_fn(Seq<char>) -> Seq<RowView> {
    |p: Seq<char>|
        if totals.contains_key(key2(pool_collateral_kind(), p)) {
            seq![update_row(
                "group_pool_metric"@,
                p,
                "total_collateral_withdrawn"@,
                ValueView::BigInt(int_text(totals[key2(pool_collateral_kind(), p)])),
            )]
        } else {
            Seq::empty()
        }
}

/// The value text of a metric of a pool in the pool-metric accumulator,
/// zero where the key is absent.
pub open spec fn metric_text(metrics: Map<Seq<char>, int>, p: Seq<char>, metric: Seq<char>) -> Seq<char> {
    int_text(value_or_zero(metrics, key3(pool_metric_kind(), p, metric)))
}

/// The columns of a pool snapshot.
pub open spec fn snapshot_columns(
    p: Seq<char>,
    block_number: u64,
    block_time: u64,
    metrics: Map<Seq<char>, int>,
    totals: Map<Seq<char>, int>,
    enrichment: Seq<PoolEnrichment>,
) -> Seq<(Seq<char>, ValueView)> {
    seq![
        ("group_pool_address"@, ValueView::Bytes(address_bytes_of(p))),
        ("block_number"@, ValueView::BigInt(int_text(block_number as int))),
        ("block_time"@, ValueView::BigInt(int_text(block_time as int))),
        ("total_principal_tokens_committed"@, ValueView::BigInt(metric_text(metrics, p, "total_principal_tokens_committed"@))),
        ("total_collateral_tokens_escrowed"@, ValueView::BigInt(metric_text(metrics, p, "total_collateral_tokens_escrowed"@))),
        ("total_collateral_tokens_withdrawn"@, ValueView::BigInt(int_text(value_or_zero(totals, key2(pool_collateral_kind(), p))))),
        ("total_principal_tokens_withdrawn"@, ValueView::BigInt(metric_text(metrics, p, "total_principal_tokens_withdrawn"@))),
        ("total_principal_tokens_borrowed"@, ValueView::BigInt(metric_text(metrics, p, "total_principal_tokens_borrowed"@))),
        ("total_principal_tokens_repaid"@, ValueView::BigInt(metric_text(metrics, p, "total_principal_tokens_repaid"@))),
        ("total_interest_collected"@, ValueView::BigInt(metric_text(metrics, p, "total_interest_collected"@))),
        ("token_difference_from_liquidations"@, ValueView::BigInt(liquidation_difference_of(enrichment, p))),
    ]
}

/// The primary key of a snapshot: the pool, `_`, the period bucket.
pub open spec fn snapshot_id(p: Seq<char>, bucket: int) -> Seq<char> {
    p + seq!['_'] + int_text(bucket)
}

/// The daily bucket of a block time.
pub open spec fn day_bucket(block_time: u64) -> int {
    block_time as int / 86400
}

/// The weekly bucket of a block time.
pub open spec fn week_bucket(block_time: u64) -> int {
    block_time as int / 604800
}

/// The three snapshots of a touched pool: by block number, by day and by
/// week, all with the same columns.
pub open spec fn snapshot_rows(
    block_number: u64,
    block_time: u64,
    metrics: Map<Seq<char>, int>,
    totals: Map<Seq<char>, int>,
    enrichment: Seq<PoolEnrichment>,
) -> spec_fn(Seq<char>) -> Seq<RowView> {
    |p: Seq<char>|
        seq![
            RowView {
                operation: Operation::Create,
                entity: "group_pool_metric_data_point"@,
                id: snapshot_id(p, block_number as int),
                columns: snapshot_columns(p, block_number, block_time, metrics, totals, enrichment),
            },
            RowView {
                operation: Operation::Create,
                entity: "group_pool_metric_data_point_daily"@,
                id: snapshot_id(p, day_bucket(block_time)),
                columns: snapshot_columns(p, block_number, block_time, metrics, totals, enrichment),
            },
            RowView {
                operation: Operation::Create,
                entity: "group_pool_metric_data_point_weekly"@,
                id: snapshot_id(p, week_bucket(block_time)),
                columns: snapshot_columns(p, block_number, block_time, metrics, totals, enrichment),
            },
        ]
}

fn snapshot_id_text(p: &String, bucket: u64) -> (r: String)
    ensures
        r@ == snapshot_id(p@, bucket as int),
{
    let mut s = p.clone();
    s.append("_");
    let b = u64_text(bucket);
    s.append(b.as_str());
    proof {
        reveal_strlit("_");
    }
    s
}

fn metric_value(metrics: &AddStore, p: &String, metric: &str) -> (r: String)
    requires
        metrics.wf(),
    ensures
        r@ == metric_text(metrics.values(), p@, metric@),
{
    let key = crate::keys::join3("group_pool_metric", p.as_str(), metric);
    proof {
        reveal_strlit("group_pool_metric");
    }
    let v = metrics.get_or_zero(key.as_str());
    proof {
        let x = value_or_zero(metrics.values(), key@);
        crate::text::lemma_text_int(x);
        crate::text::lemma_int_text_injective(text_int(v@), x);
    }
    v
}

fn snapshot_columns_of(
    p: &String,
    block_number: u64,
    block_time: u64,
    metrics: &AddStore,
    totals: &AddStore,
    enrichment: &Vec<PoolEnrichment>,
) -> (r: Vec<Column>)
    requires
        metrics.wf(),
        totals.wf(),
    ensures
        r@.map_values(|c: Column| crate::project::column_view(c)) == snapshot_columns(
            p@,
            block_number,
            block_time,
            metrics.values(),
            totals.values(),
            enrichment@,
        ),
{
    let total_key = crate::keys::join2("total_collateral_amount_withdrawn", p.as_str());
    let withdrawn = totals.get_or_zero(total_key.as_str());
    proof {
        crate::text::lemma_text_int(value_or_zero(totals.values(), key2(pool_collateral_kind(), p@)));
        crate::text::lemma_int_text_injective(
            text_int(withdrawn@),
            value_or_zero(totals.values(), key2(pool_collateral_kind(), p@)),
        );
    }
    let mut c: Vec<Column> = Vec::new();
    c.push(Column { name: "group_pool_address".to_string(), value: Value::Bytes(address_bytes(p)) });
    c.push(Column { name: "block_number".to_string(), value: Value::BigInt(u64_text(block_number)) });
    c.push(Column { name: "block_time".to_string(), value: Value::BigInt(u64_text(block_time)) });
    c.push(Column { name: "total_principal_tokens_committed".to_string(), value: Value::BigInt(metric_value(metrics, p, "total_principal_tokens_committed")) });
    c.push(Column { name: "total_collateral_tokens_escrowed".to_string(), value: Value::BigInt(metric_value(metrics, p, "total_collateral_tokens_escrowed")) });
    c.push(Column { name: "total_collateral_tokens_withdrawn".to_string(), value: Value::BigInt(withdrawn) });
    c.push(Column { name: "total_principal_tokens_withdrawn".to_string(), value: Value::BigInt(metric_value(metrics, p, "total_principal_tokens_withdrawn")) });
    c.push(Column { name: "total_principal_tokens_borrowed".to_string(), value: Value::BigInt(metric_value(metrics, p, "total_principal_tokens_borrowed")) });
    c.push(Column { name: "total_principal_tokens_repaid".to_string(), value: Value::BigInt(metric_value(metrics, p, "total_principal_tokens_repaid")) });
    c.push(Column { name: "total_interest_collected".to_string(), value: Value::BigInt(metric_value(metrics, p, "total_interest_collected")) });
    c.push(Column { name: "token_difference_from_liquidations".to_string(), value: Value::BigInt(liquidation_difference(enrichment, p)) });
    proof {
        assert(c@.map_values(|c: Column| crate::project::column_view(c)) =~= snapshot_columns(
            p@,
            block_number,
            block_time,
            metrics.values(),
            totals.values(),
            enrichment@,
        ));
    }
    c
}

/// Appends the refresh rows of each touched pool: first the supplementary
/// reads of every pool, then the collateral totals, then the snapshots.
pub fn pool_refresh_rows_out(
    pools: &Vec<String>,
    block_number: u64,
    block_time: u64,
    metrics: &AddStore,
    totals: &AddStore,
    enrichment: &Vec<PoolEnrichment>,
    tables: &mut Vec<RowOp>,
)
    requires
        metrics.wf(),
        totals.wf(),
    ensures
        rows_view(final(tables)@) == rows_view(old(tables)@)
            + flat_ops(pools@.map_values(|s: String| s@), enrichment_rows(enrichment@))
            + flat_ops(pools@.map_values(|s: String| s@), collateral_rows(totals.values()))
            + flat_ops(
                pools@.map_values(|s: String| s@),
                snapshot_rows(block_number, block_time, metrics.values(), totals.values(), enrichment@),
            ),
{
    let ghost ps = pools@.map_values(|s: String| s@);
    let ghost start = rows_view(tables@);
    proof {
        assert(ps.take(0) =~= Seq::<Seq<char>>::empty());
        assert(start + flat_ops(ps.take(0), enrichment_rows(enrichment@)) =~= start);
        reveal_strlit("group_pool_metric");
    }
    let mut i: usize = 0;
    while i < pools.len()
        invariant
            i <= pools@.len(),
            ps == pools@.map_values(|s: String| s@),
            rows_view(tables@) == start + flat_ops(ps.take(i as int), enrichment_rows(enrichment@)),
        decreases pools@.len() - i,
    {
        let p = &pools[i];
        let ghost prev = tables@;
        proof {
            lemma_flat_step(ps, i as int, enrichment_rows(enrichment@));
            assert(ps[i as int] == p@);
        }
        let r0 = update_row_of("group_pool_metric", p.as_str(), "current_min_interest_rate", Value::BigInt(min_rate(enrichment, p)));
        let r1 = update_row_of("group_pool_metric", p.as_str(), "token_difference_from_liquidations", Value::BigInt(liquidation_difference(enrichment, p)));
        tables.push(r0);
        tables.push(r1);
        proof {
            assert(rows_view(tables@) =~= rows_view(prev) + seq![row_view(r0), row_view(r1)]);
            assert(seq![row_view(r0), row_view(r1)] =~= enrichment_rows(enrichment@)(p@));
        }
        i = i + 1;
    }
    proof {
        assert(ps.take(ps.len() as int) =~= ps);
    }
    let ghost mid = rows_view(tables@);
    proof {
        assert(mid + flat_ops(ps.take(0), collateral_rows(totals.values())) =~= mid);
    }
    let mut i: usize = 0;
    while i < pools.len()
        invariant
            i <= pools@.len(),
            ps == pools@.map_values(|s: String| s@),
            totals.wf(),
            rows_view(tables@) == mid + flat_ops(ps.take(i as int), collateral_rows(totals.values())),
        decreases pools@.len() - i,
    {
        let p = &pools[i];
        let ghost prev = tables@;
        proof {
            lemma_flat_step(ps, i as int, collateral_rows(totals.values()));
            assert(ps[i as int] == p@);
        }
        let key = crate::keys::join2("total_collateral_amount_withdrawn", p.as_str());
        match totals.get(key.as_str()) {
            Some(v) => {
                proof {
                    crate::text::lemma_text_int(totals.values()[key@]);
                    crate::text::lemma_int_text_injective(text_int(v@), totals.values()[key@]);
                }
                let r = update_row_of("group_pool_metric", p.as_str(), "total_collateral_withdrawn", Value::BigInt(v));
                tables.push(r);
                proof {
                    assert(rows_view(tables@) =~= rows_view(prev) + seq![row_view(r)]);
                    assert(seq![row_view(r)] =~= collateral_rows(totals.values())(p@));
                }
            },
            None => {
                proof {
                    assert(collateral_rows(totals.values())(p@) =~= Seq::<RowView>::empty());
                    assert(rows_view(tables@) =~= rows_view(tables@) + Seq::<RowView>::empty());
                }
            },
        }
        i = i + 1;
    }
    let ghost late = rows_view(tables@);
    let ghost snap = snapshot_rows(block_number, block_time, metrics.values(), totals.values(), enrichment@);
    proof {
        assert(late + flat_ops(ps.take(0), snap) =~= late);
    }
    let day: u64 = block_time / 86400;
    let week: u64 = block_time / 604800;
    let mut i: usize = 0;
    while i < pools.len()
        invariant
            i <= pools@.len(),
            ps == pools@.map_values(|s: String| s@),
            metrics.wf(),
            totals.wf(),
            day as int == day_bucket(block_time),
            week as int == week_bucket(block_time),
            snap == snapshot_rows(block_number, block_time, metrics.values(), totals.values(), enrichment@),
            rows_view(tables@) == late + flat_ops(ps.take(i as int), snap),
        decreases pools@.len() - i,
    {
        let p = &pools[i];
        let ghost prev = tables@;
        proof {
            lemma_flat_step(ps, i as int, snap);
            assert(ps[i as int] == p@);
        }
        let r0 = RowOp {
            operation: Operation::Create,
            entity: "group_pool_metric_data_point".to_string(),
            id: snapshot_id_text(p, block_number),
            columns: snapshot_columns_of(p, block_number, block_time, metrics, totals, enrichment),
        };
        let r1 = RowOp {
            operation: Operation::Create,
            entity: "group_pool_metric_data_point_daily".to_string(),
            id: snapshot_id_text(p, day),
            columns: snapshot_columns_of(p, block_number, block_time, metrics, totals, enrichment),
        };
        let r2 = RowOp {
            operation: Operation::Create,
            entity: "group_pool_metric_data_point_weekly".to_string(),
            id: snapshot_id_text(p, week),
            columns: snapshot_columns_of(p, block_number, block_time, metrics, totals, enrichment),
        };
        tables.push(r0);
        tables.push(r1);
        tables.push(r2);
        proof {
            assert(rows_view(tables@) =~= rows_view(prev) + seq![row_view(r0), row_view(r1), row_view(r2)]);
            assert(seq![row_view(r0), row_view(r1), row_view(r2)] =~= snap(p@));
        }
        i = i + 1;
    }
}

/// The primary key of a user's row: the pool, `_`, the user.
pub open spec fn user_row_id(segs: Seq<Seq<char>>) -> Seq<char> {
    segs[1] + seq!['_'] + segs[2]
}

/// The creation of a user's row when the user's interaction count of a pool
/// goes from zero (or absent, which a delta logs as zero) to exactly one.
pub open spec fn user_create_rows() -> spec_fn(Delta) -> Seq<RowView> {
    |d: Delta| {
        let segs = segments(d.key@);
        if segs.len() >= 4 && segs[0] == user_metric_kind() && segs[3] == interactions_metric()
            && d.old_value@ == "0"@ && d.new_value@ == "1"@ {
            seq![RowView {
                operation: Operation::Create,
                entity: "group_user_metric"@,
                id: user_row_id(segs),
                columns: seq![
                    ("group_pool_address"@, ValueView::Bytes(address_bytes_of(segs[1]))),
                    ("user_address"@, ValueView::Bytes(address_bytes_of(segs[2]))),
                    ("total_principal_tokens_committed"@, ValueView::BigInt(int_text(0))),
                    ("total_collateral_tokens_escrowed"@, ValueView::BigInt(int_text(0))),
                    ("total_principal_tokens_withdrawn"@, ValueView::BigInt(int_text(0))),
                    ("total_principal_tokens_borrowed"@, ValueView::BigInt(int_text(0))),
                ],
            }]
        } else {
            Seq::empty()
        }
    }
}

/// The column update a user-metric delta makes: the new value of a tracked
/// metric, on the user's row. Other deltas make none.
pub open spec fn user_update_rows() -> spec_fn(Delta) -> Seq<RowView> {
    |d: Delta| {
        let segs = segments(d.key@);
        if segs.len() >= 4 && segs[0] == user_metric_kind() && is_tracked_metric(segs[3]) {
            seq![update_row("group_user_metric"@, user_row_id(segs), segs[3], ValueView::BigInt(d.new_value@))]
        } else {
            Seq::empty()
        }
    }
}

fn zero_text() -> (r: String)
    ensures
        r@ == int_text(0),
{
    proof {
        reveal_strlit("0");
        assert(int_text(0) =~= "0"@);
    }
    "0".to_string()
}

fn user_id_text(pool: &String, user: &String) -> (r: String)
    ensures
        r@ == pool@ + seq!['_'] + user@,
{
    let mut s = pool.clone();
    s.append("_");
    s.append(user.as_str());
    proof {
        reveal_strlit("_");
    }
    s
}

/// Appends the creation of each user's row whose interaction count reached
/// one, in log order.
pub fn user_create_rows_out(deltas: &Vec<Delta>, tables: &mut Vec<RowOp>)
    ensures
        rows_view(final(tables)@) == rows_view(old(tables)@) + flat_ops(deltas@, user_create_rows()),
{
    let ghost before = rows_view(tables@);
    proof {
        assert(deltas@.take(0) =~= Seq::<Delta>::empty());
        assert(before + flat_ops(deltas@.take(0), user_create_rows()) =~= before);
        reveal_strlit("group_user_metric");
        reveal_strlit("interaction_count");
        reveal_strlit("0");
        reveal_strlit("1");
    }
    let mut i: usize = 0;
    while i < deltas.len()
        invariant
            i <= deltas@.len(),
            rows_view(tables@) == before + flat_ops(deltas@.take(i as int), user_create_rows()),
        decreases deltas@.len() - i,
    {
        let d = &deltas[i];
        let ghost prev = tables@;
        proof {
            lemma_flat_step(deltas@, i as int, user_create_rows());
        }
        let parts = crate::keys::split_key(d.key.as_str());
        let mut emitted = false;
        if parts.len() >= 4 {
            proof {
                assert(parts@.map_values(|s: String| s@)[0] == parts@[0]@);
                assert(parts@.map_values(|s: String| s@)[1] == parts@[1]@);
                assert(parts@.map_values(|s: String| s@)[2] == parts@[2]@);
                assert(parts@.map_values(|s: String| s@)[3] == parts@[3]@);
            }
            if str_equal(parts[0].as_str(), "group_user_metric") && str_equal(parts[3].as_str(), "interaction_count")
                && str_equal(d.old_value.as_str(), "0") && str_equal(d.new_value.as_str(), "1") {
                let mut columns: Vec<Column> = Vec::new();
                columns.push(Column { name: "group_pool_address".to_string(), value: Value::Bytes(address_bytes(&parts[1])) });
                columns.push(Column { name: "user_address".to_string(), value: Value::Bytes(address_bytes(&parts[2])) });
                columns.push(Column { name: "total_principal_tokens_committed".to_string(), value: Value::BigInt(zero_text()) });
                columns.push(Column { name: "total_collateral_tokens_escrowed".to_string(), value: Value::BigInt(zero_text()) });
                columns.push(Column { name: "total_principal_tokens_withdrawn".to_string(), value: Value::BigInt(zero_text()) });
                columns.push(Column { name: "total_principal_tokens_borrowed".to_string(), value: Value::BigInt(zero_text()) });
                let r = RowOp {
                    operation: Operation::Create,
                    entity: "group_user_metric".to_string(),
                    id: user_id_text(&parts[1], &parts[2]),
                    columns,
                };
                tables.push(r);
                emitted = true;
                proof {
                    assert(rows_view(tables@) =~= rows_view(prev) + seq![row_view(r)]);
                    assert(row_view(r).columns =~= user_create_rows()(*d)[0].columns);
                    assert(seq![row_view(r)] =~= user_create_rows()(*d));
                }
            }
        }
        if !emitted {
            proof {
                assert(user_create_rows()(*d) =~= Seq::<RowView>::empty());
                assert(rows_view(tables@) =~= rows_view(tables@) + Seq::<RowView>::empty());
            }
        }
        i = i + 1;
    }
    proof {
        assert(deltas@.take(deltas@.len() as int) =~= deltas@);
    }
}

/// Appends the column update of each user-metric delta, in log order.
pub fn user_update_rows_out(deltas: &Vec<Delta>, tables: &mut Vec<RowOp>)
    ensures
        rows_view(final(tables)@) == rows_view(old(tables)@) + flat_ops(deltas@, user_update_rows()),
{
    let ghost before = rows_view(tables@);
    proof {
        assert(deltas@.take(0) =~= Seq::<Delta>::empty());
        assert(before + flat_ops(deltas@.take(0), user_update_rows()) =~= before);
        reveal_strlit("group_user_metric");
    }
    let mut i: usize = 0;
    while i < deltas.len()
        invariant
            i <= deltas@.len(),
            rows_view(tables@) == before + flat_ops(deltas@.take(i as int), user_update_rows()),
        decreases deltas@.len() - i,
    {
        let d = &deltas[i];
        let ghost prev = tables@;
        proof {
            lemma_flat_step(deltas@, i as int, user_update_rows());
        }
        let parts = crate::keys::split_key(d.key.as_str());
        let mut emitted = false;
        if parts.len() >= 4 {
            proof {
                assert(parts@.map_values(|s: String| s@)[0] == parts@[0]@);
                assert(parts@.map_values(|s: String| s@)[1] == parts@[1]@);
                assert(parts@.map_values(|s: String| s@)[2] == parts@[2]@);
                assert(parts@.map_values(|s: String| s@)[3] == parts@[3]@);
            }
            if str_equal(parts[0].as_str(), "group_user_metric") && tracked_metric(parts[3].as_str()) {
                let id = user_id_text(&parts[1], &parts[2]);
                let r = update_row_of("group_user_metric", id.as_str(), parts[3].as_str(), Value::BigInt(d.new_value.clone()));
                tables.push(r);
                emitted = true;
                proof {
                    assert(rows_view(tables@) =~= rows_view(prev) + seq![row_view(r)]);
                    assert(seq![row_view(r)] =~= user_update_rows()(*d));
                }
            }
        }
        if !emitted {
            proof {
                assert(user_update_rows()(*d) =~= Seq::<RowView>::empty());
                assert(rows_view(tables@) =~= rows_view(tables@) + Seq::<RowView>::empty());
            }
        }
        i = i + 1;
    }
    proof {
        assert(deltas@.take(deltas@.len() as int) =~= deltas@);
    }
}

/// First-interaction gating: every created user row comes from exactly one
/// user-metric delta whose interaction count went from zero to one, and
/// every such delta creates its row; any other delta (a count that was
/// already positive, or that became anything but one) creates none.
pub proof fn lemma_user_creation_gating(deltas: Seq<Delta>)
    ensures
        exists|src: Seq<int>|
            {
                &&& #[trigger] src.len() == flat_ops(deltas, user_create_rows()).len()
                &&& forall|k: int| 0 <= k < src.len() ==> 0 <= #[trigger] src[k] < deltas.len()
                &&& forall|k: int| 0 <= k < src.len() ==> user_create_rows()(deltas[#[trigger] src[k]]) == seq![flat_ops(deltas, user_create_rows())[k]]
                &&& forall|k1: int, k2: int| 0 <= k1 < k2 < src.len() ==> src[k1] < src[k2]
                &&& forall|j: int| 0 <= j < deltas.len() && (#[trigger] user_create_rows()(deltas[j])).len() == 1
                    ==> exists|k: int| 0 <= k < src.len() && src[k] == j
            },
        forall|j: int| 0 <= j < deltas.len() ==> ((#[trigger] user_create_rows()(deltas[j])).len() == 1 <==> {
            let segs = segments(deltas[j].key@);
            segs.len() >= 4 && segs[0] == user_metric_kind() && segs[3] == interactions_metric()
                && deltas[j].old_value@ == "0"@ && deltas[j].new_value@ == "1"@
        }),
{
    assert forall|j: int| 0 <= j < deltas.len() implies (#[trigger] user_create_rows()(deltas[j])).len() <= 1 by {}
    lemma_flat_trace(deltas, user_create_rows());
}

/// The rows of a block's pool events and of its pool-metric and user-metric
/// deltas, in the order they are written.
pub open spec fn lendergroup_rows(
    events: Events,
    block_number: u64,
    block_time: u64,
    pool_deltas: Seq<Delta>,
    metrics: Map<Seq<char>, int>,
    user_deltas: Seq<Delta>,
    totals: Map<Seq<char>, int>,
    enrichment: Seq<PoolEnrichment>,
) -> Seq<RowView> {
    event_rows(events, enrichment)
        + flat_ops(pool_deltas, pool_update_rows())
        + flat_ops(touched(pool_deltas), enrichment_rows(enrichment))
        + flat_ops(touched(pool_deltas), collateral_rows(totals))
        + flat_ops(touched(pool_deltas), snapshot_rows(block_number, block_time, metrics, totals, enrichment))
        + flat_ops(user_deltas, user_create_rows())
        + flat_ops(user_deltas, user_update_rows())
}

/// Appends the rows of a block's pool events, then of its pool-metric deltas
/// (column updates, then per touched pool its refresh and snapshots), then of
/// its user-metric deltas (row creations, then column updates).
pub fn graph_lendergroup_out(
    events: &Events,
    tables: &mut Vec<RowOp>,
    block_number: u64,
    block_time: u64,
    deltas_lendergroup_pool_metrics: &Vec<Delta>,
    store_get_lendergroup_pool_metrics: &AddStore,
    deltas_lendergroup_user_metrics: &Vec<Delta>,
    store_collateral_withdrawn_data: &AddStore,
    enrichment: &Vec<PoolEnrichment>,
)
    requires
        store_get_lendergroup_pool_metrics.wf(),
        store_collateral_withdrawn_data.wf(),
    ensures
        rows_view(final(tables)@) == rows_view(old(tables)@) + lendergroup_rows(
            *events,
            block_number,
            block_time,
            deltas_lendergroup_pool_metrics@,
            store_get_lendergroup_pool_metrics.values(),
            deltas_lendergroup_user_metrics@,
            store_collateral_withdrawn_data.values(),
            enrichment@,
        ),
{
    let ghost start = rows_view(tables@);
    event_rows_out(events, enrichment, tables);
    pool_metric_update_rows_out(deltas_lendergroup_pool_metrics, tables);
    let pools = touched_pools(deltas_lendergroup_pool_metrics);
    pool_refresh_rows_out(
        &pools,
        block_number,
        block_time,
        store_get_lendergroup_pool_metrics,
        store_collateral_withdrawn_data,
        enrichment,
        tables,
    );
    user_create_rows_out(deltas_lendergroup_user_metrics, tables);
    user_update_rows_out(deltas_lendergroup_user_metrics, tables);
    proof {
        assert(rows_view(tables@) =~= start + lendergroup_rows(
            *events,
            block_number,
            block_time,
            deltas_lendergroup_pool_metrics@,
            store_get_lendergroup_pool_metrics.values(),
            deltas_lendergroup_user_metrics@,
            store_collateral_withdrawn_data.values(),
            enrichment@,
        ));
    }
}

/// The change-set of a block: the factory rows, then the pool rows.
pub fn graph_out(
    events: &Events,
    block_number: u64,
    block_time: u64,
    deltas_lendergroup_pool_metrics: &Vec<Delta>,
    store_lendergroup_pool_metrics: &AddStore,
    deltas_lendergroup_user_metrics: &Vec<Delta>,
    store_collateral_withdrawn_data: &AddStore,
    enrichment: &Vec<PoolEnrichment>,
) -> (r: Vec<RowOp>)
    requires
        store_lendergroup_pool_metrics.wf(),
        store_collateral_withdrawn_data.wf(),
    ensures
        rows_view(r@) == factory_rows(*events) + lendergroup_rows(
            *events,
            block_number,
            block_time,
            deltas_lendergroup_pool_metrics@,
            store_lendergroup_pool_metrics.values(),
            deltas_lendergroup_user_metrics@,
            store_collateral_withdrawn_data.values(),
            enrichment@,
        ),
{
    let mut tables: Vec<RowOp> = Vec::new();
    proof {
        assert(rows_view(tables@) =~= Seq::<RowView>::empty());
    }
    graph_factory_out(events, &mut tables);
    graph_lendergroup_out(
        events,
        &mut tables,
        block_number,
        block_time,
        deltas_lendergroup_pool_metrics,
        store_lendergroup_pool_metrics,
        deltas_lendergroup_user_metrics,
        store_collateral_withdrawn_data,
        enrichment,
    );
    proof {
        assert(factory_rows(*events) =~= Seq::<RowView>::empty() + factory_rows(*events));
    }
    tables
}

proof fn lemma_flat_three(ps: Seq<Seq<char>>, f: spec_fn(Seq<char>) -> Seq<RowView>)
    requires
        forall|i: int| 0 <= i < ps.len() ==> (#[trigger] f(ps[i])).len() == 3,
    ensures
        flat_ops(ps, f).len() == 3 * ps.len(),
        forall|i: int, k: int| 0 <= i < ps.len() && 0 <= k < 3 ==> flat_ops(ps, f)[3 * i + k] == #[trigger] f(ps[i])[k],
    decreases ps.len(),
{
    if ps.len() > 0 {
        let front = ps.drop_last();
        assert forall|i: int| 0 <= i < front.len() implies (#[trigger] f(front[i])).len() == 3 by {
            assert(front[i] == ps[i]);
        }
        lemma_flat_three(front, f);
        assert(f(ps[ps.len() - 1]).len() == 3);
        assert forall|i: int, k: int| 0 <= i < ps.len() && 0 <= k < 3 implies flat_ops(ps, f)[3 * i + k]
            == #[trigger] f(ps[i])[k] by {
            if i < front.len() {
                assert(front[i] == ps[i]);
                assert(flat_ops(front, f)[3 * i + k] == f(front[i])[k]);
            }
        }
    }
}

/// Snapshot buckets: the snapshots of a block hold, for each touched pool
/// and for no pool twice, exactly one row per period: by block number, by
/// day `floor(T / 86400)` and by week `floor(T / 604800)`, at consecutive
/// positions; touched pools are the pools of the block's pool-metric deltas.
pub proof fn lemma_snapshot_buckets(
    pool_deltas: Seq<Delta>,
    block_number: u64,
    block_time: u64,
    metrics: Map<Seq<char>, int>,
    totals: Map<Seq<char>, int>,
    enrichment: Seq<PoolEnrichment>,
)
    ensures
        ({
            let ps = touched(pool_deltas);
            let rows = flat_ops(ps, snapshot_rows(block_number, block_time, metrics, totals, enrichment));
            &&& rows.len() == 3 * ps.len()
            &&& forall|a: int, b: int| 0 <= a < b < ps.len() ==> ps[a] != ps[b]
            &&& forall|i: int| 0 <= i < ps.len() ==> {
                &&& (#[trigger] rows[3 * i]).id == snapshot_id(ps[i], block_number as int)
                &&& rows[3 * i].entity == "group_pool_metric_data_point"@
                &&& rows[3 * i + 1].id == snapshot_id(ps[i], block_time as int / 86400)
                &&& rows[3 * i + 1].entity == "group_pool_metric_data_point_daily"@
                &&& rows[3 * i + 2].id == snapshot_id(ps[i], block_time as int / 604800)
                &&& rows[3 * i + 2].entity == "group_pool_metric_data_point_weekly"@
            }
        }),
{
    let ps = touched(pool_deltas);
    let f = snapshot_rows(block_number, block_time, metrics, totals, enrichment);
    lemma_touched(pool_deltas);
    assert forall|i: int| 0 <= i < ps.len() implies (#[trigger] f(ps[i])).len() == 3 by {}
    lemma_flat_three(ps, f);
    assert forall|i: int| 0 <= i < ps.len() implies {
        &&& (#[trigger] flat_ops(ps, f)[3 * i]).id == snapshot_id(ps[i], block_number as int)
        &&& flat_ops(ps, f)[3 * i].entity == "group_pool_metric_data_point"@
        &&& flat_ops(ps, f)[3 * i + 1].id == snapshot_id(ps[i], block_time as int / 86400)
        &&& flat_ops(ps, f)[3 * i + 1].entity == "group_pool_metric_data_point_daily"@
        &&& flat_ops(ps, f)[3 * i + 2].id == snapshot_id(ps[i], block_time as int / 604800)
        &&& flat_ops(ps, f)[3 * i + 2].entity == "group_pool_metric_data_point_weekly"@
    } by {
        assert(flat_ops(ps, f)[3 * i + 0] == f(ps[i])[0]);
        assert(flat_ops(ps, f)[3 * i + 1] == f(ps[i])[1]);
        assert(flat_ops(ps, f)[3 * i + 2] == f(ps[i])[2]);
    }
}

} // verus!
