//! The batch writer: drain the buffer, order the batch newest-first,
//! deduplicate by identity key, and perform the primary upsert plus the
//! append-only backup write — re-queueing the drained events when the primary
//! write fails.

use vstd::prelude::*;

use crate::buffer::Buffer;
use crate::dedup::{dedup_batch, dedup_spec, newest_first};
use crate::models::db::HistoryRecord;
use crate::models::nats::{MarketHistories, MarketOrder};
use crate::store::{
    add_groups, add_items, add_locations, apply_histories, apply_orders, history_ench_col,
    history_group_col, history_loc_col, history_name_col, history_rows_of, item_rows_spec,
    kept_history_count, kept_order_count, order_ench_col, order_group_col, order_loc_col,
    order_name_col, order_rows_of, Store,
};
use crate::text;

verus! {

/// How one flattened record relates to the `j`th sample of a history event,
/// with `now` the instant stamped on it.
pub open spec fn record_matches(h: MarketHistories, j: int, rec: HistoryRecord, now: int) -> bool {
    let p = h.market_histories@[j];
    &&& rec.item_unique_name@ == h.item_unique_name@
    &&& rec.item_group_name@ == text::group_name_spec(h.item_unique_name@)
    &&& rec.location_id == h.location_id
    &&& rec.quality_level == h.quality_level
    &&& rec.enchantment_level == text::enchantment_level_spec(h.item_unique_name@)
    &&& rec.timescale == h.timescale
    &&& rec.silver_amount == p.silver_amount
    &&& rec.item_amount == p.item_amount
    &&& rec.timestamp == p.timestamp
    &&& rec.updated_at == now
}

/// Do `recs` flatten the history events `hs` in order: for each event in
/// order, one record per sample in sample order?
pub open spec fn records_match(hs: Seq<MarketHistories>, recs: Seq<HistoryRecord>, now: int) -> bool
    decreases hs.len(),
{
    if hs.len() == 0 {
        recs.len() == 0
    } else {
        let h = hs.last();
        let k = h.market_histories@.len();
        &&& recs.len() >= k
        &&& records_match(hs.drop_last(), recs.subrange(0, recs.len() - k), now)
        &&& forall|j: int|
            0 <= j < k ==> record_matches(h, j, #[trigger] recs[recs.len() - k + j], now)
    }
}

/// Flatten history events into write-ready records: one record per sample,
/// joined with the event's header fields and the group name and enchantment
/// level derived from the item's unique name, each stamped with `now`.
pub fn history_records(hs: &Vec<MarketHistories>, now: i64) -> (recs: Vec<HistoryRecord>)
    ensures
        records_match(hs@, recs@, now as int),
{
    let mut recs: Vec<HistoryRecord> = Vec::new();
    let mut i: usize = 0;
    while i < hs.len()
        invariant
            0 <= i <= hs@.len(),
            records_match(hs@.take(i as int), recs@, now as int),
        decreases hs@.len() - i,
    {
        let h = &hs[i];
        let group = text::group_name_of(h.item_unique_name.as_str());
        let ench = text::enchantment_level_of(h.item_unique_name.as_str());
        let ghost base = recs@;
        let k = h.market_histories.len();
        let mut j: usize = 0;
        while j < k
            invariant
                0 <= j <= k,
                k == h.market_histories@.len(),
                h == hs@[i as int],
                0 <= i < hs@.len(),
                recs@.len() == base.len() + j,
                recs@.subrange(0, base.len() as int) == base,
                group@ == text::group_name_spec(h.item_unique_name@),
                ench == text::enchantment_level_spec(h.item_unique_name@),
                forall|m: int|
                    0 <= m < j ==> record_matches(
                        hs@[i as int],
                        m,
                        #[trigger] recs@[base.len() + m],
                        now as int,
                    ),
            decreases k - j,
        {
            let p = &h.market_histories[j];
            let ghost pre = recs@;
            recs.push(HistoryRecord {
                item_unique_name: h.item_unique_name.clone(),
                item_group_name: group.clone(),
                location_id: h.location_id,
                quality_level: h.quality_level,
                enchantment_level: ench,
                timescale: h.timescale,
                silver_amount: p.silver_amount,
                item_amount: p.item_amount,
                timestamp: p.timestamp,
                updated_at: now,
            });
            proof {
                assert(recs@.subrange(0, base.len() as int) =~= base);
                assert(record_matches(hs@[i as int], j as int, recs@[base.len() + j], now as int));
            }
            j += 1;
        }
        proof {
            let cur = hs@.take(i + 1);
            assert(cur.drop_last() =~= hs@.take(i as int));
            assert(cur.last() == hs@[i as int]);
            assert(recs@.subrange(0, recs@.len() - k) =~= base);
        }
        i += 1;
    }
    proof {
        assert(hs@.take(hs@.len() as int) =~= hs@);
    }
    recs
}

/// One flush cycle for market orders. The buffer is drained wholesale; the
/// batch is ordered newest-first and deduplicated by id, so the most recently
/// arrived event wins ties; the primary upsert and the append-only backup
/// write each stand for one transaction, and `primary_ok` / `backup_ok` say
/// whether the store carried them out. A failed primary write re-queues the
/// drained events at the buffer's tail, unchanged and in arrival order;
/// backup failures never re-queue. Returns the rows affected by the primary
/// upsert, or `None` when it failed.
pub fn flush_market_orders(
    buf: &mut Buffer<MarketOrder>,
    store: &mut Store,
    primary_ok: bool,
    backup_ok: bool,
) -> (r: Option<usize>)
    ensures
        ({
            let batch = dedup_spec(old(buf)@.reverse());
            &&& (primary_ok ==> final(buf)@ == Seq::<MarketOrder>::empty())
            &&& (!primary_ok ==> final(buf)@ == old(buf)@)
            &&& (primary_ok ==> {
                &&& final(store).item_groups() == add_groups(
                    old(store).item_groups(),
                    order_group_col(batch),
                )
                &&& final(store).items() == add_items(
                    old(store).items(),
                    item_rows_spec(
                        order_group_col(batch),
                        order_name_col(batch),
                        order_ench_col(batch),
                    ),
                )
                &&& final(store).locations() == add_locations(
                    old(store).locations(),
                    order_loc_col(batch),
                )
                &&& final(store).market_orders() == apply_orders(
                    old(store).market_orders(),
                    batch,
                    final(store).items(),
                    final(store).locations(),
                )
                &&& r == Some(
                    kept_order_count(batch, final(store).items(), final(store).locations()) as usize,
                )
            })
            &&& (!primary_ok ==> {
                &&& final(store).item_groups() == old(store).item_groups()
                &&& final(store).items() == old(store).items()
                &&& final(store).locations() == old(store).locations()
                &&& final(store).market_orders() == old(store).market_orders()
                &&& r is None
            })
            &&& (backup_ok ==> final(store).market_order_backup() == old(
                store,
            ).market_order_backup() + order_rows_of(batch))
            &&& (!backup_ok ==> final(store).market_order_backup() == old(
                store,
            ).market_order_backup())
            &&& final(store).market_histories() == old(store).market_histories()
            &&& final(store).market_history_backup() == old(store).market_history_backup()
        }),
{
    let drained = buf.drain_all();
    let ordered = newest_first(&drained);
    let batch = dedup_batch(&ordered);
    let mut r: Option<usize> = None;
    if primary_ok {
        let n = store.insert_market_orders(&batch);
        r = Some(n);
    } else {
        buf.requeue(drained);
    }
    if backup_ok {
        store.backup_market_orders(&batch);
    }
    r
}

/// One flush cycle for market histories. The buffer is drained wholesale and
/// flattened into write-ready records stamped with `now`; the records are
/// ordered newest-first and deduplicated by composite key, so the most
/// recently arrived sample wins ties; the primary upsert and the append-only
/// backup write each stand for one transaction, as for orders. A failed
/// primary write re-queues the drained events — not the flattened records —
/// at the buffer's tail.
pub fn flush_market_histories(
    buf: &mut Buffer<MarketHistories>,
    store: &mut Store,
    now: i64,
    primary_ok: bool,
    backup_ok: bool,
) -> (r: Option<usize>)
    ensures
        (primary_ok ==> final(buf)@ == Seq::<MarketHistories>::empty()),
        (!primary_ok ==> final(buf)@ == old(buf)@),
        final(store).market_orders() == old(store).market_orders(),
        final(store).market_order_backup() == old(store).market_order_backup(),
        exists|recs: Seq<HistoryRecord>|
            {
                let batch = dedup_spec(recs.reverse());
                &&& #[trigger] records_match(old(buf)@, recs, now as int)
                &&& (primary_ok ==> {
                    &&& final(store).item_groups() == add_groups(
                        old(store).item_groups(),
                        history_group_col(batch),
                    )
                    &&& final(store).items() == add_items(
                        old(store).items(),
                        item_rows_spec(
                            history_group_col(batch),
                            history_name_col(batch),
                            history_ench_col(batch),
                        ),
                    )
                    &&& final(store).locations() == add_locations(
                        old(store).locations(),
                        history_loc_col(batch),
                    )
                    &&& final(store).market_histories() == apply_histories(
                        old(store).market_histories(),
                        batch,
                        final(store).items(),
                        final(store).locations(),
                    )
                    &&& r == Some(
                        kept_history_count(
                            batch,
                            final(store).items(),
                            final(store).locations(),
                        ) as usize,
                    )
                })
                &&& (!primary_ok ==> {
                    &&& final(store).item_groups() == old(store).item_groups()
                    &&& final(store).items() == old(store).items()
                    &&& final(store).locations() == old(store).locations()
                    &&& final(store).market_histories() == old(store).market_histories()
                    &&& r is None
                })
                &&& (backup_ok ==> final(store).market_history_backup() == old(
                    store,
                ).market_history_backup() + history_rows_of(batch))
                &&& (!backup_ok ==> final(store).market_history_backup() == old(
                    store,
                ).market_history_backup())
            },
{
    let drained = buf.drain_all();
    let records = history_records(&drained, now);
    let ordered = newest_first(&records);
    let batch = dedup_batch(&ordered);
    let mut r: Option<usize> = None;
    if primary_ok {
        let n = store.insert_market_histories(&batch);
        r = Some(n);
    } else {
        buf.requeue(drained);
    }
    if backup_ok {
        store.backup_market_histories(&batch);
    }
    r
}

} // verus!
