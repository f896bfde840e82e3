//! The laws the flush pipeline obeys, stated over the spec functions that the
//! executable functions' contracts use: tie-breaking of duplicate keys,
//! idempotence of the primary write, the append-only growth of the backup
//! tables, completeness of the final drain, and retry after a failed write.

use vstd::prelude::*;

use crate::dedup::{dedup_spec, has_key, lemma_dedup_spec_keys, unique_keys, Keyed};
use crate::models::nats::MarketOrder;
use crate::store::{
    add_groups, add_items, add_locations, apply_histories, apply_orders, has_group, has_item,
    history_dims_known, history_key_in, history_row_key, history_row_of, history_rows_of,
    item_rows_spec, lemma_add_groups_keeps, lemma_add_items_keeps, lemma_add_locations_keeps,
    order_dims_known, order_ench_col, order_group_col, order_key_in, order_loc_col, order_name_col,
    order_row_of, order_rows_of, remove_order, replace_history, upsert_history_one, HistoryRow,
    ItemRow, OrderRow,
};
use crate::models::db::HistoryRecord;

verus! {

broadcast use vstd::seq_lib::group_seq_lib_default;

/// Reversing a batch keeps exactly its keys.
pub proof fn lemma_reverse_keys<T: Keyed>(s: Seq<T>)
    ensures
        forall|k: <T as Keyed>::Key| has_key(s.reverse(), k) == has_key(s, k),
{
    assert forall|k: <T as Keyed>::Key| has_key(s.reverse(), k) == has_key(s, k) by {
        if has_key(s, k) {
            let i = choose|i: int| 0 <= i < s.len() && s[i].key() == k;
            assert(s.reverse()[s.len() - 1 - i].key() == k);
        }
        if has_key(s.reverse(), k) {
            let i = choose|i: int| 0 <= i < s.reverse().len() && s.reverse()[i].key() == k;
            assert(s[s.len() - 1 - i].key() == k);
        }
    }
}

/// Final drain on shutdown: together with `FlushScheduler::on_wake` (the
/// shutdown cycle still flushes whenever the buffer is non-empty) and
/// `Buffer::drain_all` (a flush drains the whole buffer), this says the final
/// write attempt misses nothing: the batch it writes — the buffer contents
/// `s` at signal time, reversed and deduplicated — still carries every one of
/// those events' keys.
pub proof fn lemma_final_drain_complete<T: Keyed>(s: Seq<T>)
    ensures
        forall|i: int| 0 <= i < s.len() ==> has_key(dedup_spec(s.reverse()), #[trigger] s[i].key()),
{
    lemma_dedup_spec_keys(s.reverse());
    lemma_reverse_keys(s);
    assert forall|i: int| 0 <= i < s.len() implies has_key(
        dedup_spec(s.reverse()),
        #[trigger] s[i].key(),
    ) by {
        assert(has_key(s, s[i].key()));
    }
}

/// Deleting an id keeps exactly the other ids.
proof fn lemma_remove_order_keys(rows: Seq<OrderRow>, id: i64, k: i64)
    ensures
        order_key_in(remove_order(rows, id), k) == (k != id && order_key_in(rows, k)),
    decreases rows.len(),
{
    if rows.len() == 0 {
    } else {
        let hd = rows.drop_last();
        lemma_remove_order_keys(hd, id, k);
        let pre = remove_order(hd, id);
        if order_key_in(remove_order(rows, id), k) {
            let i = choose|i: int|
                0 <= i < remove_order(rows, id).len() && remove_order(rows, id)[i].id == k;
            if i < pre.len() {
                assert(pre[i].id == k);
                assert(order_key_in(pre, k));
                let j = choose|j: int| 0 <= j < hd.len() && hd[j].id == k;
                assert(hd[j] == rows[j]);
                assert(rows[j].id == k);
                assert(order_key_in(rows, k));
            } else {
                assert(remove_order(rows, id)[i] == rows.last());
                assert(rows[rows.len() - 1].id == k);
                assert(order_key_in(rows, k));
            }
        }
        if k != id && order_key_in(rows, k) {
            let i = choose|i: int| 0 <= i < rows.len() && rows[i].id == k;
            if i < rows.len() - 1 {
                assert(hd[i] == rows[i]);
                assert(hd[i].id == k);
                assert(order_key_in(hd, k));
                let j = choose|j: int| 0 <= j < pre.len() && pre[j].id == k;
                assert(remove_order(rows, id)[j].id == k);
                assert(order_key_in(remove_order(rows, id), k));
            } else {
                assert(rows.last().id == k);
                assert(remove_order(rows, id).last().id == k);
                assert(order_key_in(remove_order(rows, id), k));
            }
        }
    }
}

/// Which ids the primary upsert of a batch leaves in the canonical order
/// table: those already stored, and those of batch events with known
/// dimensions.
pub proof fn lemma_apply_orders_keys(
    rows: Seq<OrderRow>,
    batch: Seq<MarketOrder>,
    items: Seq<ItemRow>,
    locs: Seq<i16>,
    id: i64,
)
    ensures
        order_key_in(apply_orders(rows, batch, items, locs), id) == (order_key_in(rows, id)
            || exists|i: int|
            0 <= i < batch.len() && order_dims_known(items, locs, #[trigger] batch[i])
                && batch[i].id == id),
    decreases batch.len(),
{
    if batch.len() == 0 {
    } else {
        let hd = batch.drop_last();
        let e = batch.last();
        lemma_apply_orders_keys(rows, hd, items, locs, id);
        let pre = apply_orders(rows, hd, items, locs);
        lemma_remove_order_keys(pre, e.id, id);
        let in_hd = exists|i: int|
            0 <= i < hd.len() && order_dims_known(items, locs, #[trigger] hd[i]) && hd[i].id == id;
        let in_batch = exists|i: int|
            0 <= i < batch.len() && order_dims_known(items, locs, #[trigger] batch[i])
                && batch[i].id == id;
        if in_hd {
            let i = choose|i: int|
                0 <= i < hd.len() && order_dims_known(items, locs, hd[i]) && hd[i].id == id;
            assert(hd[i] == batch[i]);
            assert(order_dims_known(items, locs, batch[i]) && batch[i].id == id);
            assert(in_batch);
        }
        if order_dims_known(items, locs, e) {
            let res = remove_order(pre, e.id).push(order_row_of(e));
            assert(apply_orders(rows, batch, items, locs) == res);
            assert(res.last().id == e.id);
            if id == e.id {
                assert(order_key_in(res, id));
                assert(batch[batch.len() - 1] == e);
                assert(in_batch);
            } else {
                if order_key_in(res, id) {
                    let i = choose|i: int| 0 <= i < res.len() && res[i].id == id;
                    assert(i < res.len() - 1);
                    assert(res[i] == remove_order(pre, e.id)[i]);
                    assert(order_key_in(remove_order(pre, e.id), id));
                    assert(order_key_in(pre, id));
                } else {
                    if order_key_in(remove_order(pre, e.id), id) {
                        let j = choose|j: int|
                            0 <= j < remove_order(pre, e.id).len() && remove_order(pre, e.id)[j].id
                                == id;
                        assert(res[j].id == id);
                        assert(order_key_in(res, id));
                    }
                    assert(!order_key_in(remove_order(pre, e.id), id));
                    assert(!order_key_in(pre, id));
                }
                if in_batch && !in_hd {
                    let i = choose|i: int|
                        0 <= i < batch.len() && order_dims_known(items, locs, batch[i])
                            && batch[i].id == id;
                    if i < batch.len() - 1 {
                        assert(hd[i] == batch[i]);
                        assert(in_hd);
                    }
                    assert(batch[i] == e);
                    assert(false);
                }
            }
        } else {
            assert(apply_orders(rows, batch, items, locs) == pre);
            if in_batch && !in_hd {
                let i = choose|i: int|
                    0 <= i < batch.len() && order_dims_known(items, locs, batch[i]) && batch[i].id
                        == id;
                if i < batch.len() - 1 {
                    assert(hd[i] == batch[i]);
                    assert(in_hd);
                }
                assert(batch[i] == e);
                assert(false);
            }
        }
    }
}

/// After the batch's own dimension keys are inserted, every batch event's
/// dimensions are known.
pub proof fn lemma_order_batch_dims_known(
    batch: Seq<MarketOrder>,
    items0: Seq<ItemRow>,
    locs0: Seq<i16>,
)
    ensures
        forall|i: int|
            0 <= i < batch.len() ==> order_dims_known(
                add_items(
                    items0,
                    item_rows_spec(
                        order_group_col(batch),
                        order_name_col(batch),
                        order_ench_col(batch),
                    ),
                ),
                add_locations(locs0, order_loc_col(batch)),
                #[trigger] batch[i],
            ),
{
    let rows = item_rows_spec(
        order_group_col(batch),
        order_name_col(batch),
        order_ench_col(batch),
    );
    assert forall|i: int| 0 <= i < batch.len() implies order_dims_known(
        add_items(items0, rows),
        add_locations(locs0, order_loc_col(batch)),
        #[trigger] batch[i],
    ) by {
        assert(rows[i].unique_name == order_name_col(batch)[i]);
        assert(order_name_col(batch)[i] == batch[i].item_unique_name);
        lemma_add_items_keeps(items0, rows, batch[i].item_unique_name@);
        assert(order_loc_col(batch)[i] == batch[i].location_id);
        assert(order_loc_col(batch).contains(batch[i].location_id));
        lemma_add_locations_keeps(locs0, order_loc_col(batch), batch[i].location_id);
    }
}

/// When every batch event's dimensions are known, none are dropped.
proof fn lemma_kept_order_count_full(batch: Seq<MarketOrder>, items: Seq<ItemRow>, locs: Seq<i16>)
    requires
        forall|i: int|
            0 <= i < batch.len() ==> order_dims_known(items, locs, #[trigger] batch[i]),
    ensures
        crate::store::kept_order_count(batch, items, locs) == batch.len(),
    decreases batch.len(),
{
    if batch.len() > 0 {
        let hd = batch.drop_last();
        assert forall|i: int| 0 <= i < hd.len() implies order_dims_known(
            items,
            locs,
            #[trigger] hd[i],
        ) by {
            assert(hd[i] == batch[i]);
        }
        lemma_kept_order_count_full(hd, items, locs);
        assert(batch[batch.len() - 1] == batch.last());
    }
}

/// Rows affected: because the batch's own dimension keys are inserted before
/// the upsert, the primary write applies every batch event, and the number
/// of rows it reports equals the batch size.
pub proof fn lemma_order_rows_affected(
    batch: Seq<MarketOrder>,
    items0: Seq<ItemRow>,
    locs0: Seq<i16>,
)
    ensures
        crate::store::kept_order_count(
            batch,
            add_items(
                items0,
                item_rows_spec(
                    order_group_col(batch),
                    order_name_col(batch),
                    order_ench_col(batch),
                ),
            ),
            add_locations(locs0, order_loc_col(batch)),
        ) == batch.len(),
{
    lemma_order_batch_dims_known(batch, items0, locs0);
    lemma_kept_order_count_full(
        batch,
        add_items(
            items0,
            item_rows_spec(order_group_col(batch), order_name_col(batch), order_ench_col(batch)),
        ),
        add_locations(locs0, order_loc_col(batch)),
    );
}

/// When every batch record's dimensions are known, none are dropped.
proof fn lemma_kept_history_count_full(
    batch: Seq<HistoryRecord>,
    items: Seq<ItemRow>,
    locs: Seq<i16>,
)
    requires
        forall|i: int|
            0 <= i < batch.len() ==> history_dims_known(items, locs, #[trigger] batch[i]),
    ensures
        crate::store::kept_history_count(batch, items, locs) == batch.len(),
    decreases batch.len(),
{
    if batch.len() > 0 {
        let hd = batch.drop_last();
        assert forall|i: int| 0 <= i < hd.len() implies history_dims_known(
            items,
            locs,
            #[trigger] hd[i],
        ) by {
            assert(hd[i] == batch[i]);
        }
        lemma_kept_history_count_full(hd, items, locs);
        assert(batch[batch.len() - 1] == batch.last());
    }
}

/// After the batch's own dimension keys are inserted, every history record's
/// dimensions are known.
pub proof fn lemma_history_batch_dims_known(
    batch: Seq<HistoryRecord>,
    items0: Seq<ItemRow>,
    locs0: Seq<i16>,
)
    ensures
        forall|i: int|
            0 <= i < batch.len() ==> history_dims_known(
                add_items(
                    items0,
                    item_rows_spec(
                        crate::store::history_group_col(batch),
                        crate::store::history_name_col(batch),
                        crate::store::history_ench_col(batch),
                    ),
                ),
                add_locations(locs0, crate::store::history_loc_col(batch)),
                #[trigger] batch[i],
            ),
{
    let rows = item_rows_spec(
        crate::store::history_group_col(batch),
        crate::store::history_name_col(batch),
        crate::store::history_ench_col(batch),
    );
    assert forall|i: int| 0 <= i < batch.len() implies history_dims_known(
        add_items(items0, rows),
        add_locations(locs0, crate::store::history_loc_col(batch)),
        #[trigger] batch[i],
    ) by {
        assert(rows[i].unique_name == crate::store::history_name_col(batch)[i]);
        assert(crate::store::history_name_col(batch)[i] == batch[i].item_unique_name);
        lemma_add_items_keeps(items0, rows, batch[i].item_unique_name@);
        assert(crate::store::history_loc_col(batch)[i] == batch[i].location_id);
        assert(crate::store::history_loc_col(batch).contains(batch[i].location_id));
        lemma_add_locations_keeps(locs0, crate::store::history_loc_col(batch), batch[i].location_id);
    }
}

/// Rows affected for the history kind: with the batch's dimensions inserted
/// first, the primary write applies every record.
pub proof fn lemma_history_rows_affected(
    batch: Seq<HistoryRecord>,
    items0: Seq<ItemRow>,
    locs0: Seq<i16>,
)
    ensures
        crate::store::kept_history_count(
            batch,
            add_items(
                items0,
                item_rows_spec(
                    crate::store::history_group_col(batch),
                    crate::store::history_name_col(batch),
                    crate::store::history_ench_col(batch),
                ),
            ),
            add_locations(locs0, crate::store::history_loc_col(batch)),
        ) == batch.len(),
{
    lemma_history_batch_dims_known(batch, items0, locs0);
    lemma_kept_history_count_full(
        batch,
        add_items(
            items0,
            item_rows_spec(
                crate::store::history_group_col(batch),
                crate::store::history_name_col(batch),
                crate::store::history_ench_col(batch),
            ),
        ),
        add_locations(locs0, crate::store::history_loc_col(batch)),
    );
}

/// Retry re-queue: a failed primary write re-queues the drained events, so
/// the buffer is exactly as before the cycle (stated by the flush contract),
/// and the next successful flush — whose batch is the buffer contents `s`
/// reversed and deduplicated, written after the batch's dimensions — leaves
/// every one of those events' ids present in the canonical order table. No
/// event is lost to a single transient failure.
pub proof fn lemma_retry_requeue(
    rows: Seq<OrderRow>,
    s: Seq<MarketOrder>,
    items0: Seq<ItemRow>,
    locs0: Seq<i16>,
)
    ensures
        ({
            let batch = dedup_spec(s.reverse());
            let items = add_items(
                items0,
                item_rows_spec(
                    order_group_col(batch),
                    order_name_col(batch),
                    order_ench_col(batch),
                ),
            );
            let locs = add_locations(locs0, order_loc_col(batch));
            forall|i: int|
                0 <= i < s.len() ==> order_key_in(
                    apply_orders(rows, batch, items, locs),
                    #[trigger] s[i].id,
                )
        }),
{
    let batch = dedup_spec(s.reverse());
    let items = add_items(
        items0,
        item_rows_spec(order_group_col(batch), order_name_col(batch), order_ench_col(batch)),
    );
    let locs = add_locations(locs0, order_loc_col(batch));
    lemma_final_drain_complete(s);
    lemma_order_batch_dims_known(batch, items0, locs0);
    assert forall|i: int| 0 <= i < s.len() implies order_key_in(
        apply_orders(rows, batch, items, locs),
        #[trigger] s[i].id,
    ) by {
        lemma_apply_orders_keys(rows, batch, items, locs, s[i].id);
        assert(has_key(batch, s[i].key()));
        let j = choose|j: int| 0 <= j < batch.len() && batch[j].key() == s[i].key();
        assert(batch[j].id == s[i].id && order_dims_known(items, locs, batch[j]));
    }
}

/// Retry re-queue for the history kind: after a failed primary write leaves
/// the flattened records to be produced again from the re-queued events, the
/// next successful flush — the records `s` reversed and deduplicated,
/// written after the batch's dimensions — leaves every one of those records'
/// composite keys present in the canonical history table.
pub proof fn lemma_retry_requeue_history(
    rows: Seq<HistoryRow>,
    s: Seq<HistoryRecord>,
    items0: Seq<ItemRow>,
    locs0: Seq<i16>,
)
    ensures
        ({
            let batch = dedup_spec(s.reverse());
            let items = add_items(
                items0,
                item_rows_spec(
                    crate::store::history_group_col(batch),
                    crate::store::history_name_col(batch),
                    crate::store::history_ench_col(batch),
                ),
            );
            let locs = add_locations(locs0, crate::store::history_loc_col(batch));
            forall|i: int|
                0 <= i < s.len() ==> history_key_in(
                    apply_histories(rows, batch, items, locs),
                    (#[trigger] s[i]).key(),
                )
        }),
{
    let batch = dedup_spec(s.reverse());
    let items = add_items(
        items0,
        item_rows_spec(
            crate::store::history_group_col(batch),
            crate::store::history_name_col(batch),
            crate::store::history_ench_col(batch),
        ),
    );
    let locs = add_locations(locs0, crate::store::history_loc_col(batch));
    lemma_final_drain_complete(s);
    lemma_history_batch_dims_known(batch, items0, locs0);
    assert forall|i: int| 0 <= i < s.len() implies history_key_in(
        apply_histories(rows, batch, items, locs),
        (#[trigger] s[i]).key(),
    ) by {
        lemma_apply_histories_keys(rows, batch, items, locs, s[i].key());
        assert(has_key(batch, s[i].key()));
        let j = choose|j: int| 0 <= j < batch.len() && batch[j].key() == s[i].key();
        assert(batch[j].key() == s[i].key() && history_dims_known(items, locs, batch[j]));
    }
}

/// Dedup tie-break: two events `a` then `b` with the same id, appended in
/// that order within one flush cycle, become the singleton batch `[b]` after
/// newest-first ordering and deduplication — the most recently arrived event
/// wins — and the primary upsert then stores exactly `b`'s values under that
/// id.
pub proof fn lemma_dedup_tie_break(
    rows: Seq<OrderRow>,
    a: MarketOrder,
    b: MarketOrder,
    items: Seq<ItemRow>,
    locs: Seq<i16>,
)
    requires
        a.id == b.id,
        order_dims_known(items, locs, b),
    ensures
        dedup_spec(seq![a, b].reverse()) == seq![b],
        apply_orders(rows, dedup_spec(seq![a, b].reverse()), items, locs) == remove_order(
            rows,
            b.id,
        ).push(order_row_of(b)),
{
    let r = seq![b, a];
    assert(seq![a, b].reverse() =~= r);
    let single = seq![b];
    assert(r.drop_last() =~= single);
    assert(single.drop_last() =~= Seq::<MarketOrder>::empty());
    assert(dedup_spec(Seq::<MarketOrder>::empty()) == Seq::<MarketOrder>::empty());
    assert(!has_key(Seq::<MarketOrder>::empty(), b.key()));
    assert(dedup_spec(single) =~= seq![b]);
    assert(single[0].key() == a.key());
    assert(has_key(single, a.key()));
    assert(dedup_spec(r) =~= seq![b]);
    let batch = dedup_spec(seq![a, b].reverse());
    assert(batch =~= seq![b]);
    assert(batch.drop_last() =~= Seq::<MarketOrder>::empty());
    assert(apply_orders(rows, batch.drop_last(), items, locs) == rows);
    assert(batch.last() == b);
    assert(apply_orders(rows, batch, items, locs) == remove_order(rows, b.id).push(
        order_row_of(b),
    ));
}

/// Deleting an absent id changes nothing.
proof fn lemma_remove_order_absent(rows: Seq<OrderRow>, id: i64)
    requires
        !order_key_in(rows, id),
    ensures
        remove_order(rows, id) == rows,
    decreases rows.len(),
{
    if rows.len() == 0 {
        assert(remove_order(rows, id) =~= rows);
    } else {
        let hd = rows.drop_last();
        if order_key_in(hd, id) {
            let j = choose|j: int| 0 <= j < hd.len() && hd[j].id == id;
            assert(hd[j] == rows[j]);
            assert(order_key_in(rows, id));
        }
        lemma_remove_order_absent(hd, id);
        if rows.last().id == id {
            assert(rows[rows.len() - 1].id == id);
            assert(order_key_in(rows, id));
        }
        assert(remove_order(rows, id) =~= rows);
    }
}

/// Deletion distributes over concatenation.
proof fn lemma_remove_order_add(a: Seq<OrderRow>, b: Seq<OrderRow>, id: i64)
    ensures
        remove_order(a + b, id) == remove_order(a, id) + remove_order(b, id),
    decreases b.len(),
{
    if b.len() == 0 {
        assert(a + b =~= a);
        assert(remove_order(b, id) =~= Seq::<OrderRow>::empty());
        assert(remove_order(a, id) + remove_order(b, id) =~= remove_order(a, id));
    } else {
        assert((a + b).drop_last() =~= a + b.drop_last());
        assert((a + b).last() == b.last());
        lemma_remove_order_add(a, b.drop_last(), id);
        if b.last().id == id {
            assert(remove_order(a + b, id) =~= remove_order(a, id) + remove_order(b, id));
        } else {
            assert((remove_order(a, id) + remove_order(b.drop_last(), id)).push(b.last()) =~= remove_order(
                a,
                id,
            ) + remove_order(b.drop_last(), id).push(b.last()));
            assert(remove_order(a + b, id) =~= remove_order(a, id) + remove_order(b, id));
        }
    }
}

/// The rows that a batch's primary upsert inserts: one canonical row per
/// event with known dimensions, in batch order.
spec fn kept_order_rows(batch: Seq<MarketOrder>, items: Seq<ItemRow>, locs: Seq<i16>) -> Seq<
    OrderRow,
>
    decreases batch.len(),
{
    if batch.len() == 0 {
        Seq::empty()
    } else {
        let pre = kept_order_rows(batch.drop_last(), items, locs);
        if order_dims_known(items, locs, batch.last()) {
            pre.push(order_row_of(batch.last()))
        } else {
            pre
        }
    }
}

/// The stored rows after the batch's deletes alone: every id of a
/// known-dimension batch event removed.
spec fn rm_known(
    rows: Seq<OrderRow>,
    batch: Seq<MarketOrder>,
    items: Seq<ItemRow>,
    locs: Seq<i16>,
) -> Seq<OrderRow>
    decreases batch.len(),
{
    if batch.len() == 0 {
        rows
    } else {
        let pre = rm_known(rows, batch.drop_last(), items, locs);
        if order_dims_known(items, locs, batch.last()) {
            remove_order(pre, batch.last().id)
        } else {
            pre
        }
    }
}

/// The inserted rows carry exactly the ids of known-dimension batch events.
proof fn lemma_kept_order_keys(
    batch: Seq<MarketOrder>,
    items: Seq<ItemRow>,
    locs: Seq<i16>,
    id: i64,
)
    ensures
        order_key_in(kept_order_rows(batch, items, locs), id) == (exists|i: int|
            0 <= i < batch.len() && order_dims_known(items, locs, #[trigger] batch[i])
                && batch[i].id == id),
    decreases batch.len(),
{
    if batch.len() == 0 {
    } else {
        let hd = batch.drop_last();
        let e = batch.last();
        lemma_kept_order_keys(hd, items, locs, id);
        let pre = kept_order_rows(hd, items, locs);
        let in_hd = exists|i: int|
            0 <= i < hd.len() && order_dims_known(items, locs, #[trigger] hd[i]) && hd[i].id == id;
        let in_batch = exists|i: int|
            0 <= i < batch.len() && order_dims_known(items, locs, #[trigger] batch[i])
                && batch[i].id == id;
        if in_hd {
            let i = choose|i: int|
                0 <= i < hd.len() && order_dims_known(items, locs, hd[i]) && hd[i].id == id;
            assert(hd[i] == batch[i]);
            assert(in_batch);
        }
        if order_dims_known(items, locs, e) {
            let res = pre.push(order_row_of(e));
            if id == e.id {
                assert(res.last().id == id);
                assert(order_key_in(res, id));
                assert(batch[batch.len() - 1] == e);
                assert(in_batch);
            } else {
                if order_key_in(res, id) {
                    let i = choose|i: int| 0 <= i < res.len() && res[i].id == id;
                    assert(i < res.len() - 1);
                    assert(res[i] == pre[i]);
                    assert(order_key_in(pre, id));
                }
                if order_key_in(pre, id) {
                    let i = choose|i: int| 0 <= i < pre.len() && pre[i].id == id;
                    assert(res[i].id == id);
                    assert(order_key_in(res, id));
                }
                if in_batch && !in_hd {
                    let i = choose|i: int|
                        0 <= i < batch.len() && order_dims_known(items, locs, batch[i])
                            && batch[i].id == id;
                    if i < batch.len() - 1 {
                        assert(hd[i] == batch[i]);
                        assert(in_hd);
                    }
                    assert(batch[i] == e);
                    assert(false);
                }
            }
        } else {
            if in_batch && !in_hd {
                let i = choose|i: int|
                    0 <= i < batch.len() && order_dims_known(items, locs, batch[i]) && batch[i].id
                        == id;
                if i < batch.len() - 1 {
                    assert(hd[i] == batch[i]);
                    assert(in_hd);
                }
                assert(batch[i] == e);
                assert(false);
            }
        }
    }
}

/// After the batch's deletes, an id is present exactly when it was stored
/// and no known-dimension batch event carries it.
proof fn lemma_rm_known_keys(
    rows: Seq<OrderRow>,
    batch: Seq<MarketOrder>,
    items: Seq<ItemRow>,
    locs: Seq<i16>,
    id: i64,
)
    ensures
        order_key_in(rm_known(rows, batch, items, locs), id) == (order_key_in(rows, id) && !(
        exists|i: int|
            0 <= i < batch.len() && order_dims_known(items, locs, #[trigger] batch[i])
                && batch[i].id == id)),
    decreases batch.len(),
{
    if batch.len() == 0 {
    } else {
        let hd = batch.drop_last();
        let e = batch.last();
        lemma_rm_known_keys(rows, hd, items, locs, id);
        let pre = rm_known(rows, hd, items, locs);
        let in_hd = exists|i: int|
            0 <= i < hd.len() && order_dims_known(items, locs, #[trigger] hd[i]) && hd[i].id == id;
        let in_batch = exists|i: int|
            0 <= i < batch.len() && order_dims_known(items, locs, #[trigger] batch[i])
                && batch[i].id == id;
        if in_hd {
            let i = choose|i: int|
                0 <= i < hd.len() && order_dims_known(items, locs, hd[i]) && hd[i].id == id;
            assert(hd[i] == batch[i]);
            assert(in_batch);
        }
        if order_dims_known(items, locs, e) {
            lemma_remove_order_keys(pre, e.id, id);
            if e.id == id {
                assert(batch[batch.len() - 1] == e);
                assert(in_batch);
                assert(!order_key_in(remove_order(pre, e.id), id));
            } else {
                if in_batch && !in_hd {
                    let i = choose|i: int|
                        0 <= i < batch.len() && order_dims_known(items, locs, batch[i])
                            && batch[i].id == id;
                    if i < batch.len() - 1 {
                        assert(hd[i] == batch[i]);
                        assert(in_hd);
                    }
                    assert(batch[i] == e);
                    assert(false);
                }
            }
        } else {
            if in_batch && !in_hd {
                let i = choose|i: int|
                    0 <= i < batch.len() && order_dims_known(items, locs, batch[i]) && batch[i].id
                        == id;
                if i < batch.len() - 1 {
                    assert(hd[i] == batch[i]);
                    assert(in_hd);
                }
                assert(batch[i] == e);
                assert(false);
            }
        }
    }
}

/// A batch prefix keeps unique keys.
proof fn lemma_unique_keys_drop_last(batch: Seq<MarketOrder>)
    requires
        unique_keys(batch),
        batch.len() > 0,
    ensures
        unique_keys(batch.drop_last()),
{
    let hd = batch.drop_last();
    assert forall|i: int, j: int| 0 <= i < j < hd.len() implies hd[i].key() != hd[j].key() by {
        assert(hd[i] == batch[i]);
        assert(hd[j] == batch[j]);
    }
}

/// The primary upsert splits: the batch's deletes applied to the stored
/// rows, followed by the batch's inserted rows.
proof fn lemma_apply_orders_split(
    rows: Seq<OrderRow>,
    batch: Seq<MarketOrder>,
    items: Seq<ItemRow>,
    locs: Seq<i16>,
)
    requires
        unique_keys(batch),
    ensures
        apply_orders(rows, batch, items, locs) == rm_known(rows, batch, items, locs)
            + kept_order_rows(batch, items, locs),
    decreases batch.len(),
{
    if batch.len() == 0 {
        assert(rm_known(rows, batch, items, locs) + kept_order_rows(batch, items, locs) =~= rows);
    } else {
        let hd = batch.drop_last();
        let e = batch.last();
        lemma_unique_keys_drop_last(batch);
        lemma_apply_orders_split(rows, hd, items, locs);
        let rk = rm_known(rows, hd, items, locs);
        let kept = kept_order_rows(hd, items, locs);
        if order_dims_known(items, locs, e) {
            lemma_remove_order_add(rk, kept, e.id);
            if order_key_in(kept, e.id) {
                lemma_kept_order_keys(hd, items, locs, e.id);
                let i = choose|i: int|
                    0 <= i < hd.len() && order_dims_known(items, locs, hd[i]) && hd[i].id == e.id;
                assert(hd[i] == batch[i]);
                assert(batch[i].key() == batch[batch.len() - 1].key());
                assert(false);
            }
            lemma_remove_order_absent(kept, e.id);
            assert(remove_order(rk + kept, e.id) == remove_order(rk, e.id) + kept);
            assert((remove_order(rk, e.id) + kept).push(order_row_of(e)) =~= remove_order(rk, e.id)
                + kept.push(order_row_of(e)));
            assert(apply_orders(rows, batch, items, locs) == rm_known(rows, batch, items, locs)
                + kept_order_rows(batch, items, locs));
        } else {
            assert(apply_orders(rows, batch, items, locs) == rm_known(rows, batch, items, locs)
                + kept_order_rows(batch, items, locs));
        }
    }
}

/// The batch's deletes distribute over concatenation of the stored rows.
proof fn lemma_rm_known_add(
    x: Seq<OrderRow>,
    y: Seq<OrderRow>,
    batch: Seq<MarketOrder>,
    items: Seq<ItemRow>,
    locs: Seq<i16>,
)
    ensures
        rm_known(x + y, batch, items, locs) == rm_known(x, batch, items, locs) + rm_known(
            y,
            batch,
            items,
            locs,
        ),
    decreases batch.len(),
{
    if batch.len() == 0 {
    } else {
        let hd = batch.drop_last();
        let e = batch.last();
        lemma_rm_known_add(x, y, hd, items, locs);
        if order_dims_known(items, locs, e) {
            lemma_remove_order_add(rm_known(x, hd, items, locs), rm_known(y, hd, items, locs), e.id);
        }
    }
}

/// The batch's deletes change nothing when none of the batch's ids are
/// stored.
proof fn lemma_rm_known_absent(
    rows: Seq<OrderRow>,
    batch: Seq<MarketOrder>,
    items: Seq<ItemRow>,
    locs: Seq<i16>,
)
    requires
        forall|i: int|
            0 <= i < batch.len() && order_dims_known(items, locs, #[trigger] batch[i])
                ==> !order_key_in(rows, batch[i].id),
    ensures
        rm_known(rows, batch, items, locs) == rows,
    decreases batch.len(),
{
    if batch.len() == 0 {
    } else {
        let hd = batch.drop_last();
        let e = batch.last();
        assert forall|i: int|
            0 <= i < hd.len() && order_dims_known(items, locs, #[trigger] hd[i]) implies !order_key_in(
            rows,
            hd[i].id,
        ) by {
            assert(hd[i] == batch[i]);
        }
        lemma_rm_known_absent(rows, hd, items, locs);
        if order_dims_known(items, locs, e) {
            assert(batch[batch.len() - 1] == e);
            assert(!order_key_in(rows, e.id));
            lemma_remove_order_absent(rows, e.id);
        }
    }
}

/// Idempotent upsert: applying the same batch's primary write twice to the
/// canonical order table yields the same table as applying it once — no
/// duplicate rows, and the stored values are unchanged by the second
/// application. The batch is deduplicated before the write, so its keys are
/// unique.
pub proof fn lemma_idempotent_order_upsert(
    rows: Seq<OrderRow>,
    batch: Seq<MarketOrder>,
    items: Seq<ItemRow>,
    locs: Seq<i16>,
)
    requires
        unique_keys(batch),
    ensures
        apply_orders(apply_orders(rows, batch, items, locs), batch, items, locs) == apply_orders(
            rows,
            batch,
            items,
            locs,
        ),
{
    lemma_apply_orders_split(rows, batch, items, locs);
    let rk = rm_known(rows, batch, items, locs);
    let kept = kept_order_rows(batch, items, locs);
    lemma_apply_orders_split(rk + kept, batch, items, locs);
    lemma_rm_known_add(rk, kept, batch, items, locs);
    assert forall|i: int|
        0 <= i < batch.len() && order_dims_known(items, locs, #[trigger] batch[i]) implies !order_key_in(
        rk,
        batch[i].id,
    ) by {
        lemma_rm_known_keys(rows, batch, items, locs, batch[i].id);
    }
    lemma_rm_known_absent(rk, batch, items, locs);
    let rkk = rm_known(kept, batch, items, locs);
    if rkk.len() > 0 {
        assert(order_key_in(rkk, rkk[0].id));
        lemma_rm_known_keys(kept, batch, items, locs, rkk[0].id);
        assert(order_key_in(kept, rkk[0].id));
        lemma_kept_order_keys(batch, items, locs, rkk[0].id);
        assert(false);
    }
    assert(rkk =~= Seq::<OrderRow>::empty());
    assert(rk + rkk + kept =~= rk + kept);
}

/// Do all stored history rows of key `k` carry exactly `row`'s fields?
spec fn all_rows_eq(rows: Seq<HistoryRow>, k: (Seq<char>, i16, i16, i16, i64), row: HistoryRow) -> bool {
    forall|j: int|
        0 <= j < rows.len() && history_row_key(#[trigger] rows[j]) == k ==> rows[j] == row
}

/// An in-place update keeps exactly the stored keys.
proof fn lemma_replace_history_keys(rows: Seq<HistoryRow>, row: HistoryRow, k: (Seq<char>, i16, i16, i16, i64))
    ensures
        history_key_in(replace_history(rows, row), k) == history_key_in(rows, k),
{
    let res = replace_history(rows, row);
    assert(res.len() == rows.len());
    assert forall|i: int| 0 <= i < rows.len() implies history_row_key(res[i]) == history_row_key(
        rows[i],
    ) by {
        if history_row_key(rows[i]) == history_row_key(row) {
            assert(res[i] == row);
        } else {
            assert(res[i] == rows[i]);
        }
    }
    if history_key_in(rows, k) {
        let i = choose|i: int| 0 <= i < rows.len() && history_row_key(rows[i]) == k;
        assert(history_row_key(res[i]) == k);
        assert(history_key_in(res, k));
    }
    if history_key_in(res, k) {
        let i = choose|i: int| 0 <= i < res.len() && history_row_key(res[i]) == k;
        assert(history_row_key(rows[i]) == k);
        assert(history_key_in(rows, k));
    }
}

/// One record's upsert leaves exactly the stored keys plus the record's key.
proof fn lemma_upsert_history_one_keys(rows: Seq<HistoryRow>, r: HistoryRecord, k: (Seq<char>, i16, i16, i16, i64))
    ensures
        history_key_in(upsert_history_one(rows, r), k) == (history_key_in(rows, k) || r.key() == k),
{
    assert(history_row_key(history_row_of(r)) == r.key());
    if history_key_in(rows, r.key()) {
        lemma_replace_history_keys(rows, history_row_of(r), k);
    } else {
        let res = rows.push(history_row_of(r));
        if history_key_in(rows, k) {
            let i = choose|i: int| 0 <= i < rows.len() && history_row_key(rows[i]) == k;
            assert(res[i] == rows[i]);
            assert(history_key_in(res, k));
        }
        if r.key() == k {
            assert(history_row_key(res[res.len() - 1]) == k);
            assert(history_key_in(res, k));
        }
        if history_key_in(res, k) {
            let i = choose|i: int| 0 <= i < res.len() && history_row_key(res[i]) == k;
            if i < rows.len() {
                assert(rows[i] == res[i]);
                assert(history_key_in(rows, k));
            } else {
                assert(res[i] == history_row_of(r));
            }
        }
    }
}

/// Which keys the primary upsert of a history batch leaves in the canonical
/// table: those already stored, and those of batch records with known
/// dimensions.
pub proof fn lemma_apply_histories_keys(
    rows: Seq<HistoryRow>,
    batch: Seq<HistoryRecord>,
    items: Seq<ItemRow>,
    locs: Seq<i16>,
    k: (Seq<char>, i16, i16, i16, i64),
)
    ensures
        history_key_in(apply_histories(rows, batch, items, locs), k) == (history_key_in(rows, k)
            || exists|i: int|
            0 <= i < batch.len() && history_dims_known(items, locs, #[trigger] batch[i])
                && batch[i].key() == k),
    decreases batch.len(),
{
    if batch.len() == 0 {
    } else {
        let hd = batch.drop_last();
        let r = batch.last();
        lemma_apply_histories_keys(rows, hd, items, locs, k);
        let pre = apply_histories(rows, hd, items, locs);
        let in_hd = exists|i: int|
            0 <= i < hd.len() && history_dims_known(items, locs, #[trigger] hd[i]) && hd[i].key()
                == k;
        let in_batch = exists|i: int|
            0 <= i < batch.len() && history_dims_known(items, locs, #[trigger] batch[i])
                && batch[i].key() == k;
        if in_hd {
            let i = choose|i: int|
                0 <= i < hd.len() && history_dims_known(items, locs, hd[i]) && hd[i].key() == k;
            assert(hd[i] == batch[i]);
            assert(in_batch);
        }
        if history_dims_known(items, locs, r) {
            lemma_upsert_history_one_keys(pre, r, k);
            if r.key() == k {
                assert(batch[batch.len() - 1] == r);
                assert(in_batch);
            } else {
                if in_batch && !in_hd {
                    let i = choose|i: int|
                        0 <= i < batch.len() && history_dims_known(items, locs, batch[i])
                            && batch[i].key() == k;
                    if i < batch.len() - 1 {
                        assert(hd[i] == batch[i]);
                        assert(in_hd);
                    }
                    assert(batch[i] == r);
                    assert(false);
                }
            }
        } else {
            if in_batch && !in_hd {
                let i = choose|i: int|
                    0 <= i < batch.len() && history_dims_known(items, locs, batch[i])
                        && batch[i].key() == k;
                if i < batch.len() - 1 {
                    assert(hd[i] == batch[i]);
                    assert(in_hd);
                }
                assert(batch[i] == r);
                assert(false);
            }
        }
    }
}

/// After a batch's upsert, every stored row carrying the key of a
/// known-dimension batch record holds exactly that record's values.
proof fn lemma_apply_histories_values(
    rows: Seq<HistoryRow>,
    batch: Seq<HistoryRecord>,
    items: Seq<ItemRow>,
    locs: Seq<i16>,
    i: int,
)
    requires
        unique_keys(batch),
        0 <= i < batch.len(),
        history_dims_known(items, locs, batch[i]),
    ensures
        all_rows_eq(
            apply_histories(rows, batch, items, locs),
            batch[i].key(),
            history_row_of(batch[i]),
        ),
    decreases batch.len(),
{
    let hd = batch.drop_last();
    let r = batch.last();
    let pre = apply_histories(rows, hd, items, locs);
    let res = apply_histories(rows, batch, items, locs);
    assert(history_row_key(history_row_of(r)) == r.key());
    if i == batch.len() - 1 {
        assert(batch[i] == r);
        if history_key_in(pre, r.key()) {
            assert(res == replace_history(pre, history_row_of(r)));
            assert forall|j: int|
                0 <= j < res.len() && history_row_key(#[trigger] res[j]) == r.key() implies res[j]
                == history_row_of(r) by {
                if history_row_key(pre[j]) == history_row_key(history_row_of(r)) {
                    assert(res[j] == history_row_of(r));
                } else {
                    assert(res[j] == pre[j]);
                }
            }
        } else {
            assert(res == pre.push(history_row_of(r)));
            assert forall|j: int|
                0 <= j < res.len() && history_row_key(#[trigger] res[j]) == r.key() implies res[j]
                == history_row_of(r) by {
                if j < pre.len() {
                    assert(res[j] == pre[j]);
                    assert(history_key_in(pre, r.key()));
                    assert(false);
                }
            }
        }
    } else {
        assert forall|a: int, b: int| 0 <= a < b < hd.len() implies hd[a].key() != hd[b].key() by {
            assert(hd[a] == batch[a]);
            assert(hd[b] == batch[b]);
        }
        assert(hd[i] == batch[i]);
        lemma_apply_histories_values(rows, hd, items, locs, i);
        let ki = batch[i].key();
        assert(batch[i].key() != batch[batch.len() - 1].key());
        assert(ki != r.key());
        if history_dims_known(items, locs, r) {
            if history_key_in(pre, r.key()) {
                assert(res == replace_history(pre, history_row_of(r)));
                assert forall|j: int|
                    0 <= j < res.len() && history_row_key(#[trigger] res[j]) == ki implies res[j]
                    == history_row_of(batch[i]) by {
                    if history_row_key(pre[j]) == history_row_key(history_row_of(r)) {
                        assert(res[j] == history_row_of(r));
                        assert(history_row_key(res[j]) == r.key());
                        assert(false);
                    } else {
                        assert(res[j] == pre[j]);
                    }
                }
            } else {
                assert(res == pre.push(history_row_of(r)));
                assert forall|j: int|
                    0 <= j < res.len() && history_row_key(#[trigger] res[j]) == ki implies res[j]
                    == history_row_of(batch[i]) by {
                    if j < pre.len() {
                        assert(res[j] == pre[j]);
                    } else {
                        assert(res[j] == history_row_of(r));
                        assert(false);
                    }
                }
            }
        } else {
            assert(res == pre);
        }
    }
}

/// A batch's upsert changes nothing when every known-dimension record's key
/// is already stored with exactly that record's values.
proof fn lemma_apply_histories_identity(
    rows: Seq<HistoryRow>,
    batch: Seq<HistoryRecord>,
    items: Seq<ItemRow>,
    locs: Seq<i16>,
)
    requires
        forall|i: int|
            0 <= i < batch.len() && history_dims_known(items, locs, #[trigger] batch[i])
                ==> history_key_in(rows, batch[i].key()) && all_rows_eq(
                rows,
                batch[i].key(),
                history_row_of(batch[i]),
            ),
    ensures
        apply_histories(rows, batch, items, locs) == rows,
    decreases batch.len(),
{
    if batch.len() == 0 {
    } else {
        let hd = batch.drop_last();
        let r = batch.last();
        assert forall|i: int|
            0 <= i < hd.len() && history_dims_known(items, locs, #[trigger] hd[i]) implies history_key_in(
            rows,
            hd[i].key(),
        ) && all_rows_eq(rows, hd[i].key(), history_row_of(hd[i])) by {
            assert(hd[i] == batch[i]);
        }
        lemma_apply_histories_identity(rows, hd, items, locs);
        if history_dims_known(items, locs, r) {
            assert(batch[batch.len() - 1] == r);
            assert(history_key_in(rows, r.key()));
            assert(history_row_key(history_row_of(r)) == r.key());
            assert(replace_history(rows, history_row_of(r)) =~= rows) by {
                assert forall|j: int| 0 <= j < rows.len() implies replace_history(
                    rows,
                    history_row_of(r),
                )[j] == rows[j] by {
                    if history_row_key(rows[j]) == history_row_key(history_row_of(r)) {
                        assert(rows[j] == history_row_of(r));
                    }
                }
            }
        }
    }
}

/// Idempotent upsert: applying the same batch's primary write twice to the
/// canonical history table yields the same table as applying it once — no
/// duplicate rows, and the stored values are unchanged by the second
/// application. The batch is deduplicated before the write, so its keys are
/// unique.
pub proof fn lemma_idempotent_history_upsert(
    rows: Seq<HistoryRow>,
    batch: Seq<HistoryRecord>,
    items: Seq<ItemRow>,
    locs: Seq<i16>,
)
    requires
        unique_keys(batch),
    ensures
        apply_histories(apply_histories(rows, batch, items, locs), batch, items, locs)
            == apply_histories(rows, batch, items, locs),
{
    let a1 = apply_histories(rows, batch, items, locs);
    assert forall|i: int|
        0 <= i < batch.len() && history_dims_known(items, locs, #[trigger] batch[i]) implies history_key_in(
        a1,
        batch[i].key(),
    ) && all_rows_eq(a1, batch[i].key(), history_row_of(batch[i])) by {
        lemma_apply_histories_keys(rows, batch, items, locs, batch[i].key());
        lemma_apply_histories_values(rows, batch, items, locs, i);
    }
    lemma_apply_histories_identity(a1, batch, items, locs);
}

/// Inserting names whose values are all present changes nothing.
proof fn lemma_add_groups_present(gs: Seq<String>, new: Seq<String>)
    requires
        forall|i: int| 0 <= i < new.len() ==> has_group(gs, (#[trigger] new[i])@),
    ensures
        add_groups(gs, new) == gs,
    decreases new.len(),
{
    if new.len() == 0 {
    } else {
        assert forall|i: int| 0 <= i < new.drop_last().len() implies has_group(
            gs,
            (#[trigger] new.drop_last()[i])@,
        ) by {
            assert(new.drop_last()[i] == new[i]);
        }
        lemma_add_groups_present(gs, new.drop_last());
        assert(has_group(gs, (new[new.len() - 1])@));
    }
}

/// Inserting the same group names twice yields the same table as once.
pub proof fn lemma_idempotent_group_insert(gs: Seq<String>, new: Seq<String>)
    ensures
        add_groups(add_groups(gs, new), new) == add_groups(gs, new),
{
    assert forall|i: int| 0 <= i < new.len() implies has_group(
        add_groups(gs, new),
        (#[trigger] new[i])@,
    ) by {
        lemma_add_groups_keeps(gs, new, new[i]@);
    }
    lemma_add_groups_present(add_groups(gs, new), new);
}

/// Inserting item rows whose names are all present changes nothing.
proof fn lemma_add_items_present(items: Seq<ItemRow>, new: Seq<ItemRow>)
    requires
        forall|i: int| 0 <= i < new.len() ==> has_item(items, (#[trigger] new[i]).unique_name@),
    ensures
        add_items(items, new) == items,
    decreases new.len(),
{
    if new.len() == 0 {
    } else {
        assert forall|i: int| 0 <= i < new.drop_last().len() implies has_item(
            items,
            (#[trigger] new.drop_last()[i]).unique_name@,
        ) by {
            assert(new.drop_last()[i] == new[i]);
        }
        lemma_add_items_present(items, new.drop_last());
        assert(has_item(items, (new[new.len() - 1]).unique_name@));
    }
}

/// Inserting the same item rows twice yields the same table as once.
pub proof fn lemma_idempotent_item_insert(items: Seq<ItemRow>, new: Seq<ItemRow>)
    ensures
        add_items(add_items(items, new), new) == add_items(items, new),
{
    assert forall|i: int| 0 <= i < new.len() implies has_item(
        add_items(items, new),
        (#[trigger] new[i]).unique_name@,
    ) by {
        lemma_add_items_keeps(items, new, new[i].unique_name@);
    }
    lemma_add_items_present(add_items(items, new), new);
}

/// Inserting location ids that are all present changes nothing.
proof fn lemma_add_locations_present(locs: Seq<i16>, new: Seq<i16>)
    requires
        forall|i: int| 0 <= i < new.len() ==> locs.contains(#[trigger] new[i]),
    ensures
        add_locations(locs, new) == locs,
    decreases new.len(),
{
    if new.len() == 0 {
    } else {
        assert forall|i: int| 0 <= i < new.drop_last().len() implies locs.contains(
            #[trigger] new.drop_last()[i],
        ) by {
            assert(new.drop_last()[i] == new[i]);
        }
        lemma_add_locations_present(locs, new.drop_last());
        assert(locs.contains(new[new.len() - 1]));
    }
}

/// Inserting the same location ids twice yields the same table as once.
pub proof fn lemma_idempotent_location_insert(locs: Seq<i16>, new: Seq<i16>)
    ensures
        add_locations(add_locations(locs, new), new) == add_locations(locs, new),
{
    assert forall|i: int| 0 <= i < new.len() implies add_locations(locs, new).contains(
        #[trigger] new[i],
    ) by {
        lemma_add_locations_keeps(locs, new, new[i]);
    }
    lemma_add_locations_present(add_locations(locs, new), new);
}

/// Every row surviving a deletion was already stored.
proof fn lemma_remove_order_membership(rows: Seq<OrderRow>, id: i64, j: int)
    requires
        0 <= j < remove_order(rows, id).len(),
    ensures
        rows.contains(remove_order(rows, id)[j]),
    decreases rows.len(),
{
    if rows.len() == 0 {
    } else {
        let hd = rows.drop_last();
        let pre = remove_order(hd, id);
        if rows.last().id == id {
            lemma_remove_order_membership(hd, id, j);
            let k = choose|k: int| 0 <= k < hd.len() && hd[k] == pre[j];
            assert(rows[k] == pre[j]);
        } else {
            if j < pre.len() {
                lemma_remove_order_membership(hd, id, j);
                let k = choose|k: int| 0 <= k < hd.len() && hd[k] == pre[j];
                assert(rows[k] == remove_order(rows, id)[j]);
            } else {
                assert(remove_order(rows, id)[j] == rows.last());
                assert(rows[rows.len() - 1] == remove_order(rows, id)[j]);
            }
        }
    }
}

/// After a batch's upsert, every stored row carrying the id of a
/// known-dimension batch event holds exactly that event's values.
proof fn lemma_apply_orders_values(
    rows: Seq<OrderRow>,
    batch: Seq<MarketOrder>,
    items: Seq<ItemRow>,
    locs: Seq<i16>,
    i: int,
)
    requires
        unique_keys(batch),
        0 <= i < batch.len(),
        order_dims_known(items, locs, batch[i]),
    ensures
        forall|j: int|
            0 <= j < apply_orders(rows, batch, items, locs).len() && (#[trigger] apply_orders(
                rows,
                batch,
                items,
                locs,
            )[j]).id == batch[i].id ==> apply_orders(rows, batch, items, locs)[j] == order_row_of(
                batch[i],
            ),
    decreases batch.len(),
{
    let hd = batch.drop_last();
    let e = batch.last();
    let pre = apply_orders(rows, hd, items, locs);
    let res = apply_orders(rows, batch, items, locs);
    if i == batch.len() - 1 {
        assert(batch[i] == e);
        assert(res == remove_order(pre, e.id).push(order_row_of(e)));
        lemma_remove_order_keys(pre, e.id, e.id);
        assert forall|j: int|
            0 <= j < res.len() && (#[trigger] res[j]).id == e.id implies res[j] == order_row_of(e) by {
            if j < res.len() - 1 {
                assert(res[j] == remove_order(pre, e.id)[j]);
                assert(order_key_in(remove_order(pre, e.id), e.id));
                assert(false);
            }
        }
    } else {
        assert forall|a: int, b: int| 0 <= a < b < hd.len() implies hd[a].key() != hd[b].key() by {
            assert(hd[a] == batch[a]);
            assert(hd[b] == batch[b]);
        }
        assert(hd[i] == batch[i]);
        lemma_apply_orders_values(rows, hd, items, locs, i);
        assert(batch[i].key() != batch[batch.len() - 1].key());
        if order_dims_known(items, locs, e) {
            assert(res == remove_order(pre, e.id).push(order_row_of(e)));
            assert forall|j: int|
                0 <= j < res.len() && (#[trigger] res[j]).id == batch[i].id implies res[j]
                == order_row_of(batch[i]) by {
                if j < res.len() - 1 {
                    assert(res[j] == remove_order(pre, e.id)[j]);
                    lemma_remove_order_membership(pre, e.id, j);
                    let k = choose|k: int| 0 <= k < pre.len() && pre[k] == res[j];
                    assert(pre[k].id == batch[i].id);
                } else {
                    assert(res[j] == order_row_of(e));
                    assert(res[j].id == e.id);
                    assert(false);
                }
            }
        } else {
            assert(res == pre);
        }
    }
}

/// A first occurrence survives deduplication.
proof fn lemma_dedup_keeps_first_occurrence<T: Keyed>(s: Seq<T>, i: int)
    requires
        0 <= i < s.len(),
        forall|j: int| 0 <= j < i ==> (#[trigger] s[j]).key() != s[i].key(),
    ensures
        dedup_spec(s).contains(s[i]),
    decreases s.len(),
{
    let hd = s.drop_last();
    let prev = dedup_spec(hd);
    if i == s.len() - 1 {
        if has_key(hd, s[i].key()) {
            let j = choose|j: int| 0 <= j < hd.len() && hd[j].key() == s[i].key();
            assert(hd[j] == s[j]);
            assert(false);
        }
        assert(dedup_spec(s) == prev.push(s.last()));
        assert(dedup_spec(s)[dedup_spec(s).len() - 1] == s[i]);
    } else {
        assert forall|j: int| 0 <= j < i implies (#[trigger] hd[j]).key() != hd[i].key() by {
            assert(hd[j] == s[j]);
            assert(hd[i] == s[i]);
        }
        lemma_dedup_keeps_first_occurrence(hd, i);
        let k = choose|k: int| 0 <= k < prev.len() && prev[k] == hd[i];
        assert(dedup_spec(s)[k] == hd[i]);
        assert(hd[i] == s[i]);
        assert(dedup_spec(s).contains(s[i]));
    }
}

/// Last arrival wins, in general: if position `p` holds the last event of
/// its id in the buffer contents `s`, then after a successful flush — the
/// batch `s` reversed and deduplicated, written after the batch's dimensions
/// — every stored row of that id carries exactly that event's values.
pub proof fn lemma_last_arrival_wins(
    rows: Seq<OrderRow>,
    s: Seq<MarketOrder>,
    items0: Seq<ItemRow>,
    locs0: Seq<i16>,
    p: int,
)
    requires
        0 <= p < s.len(),
        forall|j: int| p < j < s.len() ==> (#[trigger] s[j]).id != s[p].id,
    ensures
        ({
            let batch = dedup_spec(s.reverse());
            let items = add_items(
                items0,
                item_rows_spec(
                    order_group_col(batch),
                    order_name_col(batch),
                    order_ench_col(batch),
                ),
            );
            let locs = add_locations(locs0, order_loc_col(batch));
            forall|j: int|
                0 <= j < apply_orders(rows, batch, items, locs).len() && (#[trigger] apply_orders(
                    rows,
                    batch,
                    items,
                    locs,
                )[j]).id == s[p].id ==> apply_orders(rows, batch, items, locs)[j] == order_row_of(
                    s[p],
                )
        }),
{
    let r = s.reverse();
    let batch = dedup_spec(r);
    let items = add_items(
        items0,
        item_rows_spec(order_group_col(batch), order_name_col(batch), order_ench_col(batch)),
    );
    let locs = add_locations(locs0, order_loc_col(batch));
    let q = s.len() - 1 - p;
    assert(r[q] == s[p]);
    assert forall|j: int| 0 <= j < q implies (#[trigger] r[j]).key() != r[q].key() by {
        assert(r[j] == s[s.len() - 1 - j]);
        assert(p < s.len() - 1 - j < s.len());
    }
    lemma_dedup_keeps_first_occurrence(r, q);
    let m = choose|m: int| 0 <= m < batch.len() && batch[m] == r[q];
    lemma_dedup_spec_keys(r);
    lemma_order_batch_dims_known(batch, items0, locs0);
    assert(order_dims_known(items, locs, batch[m]));
    lemma_apply_orders_values(rows, batch, items, locs, m);
    assert forall|j: int|
        0 <= j < apply_orders(rows, batch, items, locs).len() && (#[trigger] apply_orders(
            rows,
            batch,
            items,
            locs,
        )[j]).id == s[p].id implies apply_orders(rows, batch, items, locs)[j] == order_row_of(
        s[p],
    ) by {
        assert(batch[m] == s[p]);
        assert(batch[m].id == s[p].id);
    }
}

/// Dedup tie-break for the history kind: two records `a` then `b` with the
/// same composite key become the singleton batch `[b]`, and the upsert then
/// stores exactly `b`'s values under that key.
pub proof fn lemma_dedup_tie_break_history(
    rows: Seq<HistoryRow>,
    a: HistoryRecord,
    b: HistoryRecord,
    items: Seq<ItemRow>,
    locs: Seq<i16>,
)
    requires
        a.key() == b.key(),
        history_dims_known(items, locs, b),
    ensures
        dedup_spec(seq![a, b].reverse()) == seq![b],
        forall|j: int|
            0 <= j < apply_histories(rows, seq![b], items, locs).len() && history_row_key(
                #[trigger] apply_histories(rows, seq![b], items, locs)[j],
            ) == b.key() ==> apply_histories(rows, seq![b], items, locs)[j] == history_row_of(b),
{
    let r = seq![b, a];
    assert(seq![a, b].reverse() =~= r);
    let single = seq![b];
    assert(r.drop_last() =~= single);
    assert(single.drop_last() =~= Seq::<HistoryRecord>::empty());
    assert(dedup_spec(Seq::<HistoryRecord>::empty()) == Seq::<HistoryRecord>::empty());
    assert(!has_key(Seq::<HistoryRecord>::empty(), b.key()));
    assert(dedup_spec(single) =~= seq![b]);
    assert(single[0].key() == a.key());
    assert(has_key(single, a.key()));
    assert(dedup_spec(r) =~= seq![b]);
    assert(unique_keys(single));
    assert(single[0] == b);
    lemma_apply_histories_values(rows, single, items, locs, 0);
}

/// Idempotent primary write, assembled for one order batch: running the full
/// primary write twice — dimension inserts and the keyed upsert, as
/// `Store::insert_market_orders` performs them — leaves every table exactly
/// as after one run.
pub proof fn lemma_idempotent_order_write(
    groups: Seq<String>,
    items: Seq<ItemRow>,
    locs: Seq<i16>,
    orders: Seq<OrderRow>,
    batch: Seq<MarketOrder>,
)
    requires
        unique_keys(batch),
    ensures
        ({
            let rows = item_rows_spec(
                order_group_col(batch),
                order_name_col(batch),
                order_ench_col(batch),
            );
            let g1 = add_groups(groups, order_group_col(batch));
            let it1 = add_items(items, rows);
            let l1 = add_locations(locs, order_loc_col(batch));
            let o1 = apply_orders(orders, batch, it1, l1);
            &&& add_groups(g1, order_group_col(batch)) == g1
            &&& add_items(it1, rows) == it1
            &&& add_locations(l1, order_loc_col(batch)) == l1
            &&& apply_orders(o1, batch, it1, l1) == o1
        }),
{
    let rows = item_rows_spec(
        order_group_col(batch),
        order_name_col(batch),
        order_ench_col(batch),
    );
    lemma_idempotent_group_insert(groups, order_group_col(batch));
    lemma_idempotent_item_insert(items, rows);
    lemma_idempotent_location_insert(locs, order_loc_col(batch));
    lemma_idempotent_order_upsert(
        orders,
        batch,
        add_items(items, rows),
        add_locations(locs, order_loc_col(batch)),
    );
}

/// Idempotent primary write, assembled for one history batch, as
/// `Store::insert_market_histories` performs it.
pub proof fn lemma_idempotent_history_write(
    groups: Seq<String>,
    items: Seq<ItemRow>,
    locs: Seq<i16>,
    histories: Seq<HistoryRow>,
    batch: Seq<HistoryRecord>,
)
    requires
        unique_keys(batch),
    ensures
        ({
            let rows = item_rows_spec(
                crate::store::history_group_col(batch),
                crate::store::history_name_col(batch),
                crate::store::history_ench_col(batch),
            );
            let g1 = add_groups(groups, crate::store::history_group_col(batch));
            let it1 = add_items(items, rows);
            let l1 = add_locations(locs, crate::store::history_loc_col(batch));
            let h1 = apply_histories(histories, batch, it1, l1);
            &&& add_groups(g1, crate::store::history_group_col(batch)) == g1
            &&& add_items(it1, rows) == it1
            &&& add_locations(l1, crate::store::history_loc_col(batch)) == l1
            &&& apply_histories(h1, batch, it1, l1) == h1
        }),
{
    let rows = item_rows_spec(
        crate::store::history_group_col(batch),
        crate::store::history_name_col(batch),
        crate::store::history_ench_col(batch),
    );
    lemma_idempotent_group_insert(groups, crate::store::history_group_col(batch));
    lemma_idempotent_item_insert(items, rows);
    lemma_idempotent_location_insert(locs, crate::store::history_loc_col(batch));
    lemma_idempotent_history_upsert(
        histories,
        batch,
        add_items(items, rows),
        add_locations(locs, crate::store::history_loc_col(batch)),
    );
}

/// The backup table contents after a run of flushes, each appending its
/// batch.
pub open spec fn run_order_backups(base: Seq<OrderRow>, batches: Seq<Seq<MarketOrder>>) -> Seq<
    OrderRow,
>
    decreases batches.len(),
{
    if batches.len() == 0 {
        base
    } else {
        run_order_backups(base, batches.drop_last()) + order_rows_of(batches.last())
    }
}

/// The history backup table contents after a run of flushes.
pub open spec fn run_history_backups(base: Seq<HistoryRow>, batches: Seq<Seq<HistoryRecord>>) -> Seq<
    HistoryRow,
>
    decreases batches.len(),
{
    if batches.len() == 0 {
        base
    } else {
        run_history_backups(base, batches.drop_last()) + history_rows_of(batches.last())
    }
}

/// Backup append-only: after `n` flushes of `m` (deduplicated) order events
/// each, the backup table has grown by exactly `n * m` rows — duplicate
/// identity keys across flushes notwithstanding, since nothing is ever
/// deleted or deduplicated across batches.
pub proof fn lemma_order_backup_append_only(
    base: Seq<OrderRow>,
    batches: Seq<Seq<MarketOrder>>,
    m: nat,
)
    requires
        forall|i: int| 0 <= i < batches.len() ==> (#[trigger] batches[i]).len() == m,
    ensures
        run_order_backups(base, batches).len() == base.len() + batches.len() * m,
    decreases batches.len(),
{
    if batches.len() == 0 {
        assert(batches.len() * m == 0) by (nonlinear_arith)
            requires batches.len() == 0,
        ;
    } else {
        lemma_order_backup_append_only(base, batches.drop_last(), m);
        assert(batches[batches.len() - 1].len() == m);
        assert((batches.len() - 1) * m + m == batches.len() * m) by (nonlinear_arith);
    }
}

/// Backup append-only for history records: after `n` flushes of `m` records
/// each, the backup table has grown by exactly `n * m` rows.
pub proof fn lemma_history_backup_append_only(
    base: Seq<HistoryRow>,
    batches: Seq<Seq<HistoryRecord>>,
    m: nat,
)
    requires
        forall|i: int| 0 <= i < batches.len() ==> (#[trigger] batches[i]).len() == m,
    ensures
        run_history_backups(base, batches).len() == base.len() + batches.len() * m,
    decreases batches.len(),
{
    if batches.len() == 0 {
        assert(batches.len() * m == 0) by (nonlinear_arith)
            requires batches.len() == 0,
        ;
    } else {
        lemma_history_backup_append_only(base, batches.drop_last(), m);
        assert(batches[batches.len() - 1].len() == m);
        assert((batches.len() - 1) * m + m == batches.len() * m) by (nonlinear_arith);
    }
}

} // verus!
