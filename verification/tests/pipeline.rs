use market_ingest::buffer::Buffer;
use market_ingest::dedup::{dedup_batch, newest_first};
use market_ingest::ingest::ingest_event;
use market_ingest::models::nats::{MarketHistories, MarketHistory, MarketOrder};
use market_ingest::scheduler::FlushScheduler;
use market_ingest::store::{history_columns, order_columns, Store};
use market_ingest::writer::{flush_market_histories, flush_market_orders, history_records};

fn order(id: i64, price: i64) -> MarketOrder {
    MarketOrder {
        id,
        item_unique_name: String::from("T4_BAG@2"),
        item_group_name: String::from("T4_BAG"),
        location_id: 7,
        quality_level: 1,
        enchantment_level: 2,
        unit_price_silver: price,
        amount: 1,
        auction_type: String::from("offer"),
        expires_at: 1_714_564_800_000,
    }
}

fn histories(silver_first: i64, silver_second: i64) -> MarketHistories {
    MarketHistories {
        id: 99,
        item_unique_name: String::from("T5_SWORD@1"),
        location_id: 3005,
        quality_level: 2,
        timescale: 6,
        market_histories: vec![
            MarketHistory { item_amount: 10, silver_amount: silver_first, timestamp: 100 },
            MarketHistory { item_amount: 4, silver_amount: silver_second, timestamp: 200 },
        ],
    }
}

#[test]
fn buffer_append_then_drain_keeps_order() {
    let mut buf: Buffer<MarketOrder> = Buffer::new();
    assert!(buf.peek_empty());
    buf.append(order(1, 10));
    buf.append(order(2, 20));
    assert_eq!(buf.len(), 2);
    assert!(!buf.peek_empty());
    let batch = buf.drain_all();
    assert_eq!(batch.len(), 2);
    assert_eq!(batch[0].id, 1);
    assert_eq!(batch[1].id, 2);
    assert!(buf.peek_empty());
}

#[test]
fn buffer_requeue_appends_at_tail() {
    let mut buf: Buffer<MarketOrder> = Buffer::new();
    buf.append(order(3, 30));
    let drained = buf.drain_all();
    buf.append(order(4, 40));
    buf.requeue(drained);
    let batch = buf.drain_all();
    assert_eq!(batch.len(), 2);
    assert_eq!(batch[0].id, 4);
    assert_eq!(batch[1].id, 3);
}

#[test]
fn no_loss_on_drain_scenario() {
    let mut buf: Buffer<MarketOrder> = Buffer::new();
    buf.append(order(1, 10));
    buf.append(order(2, 20));
    let first = buf.drain_all();
    buf.append(order(3, 30));
    let second = buf.drain_all();
    let drained_ids: Vec<i64> =
        first.iter().chain(second.iter()).map(|e| e.id).collect();
    assert_eq!(drained_ids, vec![1, 2, 3]);
    assert!(buf.peek_empty());
}

#[test]
fn ingest_appends_decoded_events_only() {
    let mut buf: Buffer<MarketOrder> = Buffer::new();
    assert!(ingest_event(&mut buf, Some(order(5, 50))));
    assert!(!ingest_event(&mut buf, None));
    assert_eq!(buf.len(), 1);
}

#[test]
fn scheduler_flushes_unless_empty_and_stops_on_shutdown() {
    let mut s = FlushScheduler::new();
    let d = s.on_wake(false, true);
    assert!(!d.flush);
    assert!(!d.stop);
    let d = s.on_wake(false, false);
    assert!(d.flush);
    assert!(!d.stop);
    let d = s.on_wake(true, false);
    assert!(d.flush);
    assert!(d.stop);
}

#[test]
fn dedup_keeps_first_occurrence_of_each_key() {
    let batch = vec![order(1, 10), order(2, 20), order(1, 30)];
    let deduped = dedup_batch(&batch);
    assert_eq!(deduped.len(), 2);
    assert_eq!(deduped[0].id, 1);
    assert_eq!(deduped[0].unit_price_silver, 10);
    assert_eq!(deduped[1].id, 2);
}

#[test]
fn newest_first_reverses_arrival_order() {
    let batch = vec![order(1, 10), order(2, 20)];
    let rev = newest_first(&batch);
    assert_eq!(rev[0].id, 2);
    assert_eq!(rev[1].id, 1);
}

#[test]
fn order_columns_split_batch_fields() {
    let batch = vec![order(1, 10), order(2, 20)];
    let cols = order_columns(&batch);
    assert_eq!(cols.ids, vec![1, 2]);
    assert_eq!(cols.unit_prices_silver, vec![10, 20]);
    assert_eq!(cols.item_group_names, vec!["T4_BAG", "T4_BAG"]);
    assert_eq!(cols.location_ids, vec![7, 7]);
}

#[test]
fn dedup_tie_break_stores_latest_values() {
    // Two events with the same id, appended a then b: b's values win.
    let mut buf: Buffer<MarketOrder> = Buffer::new();
    let mut store = Store::new();
    buf.append(order(7, 10));
    buf.append(order(7, 20));
    let n = flush_market_orders(&mut buf, &mut store, true, true);
    assert_eq!(n, Some(1));
    assert_eq!(store.orders_len(), 1);
    let row = store.get_order(7).expect("stored");
    assert_eq!(row.unit_price_silver, 20);
    assert_eq!(store.order_backup_len(), 1);
    assert!(buf.peek_empty());
}

#[test]
fn idempotent_order_upsert_scenario() {
    let mut store = Store::new();
    let batch = vec![order(2, 22), order(1, 11)];
    let n1 = store.insert_market_orders(&batch);
    assert_eq!(n1, 2);
    let len_once = store.orders_len();
    let price_once = store.get_order(1).expect("stored").unit_price_silver;
    let n2 = store.insert_market_orders(&batch);
    assert_eq!(n2, 2);
    assert_eq!(store.orders_len(), len_once);
    assert_eq!(store.get_order(1).expect("stored").unit_price_silver, price_once);
    assert_eq!(store.items_len(), 1);
    assert_eq!(store.locations_len(), 1);
}

#[test]
fn backup_grows_by_batch_size_each_flush() {
    // Three flushes of two events each, same ids every time: the canonical
    // table stays at two rows, the backup grows to exactly 3 * 2.
    let mut buf: Buffer<MarketOrder> = Buffer::new();
    let mut store = Store::new();
    let mut cycles: i64 = 0;
    while cycles < 3 {
        buf.append(order(1, 10 + cycles));
        buf.append(order(2, 20 + cycles));
        let n = flush_market_orders(&mut buf, &mut store, true, true);
        assert_eq!(n, Some(2));
        cycles += 1;
    }
    assert_eq!(store.order_backup_len(), 6);
    assert_eq!(store.orders_len(), 2);
}

#[test]
fn final_drain_writes_everything_buffered() {
    // A shutdown signal arrives while three events are buffered: the cycle
    // still flushes, the write covers all of them, and the scheduler stops.
    let mut buf: Buffer<MarketOrder> = Buffer::new();
    let mut store = Store::new();
    let mut sched = FlushScheduler::new();
    buf.append(order(1, 10));
    buf.append(order(2, 20));
    buf.append(order(3, 30));
    let d = sched.on_wake(true, buf.peek_empty());
    assert!(d.flush);
    assert!(d.stop);
    let n = flush_market_orders(&mut buf, &mut store, true, true);
    assert_eq!(n, Some(3));
    assert!(store.get_order(1).is_some());
    assert!(store.get_order(2).is_some());
    assert!(store.get_order(3).is_some());
    assert!(buf.peek_empty());
}

#[test]
fn retry_requeue_recovers_from_one_failure() {
    // The primary write fails once; the batch is re-queued, and the next
    // successful cycle writes all three ids.
    let mut buf: Buffer<MarketOrder> = Buffer::new();
    let mut store = Store::new();
    buf.append(order(1, 10));
    buf.append(order(2, 20));
    buf.append(order(3, 30));
    let n = flush_market_orders(&mut buf, &mut store, false, false);
    assert_eq!(n, None);
    assert_eq!(buf.len(), 3);
    assert_eq!(store.orders_len(), 0);
    let n = flush_market_orders(&mut buf, &mut store, true, true);
    assert_eq!(n, Some(3));
    assert!(store.get_order(1).is_some());
    assert!(store.get_order(2).is_some());
    assert!(store.get_order(3).is_some());
    assert!(buf.peek_empty());
}

#[test]
fn backup_failure_leaves_primary_write_alone() {
    let mut buf: Buffer<MarketOrder> = Buffer::new();
    let mut store = Store::new();
    buf.append(order(1, 10));
    let n = flush_market_orders(&mut buf, &mut store, true, false);
    assert_eq!(n, Some(1));
    assert_eq!(store.orders_len(), 1);
    assert_eq!(store.order_backup_len(), 0);
}

#[test]
fn flush_on_empty_buffer_writes_nothing() {
    let mut buf: Buffer<MarketOrder> = Buffer::new();
    let mut store = Store::new();
    let n = flush_market_orders(&mut buf, &mut store, true, true);
    assert_eq!(n, Some(0));
    assert_eq!(store.orders_len(), 0);
    assert_eq!(store.order_backup_len(), 0);
}

#[test]
fn history_records_flatten_and_derive_dimensions() {
    let events = vec![histories(5000, 2000)];
    let recs = history_records(&events, 999);
    assert_eq!(recs.len(), 2);
    assert_eq!(recs[0].item_unique_name, "T5_SWORD@1");
    assert_eq!(recs[0].item_group_name, "T5_SWORD");
    assert_eq!(recs[0].enchantment_level, 1);
    assert_eq!(recs[0].location_id, 3005);
    assert_eq!(recs[0].silver_amount, 5000);
    assert_eq!(recs[0].timestamp, 100);
    assert_eq!(recs[0].updated_at, 999);
    assert_eq!(recs[1].silver_amount, 2000);
    assert_eq!(recs[1].timestamp, 200);
    let cols = history_columns(&recs);
    assert_eq!(cols.item_group_names, vec!["T5_SWORD", "T5_SWORD"]);
    assert_eq!(cols.enchantment_levels, vec![1, 1]);
}

#[test]
fn flush_histories_upserts_by_composite_key() {
    let mut buf: Buffer<MarketHistories> = Buffer::new();
    let mut store = Store::new();
    buf.append(histories(5000, 2000));
    // Same keys observed again with new amounts: the later event wins.
    buf.append(histories(5500, 2200));
    let n = flush_market_histories(&mut buf, &mut store, 999, true, true);
    assert_eq!(n, Some(2));
    assert_eq!(store.histories_len(), 2);
    let key_item = String::from("T5_SWORD@1");
    let row = store.get_history(&key_item, 3005, 2, 6, 100).expect("stored");
    assert_eq!(row.silver_amount, 5500);
    assert_eq!(row.updated_at, 999);
    let row = store.get_history(&key_item, 3005, 2, 6, 200).expect("stored");
    assert_eq!(row.silver_amount, 2200);
    assert_eq!(store.history_backup_len(), 2);
    assert!(store.has_item_named(&key_item));
    assert!(store.has_location(3005));
    assert_eq!(store.item_groups_len(), 1);
    assert!(buf.peek_empty());
}

#[test]
fn flush_histories_requeues_on_failure() {
    let mut buf: Buffer<MarketHistories> = Buffer::new();
    let mut store = Store::new();
    buf.append(histories(5000, 2000));
    let n = flush_market_histories(&mut buf, &mut store, 999, false, false);
    assert_eq!(n, None);
    assert_eq!(buf.len(), 1);
    assert_eq!(store.histories_len(), 0);
    let n = flush_market_histories(&mut buf, &mut store, 999, true, true);
    assert_eq!(n, Some(2));
    assert_eq!(store.histories_len(), 2);
}
