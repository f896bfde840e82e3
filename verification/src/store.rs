//! A model of the relational store, precise enough to state and prove what
//! the batch writer's bulk statements do.
//!
//! Two canonical tables are keyed by identity (orders by id, histories by
//! their composite key) with upsert-on-conflict semantics, two backup tables
//! are append-only logs, and the dimension tables (item groups, items,
//! locations) take insert-if-absent writes. An upsert applies an event only
//! when its referenced dimension keys are already known, silently dropping
//! the rest; the batch writer inserts the batch's own dimensions first, so in
//! a full flush nothing is dropped.

use vstd::prelude::*;

use crate::dedup::Keyed;
use crate::models::db::HistoryRecord;
use crate::models::nats::MarketOrder;

verus! {

broadcast use vstd::seq_lib::group_seq_lib_default;

/// A row of the item dimension table, keyed by `unique_name`.
#[derive(Debug)]
pub struct ItemRow {
    pub unique_name: String,
    pub item_group_name: String,
    pub enchantment_level: i16,
}

/// A row of the canonical market-order table, keyed by `id`.
#[derive(Debug)]
pub struct OrderRow {
    pub id: i64,
    pub item_unique_name: String,
    pub location_id: i16,
    pub quality_level: i16,
    pub unit_price_silver: i64,
    pub amount: i64,
    pub auction_type: String,
    pub expires_at: i64,
}

/// A row of the canonical market-history table, keyed by item, location,
/// quality, timescale and timestamp.
#[derive(Debug)]
pub struct HistoryRow {
    pub item_unique_name: String,
    pub location_id: i16,
    pub quality_level: i16,
    pub silver_amount: i64,
    pub item_amount: i64,
    pub timescale: i16,
    pub timestamp: i64,
    pub updated_at: i64,
}

/// The canonical order row an event maps to.
pub open spec fn order_row_of(e: MarketOrder) -> OrderRow {
    OrderRow {
        id: e.id,
        item_unique_name: e.item_unique_name,
        location_id: e.location_id,
        quality_level: e.quality_level,
        unit_price_silver: e.unit_price_silver,
        amount: e.amount,
        auction_type: e.auction_type,
        expires_at: e.expires_at,
    }
}

/// The canonical history row a record maps to.
pub open spec fn history_row_of(r: HistoryRecord) -> HistoryRow {
    HistoryRow {
        item_unique_name: r.item_unique_name,
        location_id: r.location_id,
        quality_level: r.quality_level,
        silver_amount: r.silver_amount,
        item_amount: r.item_amount,
        timescale: r.timescale,
        timestamp: r.timestamp,
        updated_at: r.updated_at,
    }
}

/// Is a group name present in the group table?
pub open spec fn has_group(gs: Seq<String>, name: Seq<char>) -> bool {
    exists|i: int| 0 <= i < gs.len() && gs[i]@ == name
}

/// The group table after inserting each given name that is not yet present,
/// in order.
pub open spec fn add_groups(gs: Seq<String>, new: Seq<String>) -> Seq<String>
    decreases new.len(),
{
    if new.len() == 0 {
        gs
    } else {
        let pre = add_groups(gs, new.drop_last());
        if has_group(pre, new.last()@) {
            pre
        } else {
            pre.push(new.last())
        }
    }
}

/// Is an item name present in the item table?
pub open spec fn has_item(items: Seq<ItemRow>, name: Seq<char>) -> bool {
    exists|i: int| 0 <= i < items.len() && items[i].unique_name@ == name
}

/// The item table after inserting each given row whose name is not yet
/// present, in order; an existing row is left as it is.
pub open spec fn add_items(items: Seq<ItemRow>, new: Seq<ItemRow>) -> Seq<ItemRow>
    decreases new.len(),
{
    if new.len() == 0 {
        items
    } else {
        let pre = add_items(items, new.drop_last());
        if has_item(pre, new.last().unique_name@) {
            pre
        } else {
            pre.push(new.last())
        }
    }
}

/// The location table after inserting each given id that is not yet present.
pub open spec fn add_locations(locs: Seq<i16>, new: Seq<i16>) -> Seq<i16>
    decreases new.len(),
{
    if new.len() == 0 {
        locs
    } else {
        let pre = add_locations(locs, new.drop_last());
        if pre.contains(new.last()) {
            pre
        } else {
            pre.push(new.last())
        }
    }
}

/// Inserting names can only grow the set of known group names.
pub proof fn lemma_add_groups_keeps(gs: Seq<String>, new: Seq<String>, name: Seq<char>)
    requires
        has_group(gs, name) || (exists|i: int| 0 <= i < new.len() && new[i]@ == name),
    ensures
        has_group(add_groups(gs, new), name),
    decreases new.len(),
{
    if new.len() == 0 {
    } else {
        let pre = add_groups(gs, new.drop_last());
        if has_group(gs, name) || (exists|i: int| 0 <= i < new.drop_last().len()
            && new.drop_last()[i]@ == name) {
            lemma_add_groups_keeps(gs, new.drop_last(), name);
            if !has_group(pre, new.last()@) {
                let i = choose|i: int| 0 <= i < pre.len() && pre[i]@ == name;
                assert(add_groups(gs, new)[i]@ == name);
            }
        } else {
            let i = choose|i: int| 0 <= i < new.len() && new[i]@ == name;
            if i < new.len() - 1 {
                assert(new.drop_last()[i]@ == name);
            }
            assert(i == new.len() - 1);
            if has_group(pre, new.last()@) {
                let j = choose|j: int| 0 <= j < pre.len() && pre[j]@ == name;
                assert(add_groups(gs, new)[j]@ == name);
            } else {
                assert(add_groups(gs, new).last()@ == name);
            }
        }
    }
}

/// Inserting rows can only grow the set of known item names.
pub proof fn lemma_add_items_keeps(items: Seq<ItemRow>, new: Seq<ItemRow>, name: Seq<char>)
    requires
        has_item(items, name) || (exists|i: int|
            0 <= i < new.len() && new[i].unique_name@ == name),
    ensures
        has_item(add_items(items, new), name),
    decreases new.len(),
{
    if new.len() == 0 {
    } else {
        let pre = add_items(items, new.drop_last());
        if has_item(items, name) || (exists|i: int| 0 <= i < new.drop_last().len()
            && new.drop_last()[i].unique_name@ == name) {
            lemma_add_items_keeps(items, new.drop_last(), name);
            if !has_item(pre, new.last().unique_name@) {
                let i = choose|i: int| 0 <= i < pre.len() && pre[i].unique_name@ == name;
                assert(add_items(items, new)[i].unique_name@ == name);
            }
        } else {
            let i = choose|i: int| 0 <= i < new.len() && new[i].unique_name@ == name;
            if i < new.len() - 1 {
                assert(new.drop_last()[i].unique_name@ == name);
            }
            assert(i == new.len() - 1);
            if has_item(pre, new.last().unique_name@) {
                let j = choose|j: int| 0 <= j < pre.len() && pre[j].unique_name@ == name;
                assert(add_items(items, new)[j].unique_name@ == name);
            } else {
                assert(add_items(items, new).last().unique_name@ == name);
            }
        }
    }
}

/// Inserting ids can only grow the set of known locations.
pub proof fn lemma_add_locations_keeps(locs: Seq<i16>, new: Seq<i16>, id: i16)
    requires
        locs.contains(id) || new.contains(id),
    ensures
        add_locations(locs, new).contains(id),
    decreases new.len(),
{
    if new.len() == 0 {
    } else {
        let pre = add_locations(locs, new.drop_last());
        if locs.contains(id) || new.drop_last().contains(id) {
            lemma_add_locations_keeps(locs, new.drop_last(), id);
            if !pre.contains(new.last()) {
                let i = choose|i: int| 0 <= i < pre.len() && pre[i] == id;
                assert(add_locations(locs, new)[i] == id);
            }
        } else {
            let i = choose|i: int| 0 <= i < new.len() && new[i] == id;
            if i < new.len() - 1 {
                assert(new.drop_last()[i] == id);
            }
            assert(i == new.len() - 1);
            if pre.contains(new.last()) {
                let j = choose|j: int| 0 <= j < pre.len() && pre[j] == id;
                assert(add_locations(locs, new)[j] == id);
            } else {
                assert(add_locations(locs, new).last() == id);
            }
        }
    }
}

/// The relational store: dimension tables, the two canonical tables, and the
/// two append-only backup tables.
pub struct Store {
    item_groups: Vec<String>,
    items: Vec<ItemRow>,
    locations: Vec<i16>,
    market_orders: Vec<OrderRow>,
    market_order_backup: Vec<OrderRow>,
    market_histories: Vec<HistoryRow>,
    market_history_backup: Vec<HistoryRow>,
}

impl Store {
    /// The group dimension table.
    pub closed spec fn item_groups(&self) -> Seq<String> {
        self.item_groups@
    }

    /// The item dimension table.
    pub closed spec fn items(&self) -> Seq<ItemRow> {
        self.items@
    }

    /// The location dimension table.
    pub closed spec fn locations(&self) -> Seq<i16> {
        self.locations@
    }

    /// The canonical market-order table.
    pub closed spec fn market_orders(&self) -> Seq<OrderRow> {
        self.market_orders@
    }

    /// The market-order backup table.
    pub closed spec fn market_order_backup(&self) -> Seq<OrderRow> {
        self.market_order_backup@
    }

    /// The canonical market-history table.
    pub closed spec fn market_histories(&self) -> Seq<HistoryRow> {
        self.market_histories@
    }

    /// The market-history backup table.
    pub closed spec fn market_history_backup(&self) -> Seq<HistoryRow> {
        self.market_history_backup@
    }

    /// An empty store.
    pub fn new() -> (s: Store)
        ensures
            s.item_groups() == Seq::<String>::empty(),
            s.items() == Seq::<ItemRow>::empty(),
            s.locations() == Seq::<i16>::empty(),
            s.market_orders() == Seq::<OrderRow>::empty(),
            s.market_order_backup() == Seq::<OrderRow>::empty(),
            s.market_histories() == Seq::<HistoryRow>::empty(),
            s.market_history_backup() == Seq::<HistoryRow>::empty(),
    {
        Store {
            item_groups: Vec::new(),
            items: Vec::new(),
            locations: Vec::new(),
            market_orders: Vec::new(),
            market_order_backup: Vec::new(),
            market_histories: Vec::new(),
            market_history_backup: Vec::new(),
        }
    }
}

/// The group-name column of an order batch.
pub open spec fn order_group_col(b: Seq<MarketOrder>) -> Seq<String> {
    b.map_values(|e: MarketOrder| e.item_group_name)
}

/// The item-name column of an order batch.
pub open spec fn order_name_col(b: Seq<MarketOrder>) -> Seq<String> {
    b.map_values(|e: MarketOrder| e.item_unique_name)
}

/// The enchantment-level column of an order batch.
pub open spec fn order_ench_col(b: Seq<MarketOrder>) -> Seq<i16> {
    b.map_values(|e: MarketOrder| e.enchantment_level)
}

/// The location column of an order batch.
pub open spec fn order_loc_col(b: Seq<MarketOrder>) -> Seq<i16> {
    b.map_values(|e: MarketOrder| e.location_id)
}

/// The item rows named by parallel dimension columns.
pub open spec fn item_rows_spec(groups: Seq<String>, names: Seq<String>, ench: Seq<i16>) -> Seq<
    ItemRow,
> {
    Seq::new(
        names.len(),
        |i: int|
            ItemRow {
                unique_name: names[i],
                item_group_name: groups[i],
                enchantment_level: ench[i],
            },
    )
}

/// Is an order id present in the canonical order table?
pub open spec fn order_key_in(rows: Seq<OrderRow>, id: i64) -> bool {
    exists|i: int| 0 <= i < rows.len() && rows[i].id == id
}

/// The order table with every row of the given id removed.
pub open spec fn remove_order(rows: Seq<OrderRow>, id: i64) -> Seq<OrderRow>
    decreases rows.len(),
{
    if rows.len() == 0 {
        Seq::empty()
    } else {
        let pre = remove_order(rows.drop_last(), id);
        if rows.last().id == id {
            pre
        } else {
            pre.push(rows.last())
        }
    }
}

/// Are an order event's referenced dimension keys known to the store?
pub open spec fn order_dims_known(items: Seq<ItemRow>, locs: Seq<i16>, e: MarketOrder) -> bool {
    has_item(items, e.item_unique_name@) && locs.contains(e.location_id)
}

/// The canonical order table after the primary upsert of a batch: each event
/// whose dimensions are known replaces any stored row of its id (a delete
/// followed by an insert); the rest are silently dropped.
pub open spec fn apply_orders(
    rows: Seq<OrderRow>,
    batch: Seq<MarketOrder>,
    items: Seq<ItemRow>,
    locs: Seq<i16>,
) -> Seq<OrderRow>
    decreases batch.len(),
{
    if batch.len() == 0 {
        rows
    } else {
        let pre = apply_orders(rows, batch.drop_last(), items, locs);
        let e = batch.last();
        if order_dims_known(items, locs, e) {
            remove_order(pre, e.id).push(order_row_of(e))
        } else {
            pre
        }
    }
}

/// How many events of a batch the primary upsert applies: those with known
/// dimensions.
pub open spec fn kept_order_count(batch: Seq<MarketOrder>, items: Seq<ItemRow>, locs: Seq<
    i16,
>) -> nat
    decreases batch.len(),
{
    if batch.len() == 0 {
        0
    } else {
        kept_order_count(batch.drop_last(), items, locs) + if order_dims_known(
            items,
            locs,
            batch.last(),
        ) {
            1nat
        } else {
            0nat
        }
    }
}

/// The backup rows of an order batch.
pub open spec fn order_rows_of(b: Seq<MarketOrder>) -> Seq<OrderRow> {
    b.map_values(|e: MarketOrder| order_row_of(e))
}

/// The group-name column of a history batch.
pub open spec fn history_group_col(b: Seq<HistoryRecord>) -> Seq<String> {
    b.map_values(|r: HistoryRecord| r.item_group_name)
}

/// The item-name column of a history batch.
pub open spec fn history_name_col(b: Seq<HistoryRecord>) -> Seq<String> {
    b.map_values(|r: HistoryRecord| r.item_unique_name)
}

/// The enchantment-level column of a history batch.
pub open spec fn history_ench_col(b: Seq<HistoryRecord>) -> Seq<i16> {
    b.map_values(|r: HistoryRecord| r.enchantment_level)
}

/// The location column of a history batch.
pub open spec fn history_loc_col(b: Seq<HistoryRecord>) -> Seq<i16> {
    b.map_values(|r: HistoryRecord| r.location_id)
}

/// The identity key of a stored history row.
pub open spec fn history_row_key(row: HistoryRow) -> (Seq<char>, i16, i16, i16, i64) {
    (row.item_unique_name@, row.location_id, row.quality_level, row.timescale, row.timestamp)
}

/// Is a history key present in the canonical history table?
pub open spec fn history_key_in(rows: Seq<HistoryRow>, k: (Seq<char>, i16, i16, i16, i64)) -> bool {
    exists|i: int| 0 <= i < rows.len() && history_row_key(rows[i]) == k
}

/// The history table with every row of `row`'s key updated in place to carry
/// `row`'s value fields (the conflict branch of the upsert).
pub open spec fn replace_history(rows: Seq<HistoryRow>, row: HistoryRow) -> Seq<HistoryRow> {
    rows.map_values(
        |x: HistoryRow|
            if history_row_key(x) == history_row_key(row) {
                row
            } else {
                x
            },
    )
}

/// Are a history record's referenced dimension keys known to the store?
pub open spec fn history_dims_known(items: Seq<ItemRow>, locs: Seq<i16>, r: HistoryRecord) -> bool {
    has_item(items, r.item_unique_name@) && locs.contains(r.location_id)
}

/// One record's upsert: update the stored row of the same key in place, or
/// insert a new row.
pub open spec fn upsert_history_one(rows: Seq<HistoryRow>, r: HistoryRecord) -> Seq<HistoryRow> {
    if history_key_in(rows, r.key()) {
        replace_history(rows, history_row_of(r))
    } else {
        rows.push(history_row_of(r))
    }
}

/// The canonical history table after the primary upsert of a batch: each
/// record with known dimensions is inserted, or updates the row of its key on
/// conflict; the rest are silently dropped.
pub open spec fn apply_histories(
    rows: Seq<HistoryRow>,
    batch: Seq<HistoryRecord>,
    items: Seq<ItemRow>,
    locs: Seq<i16>,
) -> Seq<HistoryRow>
    decreases batch.len(),
{
    if batch.len() == 0 {
        rows
    } else {
        let pre = apply_histories(rows, batch.drop_last(), items, locs);
        let r = batch.last();
        if history_dims_known(items, locs, r) {
            upsert_history_one(pre, r)
        } else {
            pre
        }
    }
}

/// How many records of a batch the primary upsert applies: those with known
/// dimensions.
pub open spec fn kept_history_count(batch: Seq<HistoryRecord>, items: Seq<ItemRow>, locs: Seq<
    i16,
>) -> nat
    decreases batch.len(),
{
    if batch.len() == 0 {
        0
    } else {
        kept_history_count(batch.drop_last(), items, locs) + if history_dims_known(
            items,
            locs,
            batch.last(),
        ) {
            1nat
        } else {
            0nat
        }
    }
}

/// The backup rows of a history batch.
pub open spec fn history_rows_of(b: Seq<HistoryRecord>) -> Seq<HistoryRow> {
    b.map_values(|r: HistoryRecord| history_row_of(r))
}

/// Is a group name present, as an executable check.
fn group_present(gs: &Vec<String>, name: &String) -> (r: bool)
    ensures
        r == has_group(gs@, name@),
{
    let mut i: usize = 0;
    while i < gs.len()
        invariant
            0 <= i <= gs@.len(),
            forall|j: int| 0 <= j < i ==> gs@[j]@ != name@,
        decreases gs@.len() - i,
    {
        if gs[i] == *name {
            return true;
        }
        i += 1;
    }
    false
}

/// Is an item name present, as an executable check.
fn item_present(items: &Vec<ItemRow>, name: &String) -> (r: bool)
    ensures
        r == has_item(items@, name@),
{
    let mut i: usize = 0;
    while i < items.len()
        invariant
            0 <= i <= items@.len(),
            forall|j: int| 0 <= j < i ==> items@[j].unique_name@ != name@,
        decreases items@.len() - i,
    {
        if items[i].unique_name == *name {
            return true;
        }
        i += 1;
    }
    false
}

/// Is a location id present, as an executable check.
fn location_present(locs: &Vec<i16>, id: i16) -> (r: bool)
    ensures
        r == locs@.contains(id),
{
    let mut i: usize = 0;
    while i < locs.len()
        invariant
            0 <= i <= locs@.len(),
            forall|j: int| 0 <= j < i ==> locs@[j] != id,
        decreases locs@.len() - i,
    {
        if locs[i] == id {
            return true;
        }
        i += 1;
    }
    false
}

/// Insert each given group name that is not yet present.
fn groups_grow(gs: &mut Vec<String>, new: &Vec<String>)
    ensures
        final(gs)@ == add_groups(old(gs)@, new@),
{
    let mut i: usize = 0;
    while i < new.len()
        invariant
            0 <= i <= new@.len(),
            gs@ == add_groups(old(gs)@, new@.take(i as int)),
        decreases new@.len() - i,
    {
        proof {
            let cur = new@.take(i + 1);
            assert(cur.drop_last() =~= new@.take(i as int));
            assert(cur.last() == new@[i as int]);
        }
        if !group_present(gs, &new[i]) {
            gs.push(new[i].clone());
        }
        i += 1;
    }
    proof {
        assert(new@.take(new@.len() as int) =~= new@);
    }
}

/// Insert each given item row whose name is not yet present.
fn items_grow(items: &mut Vec<ItemRow>, groups: &Vec<String>, names: &Vec<String>, ench: &Vec<i16>)
    requires
        groups@.len() == names@.len(),
        ench@.len() == names@.len(),
    ensures
        final(items)@ == add_items(old(items)@, item_rows_spec(groups@, names@, ench@)),
{
    let ghost rows = item_rows_spec(groups@, names@, ench@);
    let mut i: usize = 0;
    while i < names.len()
        invariant
            0 <= i <= names@.len(),
            rows == item_rows_spec(groups@, names@, ench@),
            groups@.len() == names@.len(),
            ench@.len() == names@.len(),
            items@ == add_items(old(items)@, rows.take(i as int)),
        decreases names@.len() - i,
    {
        proof {
            let cur = rows.take(i + 1);
            assert(cur.drop_last() =~= rows.take(i as int));
            assert(cur.last() == rows[i as int]);
        }
        if !item_present(items, &names[i]) {
            items.push(ItemRow {
                unique_name: names[i].clone(),
                item_group_name: groups[i].clone(),
                enchantment_level: ench[i],
            });
            proof {
                assert(ItemRow {
                    unique_name: names@[i as int],
                    item_group_name: groups@[i as int],
                    enchantment_level: ench@[i as int],
                } == rows[i as int]);
            }
        }
        i += 1;
    }
    proof {
        assert(rows.take(rows.len() as int) =~= rows);
    }
}

/// Insert each given location id that is not yet present.
fn locations_grow(locs: &mut Vec<i16>, new: &Vec<i16>)
    ensures
        final(locs)@ == add_locations(old(locs)@, new@),
{
    let mut i: usize = 0;
    while i < new.len()
        invariant
            0 <= i <= new@.len(),
            locs@ == add_locations(old(locs)@, new@.take(i as int)),
        decreases new@.len() - i,
    {
        proof {
            let cur = new@.take(i + 1);
            assert(cur.drop_last() =~= new@.take(i as int));
            assert(cur.last() == new@[i as int]);
        }
        if !location_present(locs, new[i]) {
            locs.push(new[i]);
        }
        i += 1;
    }
    proof {
        assert(new@.take(new@.len() as int) =~= new@);
    }
}

/// The canonical order row for one event.
fn make_order_row(e: &MarketOrder) -> (r: OrderRow)
    ensures
        r == order_row_of(*e),
{
    OrderRow {
        id: e.id,
        item_unique_name: e.item_unique_name.clone(),
        location_id: e.location_id,
        quality_level: e.quality_level,
        unit_price_silver: e.unit_price_silver,
        amount: e.amount,
        auction_type: e.auction_type.clone(),
        expires_at: e.expires_at,
    }
}

/// Delete every stored order row with the given id.
fn remove_order_rows(rows: &mut Vec<OrderRow>, id: i64)
    ensures
        final(rows)@ == remove_order(old(rows)@, id),
{
    let mut drained: Vec<OrderRow> = Vec::new();
    core::mem::swap(&mut drained, rows);
    let n = drained.len();
    let mut i: usize = 0;
    while i < n
        invariant
            0 <= i <= n,
            n == drained@.len(),
            rows@ == remove_order(drained@.take(i as int), id),
        decreases n - i,
    {
        proof {
            let cur = drained@.take(i + 1);
            assert(cur.drop_last() =~= drained@.take(i as int));
            assert(cur.last() == drained@[i as int]);
        }
        let row = &drained[i];
        if row.id != id {
            let moved = OrderRow {
                id: row.id,
                item_unique_name: row.item_unique_name.clone(),
                location_id: row.location_id,
                quality_level: row.quality_level,
                unit_price_silver: row.unit_price_silver,
                amount: row.amount,
                auction_type: row.auction_type.clone(),
                expires_at: row.expires_at,
            };
            proof {
                assert(moved == drained@[i as int]);
            }
            rows.push(moved);
        }
        i += 1;
    }
    proof {
        assert(drained@.take(n as int) =~= drained@);
    }
}

/// Apply a batch's primary upsert to the canonical order table, returning the
/// number of rows affected.
fn upsert_orders_vec(
    rows: &mut Vec<OrderRow>,
    batch: &Vec<MarketOrder>,
    items: &Vec<ItemRow>,
    locs: &Vec<i16>,
) -> (n: usize)
    ensures
        final(rows)@ == apply_orders(old(rows)@, batch@, items@, locs@),
        n == kept_order_count(batch@, items@, locs@),
{
    let mut n: usize = 0;
    let mut i: usize = 0;
    while i < batch.len()
        invariant
            0 <= i <= batch@.len(),
            n <= i,
            rows@ == apply_orders(old(rows)@, batch@.take(i as int), items@, locs@),
            n == kept_order_count(batch@.take(i as int), items@, locs@),
        decreases batch@.len() - i,
    {
        proof {
            let cur = batch@.take(i + 1);
            assert(cur.drop_last() =~= batch@.take(i as int));
            assert(cur.last() == batch@[i as int]);
        }
        let e = &batch[i];
        if item_present(items, &e.item_unique_name) && location_present(locs, e.location_id) {
            remove_order_rows(rows, e.id);
            let row = make_order_row(e);
            rows.push(row);
            n += 1;
        }
        i += 1;
    }
    proof {
        assert(batch@.take(batch@.len() as int) =~= batch@);
    }
    n
}

/// The columnar arrays an order batch is split into for the bulk statements.
pub struct OrderColumns {
    pub ids: Vec<i64>,
    pub item_unique_names: Vec<String>,
    pub item_group_names: Vec<String>,
    pub location_ids: Vec<i16>,
    pub quality_levels: Vec<i16>,
    pub enchantment_levels: Vec<i16>,
    pub unit_prices_silver: Vec<i64>,
    pub amounts: Vec<i64>,
    pub auction_types: Vec<String>,
    pub expires_ats: Vec<i64>,
}

/// Split an order batch into parallel columnar arrays, one entry per event in
/// batch order.
pub fn order_columns(batch: &Vec<MarketOrder>) -> (c: OrderColumns)
    ensures
        c.ids@ == batch@.map_values(|e: MarketOrder| e.id),
        c.item_unique_names@ == order_name_col(batch@),
        c.item_group_names@ == order_group_col(batch@),
        c.location_ids@ == order_loc_col(batch@),
        c.quality_levels@ == batch@.map_values(|e: MarketOrder| e.quality_level),
        c.enchantment_levels@ == order_ench_col(batch@),
        c.unit_prices_silver@ == batch@.map_values(|e: MarketOrder| e.unit_price_silver),
        c.amounts@ == batch@.map_values(|e: MarketOrder| e.amount),
        c.auction_types@ == batch@.map_values(|e: MarketOrder| e.auction_type),
        c.expires_ats@ == batch@.map_values(|e: MarketOrder| e.expires_at),
{
    let mut c = OrderColumns {
        ids: Vec::new(),
        item_unique_names: Vec::new(),
        item_group_names: Vec::new(),
        location_ids: Vec::new(),
        quality_levels: Vec::new(),
        enchantment_levels: Vec::new(),
        unit_prices_silver: Vec::new(),
        amounts: Vec::new(),
        auction_types: Vec::new(),
        expires_ats: Vec::new(),
    };
    let mut i: usize = 0;
    while i < batch.len()
        invariant
            0 <= i <= batch@.len(),
            c.ids@.len() == i,
            c.item_unique_names@.len() == i,
            c.item_group_names@.len() == i,
            c.location_ids@.len() == i,
            c.quality_levels@.len() == i,
            c.enchantment_levels@.len() == i,
            c.unit_prices_silver@.len() == i,
            c.amounts@.len() == i,
            c.auction_types@.len() == i,
            c.expires_ats@.len() == i,
            forall|j: int|
                0 <= j < i ==> {
                    let e = #[trigger] batch@[j];
                    &&& c.ids@[j] == e.id
                    &&& c.item_unique_names@[j] == e.item_unique_name
                    &&& c.item_group_names@[j] == e.item_group_name
                    &&& c.location_ids@[j] == e.location_id
                    &&& c.quality_levels@[j] == e.quality_level
                    &&& c.enchantment_levels@[j] == e.enchantment_level
                    &&& c.unit_prices_silver@[j] == e.unit_price_silver
                    &&& c.amounts@[j] == e.amount
                    &&& c.auction_types@[j] == e.auction_type
                    &&& c.expires_ats@[j] == e.expires_at
                },
        decreases batch@.len() - i,
    {
        let e = &batch[i];
        c.ids.push(e.id);
        c.item_unique_names.push(e.item_unique_name.clone());
        c.item_group_names.push(e.item_group_name.clone());
        c.location_ids.push(e.location_id);
        c.quality_levels.push(e.quality_level);
        c.enchantment_levels.push(e.enchantment_level);
        c.unit_prices_silver.push(e.unit_price_silver);
        c.amounts.push(e.amount);
        c.auction_types.push(e.auction_type.clone());
        c.expires_ats.push(e.expires_at);
        i += 1;
    }
    proof {
        assert(c.ids@ =~= batch@.map_values(|e: MarketOrder| e.id));
        assert(c.item_unique_names@ =~= order_name_col(batch@));
        assert(c.item_group_names@ =~= order_group_col(batch@));
        assert(c.location_ids@ =~= order_loc_col(batch@));
        assert(c.quality_levels@ =~= batch@.map_values(|e: MarketOrder| e.quality_level));
        assert(c.enchantment_levels@ =~= order_ench_col(batch@));
        assert(c.unit_prices_silver@ =~= batch@.map_values(|e: MarketOrder| e.unit_price_silver));
        assert(c.amounts@ =~= batch@.map_values(|e: MarketOrder| e.amount));
        assert(c.auction_types@ =~= batch@.map_values(|e: MarketOrder| e.auction_type));
        assert(c.expires_ats@ =~= batch@.map_values(|e: MarketOrder| e.expires_at));
    }
    c
}

impl Store {
    /// Insert the batch's item groups and items that are not yet known; an
    /// already known item keeps its stored row.
    pub fn insert_items(
        &mut self,
        item_group_names: &Vec<String>,
        item_unique_names: &Vec<String>,
        enchantment_levels: &Vec<i16>,
    )
        requires
            item_group_names@.len() == item_unique_names@.len(),
            enchantment_levels@.len() == item_unique_names@.len(),
        ensures
            final(self).item_groups() == add_groups(old(self).item_groups(), item_group_names@),
            final(self).items() == add_items(
                old(self).items(),
                item_rows_spec(item_group_names@, item_unique_names@, enchantment_levels@),
            ),
            final(self).locations() == old(self).locations(),
            final(self).market_orders() == old(self).market_orders(),
            final(self).market_order_backup() == old(self).market_order_backup(),
            final(self).market_histories() == old(self).market_histories(),
            final(self).market_history_backup() == old(self).market_history_backup(),
    {
        groups_grow(&mut self.item_groups, item_group_names);
        items_grow(&mut self.items, item_group_names, item_unique_names, enchantment_levels);
    }

    /// Insert the batch's location ids that are not yet known.
    pub fn insert_locations(&mut self, location_ids: &Vec<i16>)
        ensures
            final(self).locations() == add_locations(old(self).locations(), location_ids@),
            final(self).item_groups() == old(self).item_groups(),
            final(self).items() == old(self).items(),
            final(self).market_orders() == old(self).market_orders(),
            final(self).market_order_backup() == old(self).market_order_backup(),
            final(self).market_histories() == old(self).market_histories(),
            final(self).market_history_backup() == old(self).market_history_backup(),
    {
        locations_grow(&mut self.locations, location_ids);
    }

    /// The primary write of an order batch: make the batch's dimension keys
    /// known, then upsert each event by id — a delete of any stored row of
    /// that id followed by an insert. Returns the number of rows affected.
    ///
    /// The batch is expected newest-first and already deduplicated; the
    /// result then keeps, for each id, the most recently arrived values.
    pub fn insert_market_orders(&mut self, batch: &Vec<MarketOrder>) -> (n: usize)
        ensures
            final(self).item_groups() == add_groups(old(self).item_groups(), order_group_col(batch@)),
            final(self).items() == add_items(
                old(self).items(),
                item_rows_spec(order_group_col(batch@), order_name_col(batch@), order_ench_col(batch@)),
            ),
            final(self).locations() == add_locations(old(self).locations(), order_loc_col(batch@)),
            final(self).market_orders() == apply_orders(
                old(self).market_orders(),
                batch@,
                final(self).items(),
                final(self).locations(),
            ),
            n == kept_order_count(batch@, final(self).items(), final(self).locations()),
            final(self).market_order_backup() == old(self).market_order_backup(),
            final(self).market_histories() == old(self).market_histories(),
            final(self).market_history_backup() == old(self).market_history_backup(),
    {
        let cols = order_columns(batch);
        self.insert_items(&cols.item_group_names, &cols.item_unique_names, &cols.enchantment_levels);
        self.insert_locations(&cols.location_ids);
        upsert_orders_vec(&mut self.market_orders, batch, &self.items, &self.locations)
    }

    /// The backup write of an order batch: append one row per event to the
    /// append-only backup table, never deleting and never deduplicating
    /// across batches.
    pub fn backup_market_orders(&mut self, batch: &Vec<MarketOrder>)
        ensures
            final(self).market_order_backup() == old(self).market_order_backup() + order_rows_of(batch@),
            final(self).item_groups() == old(self).item_groups(),
            final(self).items() == old(self).items(),
            final(self).locations() == old(self).locations(),
            final(self).market_orders() == old(self).market_orders(),
            final(self).market_histories() == old(self).market_histories(),
            final(self).market_history_backup() == old(self).market_history_backup(),
    {
        let mut i: usize = 0;
        while i < batch.len()
            invariant
                0 <= i <= batch@.len(),
                self.market_order_backup@ == old(self).market_order_backup@ + order_rows_of(
                    batch@.take(i as int),
                ),
                self.item_groups@ == old(self).item_groups@,
                self.items@ == old(self).items@,
                self.locations@ == old(self).locations@,
                self.market_orders@ == old(self).market_orders@,
                self.market_histories@ == old(self).market_histories@,
                self.market_history_backup@ == old(self).market_history_backup@,
            decreases batch@.len() - i,
        {
            let row = make_order_row(&batch[i]);
            self.market_order_backup.push(row);
            proof {
                assert(self.market_order_backup@ =~= old(self).market_order_backup@
                    + order_rows_of(batch@.take(i + 1)));
            }
            i += 1;
        }
        proof {
            assert(batch@.take(batch@.len() as int) =~= batch@);
        }
    }
}

impl Store {
    /// Number of rows in the canonical order table.
    pub fn orders_len(&self) -> (n: usize)
        ensures
            n == self.market_orders().len(),
    {
        self.market_orders.len()
    }

    /// Number of rows in the canonical history table.
    pub fn histories_len(&self) -> (n: usize)
        ensures
            n == self.market_histories().len(),
    {
        self.market_histories.len()
    }

    /// Number of rows in the order backup table.
    pub fn order_backup_len(&self) -> (n: usize)
        ensures
            n == self.market_order_backup().len(),
    {
        self.market_order_backup.len()
    }

    /// Number of rows in the history backup table.
    pub fn history_backup_len(&self) -> (n: usize)
        ensures
            n == self.market_history_backup().len(),
    {
        self.market_history_backup.len()
    }

    /// Number of rows in the item dimension table.
    pub fn items_len(&self) -> (n: usize)
        ensures
            n == self.items().len(),
    {
        self.items.len()
    }

    /// Number of rows in the group dimension table.
    pub fn item_groups_len(&self) -> (n: usize)
        ensures
            n == self.item_groups().len(),
    {
        self.item_groups.len()
    }

    /// Number of rows in the location dimension table.
    pub fn locations_len(&self) -> (n: usize)
        ensures
            n == self.locations().len(),
    {
        self.locations.len()
    }

    /// The stored order row of the given id, if any.
    pub fn get_order(&self, id: i64) -> (r: Option<&OrderRow>)
        ensures
            r matches Some(row) ==> self.market_orders().contains(*row) && row.id == id,
            r is None ==> !order_key_in(self.market_orders(), id),
    {
        let mut i: usize = 0;
        while i < self.market_orders.len()
            invariant
                0 <= i <= self.market_orders().len(),
                forall|j: int| 0 <= j < i ==> (#[trigger] self.market_orders()[j]).id != id,
            decreases self.market_orders().len() - i,
        {
            if self.market_orders[i].id == id {
                return Some(&self.market_orders[i]);
            }
            i += 1;
        }
        None
    }

    /// The stored history row of the given composite key, if any.
    pub fn get_history(
        &self,
        item_unique_name: &String,
        location_id: i16,
        quality_level: i16,
        timescale: i16,
        timestamp: i64,
    ) -> (r: Option<&HistoryRow>)
        ensures
            r matches Some(row) ==> self.market_histories().contains(*row) && history_row_key(*row)
                == (item_unique_name@, location_id, quality_level, timescale, timestamp),
            r is None ==> !history_key_in(
                self.market_histories(),
                (item_unique_name@, location_id, quality_level, timescale, timestamp),
            ),
    {
        let mut i: usize = 0;
        while i < self.market_histories.len()
            invariant
                0 <= i <= self.market_histories().len(),
                forall|j: int|
                    0 <= j < i ==> history_row_key(#[trigger] self.market_histories()[j]) != (
                    item_unique_name@,
                    location_id,
                    quality_level,
                    timescale,
                    timestamp,
                ),
            decreases self.market_histories().len() - i,
        {
            let row = &self.market_histories[i];
            if row.item_unique_name == *item_unique_name && row.location_id == location_id
                && row.quality_level == quality_level && row.timescale == timescale
                && row.timestamp == timestamp {
                return Some(&self.market_histories[i]);
            }
            i += 1;
        }
        None
    }

    /// Is a location id known to the store?
    pub fn has_location(&self, id: i16) -> (r: bool)
        ensures
            r == self.locations().contains(id),
    {
        location_present(&self.locations, id)
    }

    /// Is an item name known to the store?
    pub fn has_item_named(&self, name: &String) -> (r: bool)
        ensures
            r == has_item(self.items(), name@),
    {
        item_present(&self.items, name)
    }
}

/// The canonical history row for one record.
fn make_history_row(r: &HistoryRecord) -> (row: HistoryRow)
    ensures
        row == history_row_of(*r),
{
    HistoryRow {
        item_unique_name: r.item_unique_name.clone(),
        location_id: r.location_id,
        quality_level: r.quality_level,
        silver_amount: r.silver_amount,
        item_amount: r.item_amount,
        timescale: r.timescale,
        timestamp: r.timestamp,
        updated_at: r.updated_at,
    }
}

/// Does a stored row carry the identity key of this record?
fn row_matches_record(row: &HistoryRow, r: &HistoryRecord) -> (b: bool)
    ensures
        b == (history_row_key(*row) == r.key()),
{
    row.item_unique_name == r.item_unique_name && row.location_id == r.location_id
        && row.quality_level == r.quality_level && row.timescale == r.timescale && row.timestamp
        == r.timestamp
}

/// Is the record's identity key already present, as an executable check.
fn history_key_present(rows: &Vec<HistoryRow>, r: &HistoryRecord) -> (b: bool)
    ensures
        b == history_key_in(rows@, r.key()),
{
    let mut i: usize = 0;
    while i < rows.len()
        invariant
            0 <= i <= rows@.len(),
            forall|j: int| 0 <= j < i ==> history_row_key(#[trigger] rows@[j]) != r.key(),
        decreases rows@.len() - i,
    {
        if row_matches_record(&rows[i], r) {
            return true;
        }
        i += 1;
    }
    false
}

/// Update every stored row of the record's key in place.
fn replace_history_rows(rows: &mut Vec<HistoryRow>, r: &HistoryRecord)
    ensures
        final(rows)@ == replace_history(old(rows)@, history_row_of(*r)),
{
    let n = rows.len();
    let mut i: usize = 0;
    while i < n
        invariant
            0 <= i <= n,
            n == rows@.len(),
            rows@.len() == old(rows)@.len(),
            forall|j: int|
                0 <= j < i ==> rows@[j] == (if history_row_key(#[trigger] old(rows)@[j])
                    == history_row_key(history_row_of(*r)) {
                    history_row_of(*r)
                } else {
                    old(rows)@[j]
                }),
            forall|j: int| i <= j < n ==> rows@[j] == old(rows)@[j],
        decreases n - i,
    {
        if row_matches_record(&rows[i], r) {
            let row = make_history_row(r);
            rows.set(i, row);
        }
        i += 1;
    }
    proof {
        assert(rows@ =~= replace_history(old(rows)@, history_row_of(*r)));
    }
}

/// Apply a batch's primary upsert to the canonical history table, returning
/// the number of rows affected.
fn upsert_histories_vec(
    rows: &mut Vec<HistoryRow>,
    batch: &Vec<HistoryRecord>,
    items: &Vec<ItemRow>,
    locs: &Vec<i16>,
) -> (n: usize)
    ensures
        final(rows)@ == apply_histories(old(rows)@, batch@, items@, locs@),
        n == kept_history_count(batch@, items@, locs@),
{
    let mut n: usize = 0;
    let mut i: usize = 0;
    while i < batch.len()
        invariant
            0 <= i <= batch@.len(),
            n <= i,
            rows@ == apply_histories(old(rows)@, batch@.take(i as int), items@, locs@),
            n == kept_history_count(batch@.take(i as int), items@, locs@),
        decreases batch@.len() - i,
    {
        proof {
            let cur = batch@.take(i + 1);
            assert(cur.drop_last() =~= batch@.take(i as int));
            assert(cur.last() == batch@[i as int]);
        }
        let r = &batch[i];
        if item_present(items, &r.item_unique_name) && location_present(locs, r.location_id) {
            if history_key_present(rows, r) {
                replace_history_rows(rows, r);
            } else {
                let row = make_history_row(r);
                rows.push(row);
            }
            n += 1;
        }
        i += 1;
    }
    proof {
        assert(batch@.take(batch@.len() as int) =~= batch@);
    }
    n
}

/// The columnar arrays a history batch is split into for the bulk statements.
pub struct HistoryColumns {
    pub item_unique_names: Vec<String>,
    pub item_group_names: Vec<String>,
    pub location_ids: Vec<i16>,
    pub quality_levels: Vec<i16>,
    pub enchantment_levels: Vec<i16>,
    pub timescales: Vec<i16>,
    pub silver_amounts: Vec<i64>,
    pub item_amounts: Vec<i64>,
    pub timestamps: Vec<i64>,
    pub updated_ats: Vec<i64>,
}

/// Split a history batch into parallel columnar arrays, one entry per record
/// in batch order.
pub fn history_columns(batch: &Vec<HistoryRecord>) -> (c: HistoryColumns)
    ensures
        c.item_unique_names@ == history_name_col(batch@),
        c.item_group_names@ == history_group_col(batch@),
        c.location_ids@ == history_loc_col(batch@),
        c.quality_levels@ == batch@.map_values(|r: HistoryRecord| r.quality_level),
        c.enchantment_levels@ == history_ench_col(batch@),
        c.timescales@ == batch@.map_values(|r: HistoryRecord| r.timescale),
        c.silver_amounts@ == batch@.map_values(|r: HistoryRecord| r.silver_amount),
        c.item_amounts@ == batch@.map_values(|r: HistoryRecord| r.item_amount),
        c.timestamps@ == batch@.map_values(|r: HistoryRecord| r.timestamp),
        c.updated_ats@ == batch@.map_values(|r: HistoryRecord| r.updated_at),
{
    let mut c = HistoryColumns {
        item_unique_names: Vec::new(),
        item_group_names: Vec::new(),
        location_ids: Vec::new(),
        quality_levels: Vec::new(),
        enchantment_levels: Vec::new(),
        timescales: Vec::new(),
        silver_amounts: Vec::new(),
        item_amounts: Vec::new(),
        timestamps: Vec::new(),
        updated_ats: Vec::new(),
    };
    let mut i: usize = 0;
    while i < batch.len()
        invariant
            0 <= i <= batch@.len(),
            c.item_unique_names@.len() == i,
            c.item_group_names@.len() == i,
            c.location_ids@.len() == i,
            c.quality_levels@.len() == i,
            c.enchantment_levels@.len() == i,
            c.timescales@.len() == i,
            c.silver_amounts@.len() == i,
            c.item_amounts@.len() == i,
            c.timestamps@.len() == i,
            c.updated_ats@.len() == i,
            forall|j: int|
                0 <= j < i ==> {
                    let r = #[trigger] batch@[j];
                    &&& c.item_unique_names@[j] == r.item_unique_name
                    &&& c.item_group_names@[j] == r.item_group_name
                    &&& c.location_ids@[j] == r.location_id
                    &&& c.quality_levels@[j] == r.quality_level
                    &&& c.enchantment_levels@[j] == r.enchantment_level
                    &&& c.timescales@[j] == r.timescale
                    &&& c.silver_amounts@[j] == r.silver_amount
                    &&& c.item_amounts@[j] == r.item_amount
                    &&& c.timestamps@[j] == r.timestamp
                    &&& c.updated_ats@[j] == r.updated_at
                },
        decreases batch@.len() - i,
    {
        let r = &batch[i];
        c.item_unique_names.push(r.item_unique_name.clone());
        c.item_group_names.push(r.item_group_name.clone());
        c.location_ids.push(r.location_id);
        c.quality_levels.push(r.quality_level);
        c.enchantment_levels.push(r.enchantment_level);
        c.timescales.push(r.timescale);
        c.silver_amounts.push(r.silver_amount);
        c.item_amounts.push(r.item_amount);
        c.timestamps.push(r.timestamp);
        c.updated_ats.push(r.updated_at);
        i += 1;
    }
    proof {
        assert(c.item_unique_names@ =~= history_name_col(batch@));
        assert(c.item_group_names@ =~= history_group_col(batch@));
        assert(c.location_ids@ =~= history_loc_col(batch@));
        assert(c.quality_levels@ =~= batch@.map_values(|r: HistoryRecord| r.quality_level));
        assert(c.enchantment_levels@ =~= history_ench_col(batch@));
        assert(c.timescales@ =~= batch@.map_values(|r: HistoryRecord| r.timescale));
        assert(c.silver_amounts@ =~= batch@.map_values(|r: HistoryRecord| r.silver_amount));
        assert(c.item_amounts@ =~= batch@.map_values(|r: HistoryRecord| r.item_amount));
        assert(c.timestamps@ =~= batch@.map_values(|r: HistoryRecord| r.timestamp));
        assert(c.updated_ats@ =~= batch@.map_values(|r: HistoryRecord| r.updated_at));
    }
    c
}

impl Store {
    /// The primary write of a history batch: make the batch's dimension keys
    /// known, then upsert each record by its composite key — an insert, or on
    /// conflict an in-place update of the value fields and update timestamp.
    /// Returns the number of rows affected.
    ///
    /// The batch is expected newest-first and already deduplicated; the
    /// result then keeps, for each key, the most recently arrived values.
    pub fn insert_market_histories(&mut self, batch: &Vec<HistoryRecord>) -> (n: usize)
        ensures
            final(self).item_groups() == add_groups(
                old(self).item_groups(),
                history_group_col(batch@),
            ),
            final(self).items() == add_items(
                old(self).items(),
                item_rows_spec(
                    history_group_col(batch@),
                    history_name_col(batch@),
                    history_ench_col(batch@),
                ),
            ),
            final(self).locations() == add_locations(
                old(self).locations(),
                history_loc_col(batch@),
            ),
            final(self).market_histories() == apply_histories(
                old(self).market_histories(),
                batch@,
                final(self).items(),
                final(self).locations(),
            ),
            n == kept_history_count(batch@, final(self).items(), final(self).locations()),
            final(self).market_orders() == old(self).market_orders(),
            final(self).market_order_backup() == old(self).market_order_backup(),
            final(self).market_history_backup() == old(self).market_history_backup(),
    {
        let cols = history_columns(batch);
        self.insert_items(&cols.item_group_names, &cols.item_unique_names, &cols.enchantment_levels);
        self.insert_locations(&cols.location_ids);
        upsert_histories_vec(&mut self.market_histories, batch, &self.items, &self.locations)
    }

    /// The backup write of a history batch: append one row per record to the
    /// append-only backup table, never deleting and never deduplicating
    /// across batches.
    pub fn backup_market_histories(&mut self, batch: &Vec<HistoryRecord>)
        ensures
            final(self).market_history_backup() == old(self).market_history_backup()
                + history_rows_of(batch@),
            final(self).item_groups() == old(self).item_groups(),
            final(self).items() == old(self).items(),
            final(self).locations() == old(self).locations(),
            final(self).market_orders() == old(self).market_orders(),
            final(self).market_order_backup() == old(self).market_order_backup(),
            final(self).market_histories() == old(self).market_histories(),
    {
        let mut i: usize = 0;
        while i < batch.len()
            invariant
                0 <= i <= batch@.len(),
                self.market_history_backup@ == old(self).market_history_backup@ + history_rows_of(
                    batch@.take(i as int),
                ),
                self.item_groups@ == old(self).item_groups@,
                self.items@ == old(self).items@,
                self.locations@ == old(self).locations@,
                self.market_orders@ == old(self).market_orders@,
                self.market_order_backup@ == old(self).market_order_backup@,
                self.market_histories@ == old(self).market_histories@,
            decreases batch@.len() - i,
        {
            let row = make_history_row(&batch[i]);
            self.market_history_backup.push(row);
            proof {
                assert(self.market_history_backup@ =~= old(self).market_history_backup@
                    + history_rows_of(batch@.take(i + 1)));
            }
            i += 1;
        }
        proof {
            assert(batch@.take(batch@.len() as int) =~= batch@);
        }
    }
}

} // verus!
