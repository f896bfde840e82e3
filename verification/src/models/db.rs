//! Rows as they are written to the relational store, and the conversions that
//! produce them from decoded bus events.
//!
//! Raw events carry numbers that may be absent from the payload, so the raw
//! field types are `Option`s; a conversion yields `None` as soon as any
//! required field is missing or out of the representable range.

use vstd::prelude::*;

use crate::text;
use crate::time;

verus! {

/// A canonical market-order row, keyed by `id`. The location is stored as a
/// zero-padded location code.
#[derive(Debug)]
pub struct MarketOrder {
    pub id: i64,
    pub item_unique_name: String,
    pub location_id: String,
    pub quality_level: i32,
    pub unit_price_silver: i32,
    pub amount: i32,
    pub auction_type: String,
    /// Milliseconds since the Unix epoch.
    pub expires_at: i64,
    pub created_at: i64,
    pub updated_at: i64,
}

/// A canonical market-history row, keyed by item, location, quality,
/// timescale and timestamp.
#[derive(Debug)]
pub struct MarketHistory {
    pub item_id: String,
    pub location_id: String,
    pub quality_level: i32,
    pub timescale: i32,
    /// Milliseconds since the Unix epoch.
    pub timestamp: i64,
    pub item_amount: i32,
    pub silver_amount: i32,
    pub updated_at: i64,
}

/// One flattened history sample ready for the bulk write: an event's header
/// fields joined with one of its samples, plus the group name and enchantment
/// level derived from the item's unique name. Its identity key is (item,
/// location, quality, timescale, timestamp).
#[derive(Debug)]
pub struct HistoryRecord {
    pub item_unique_name: String,
    pub item_group_name: String,
    pub location_id: i16,
    pub quality_level: i16,
    pub enchantment_level: i16,
    pub timescale: i16,
    pub silver_amount: i64,
    pub item_amount: i64,
    /// Milliseconds since the Unix epoch.
    pub timestamp: i64,
    pub updated_at: i64,
}

impl Clone for HistoryRecord {
    fn clone(&self) -> (res: Self)
        ensures
            res == *self,
    {
        HistoryRecord {
            item_unique_name: self.item_unique_name.clone(),
            item_group_name: self.item_group_name.clone(),
            location_id: self.location_id,
            quality_level: self.quality_level,
            enchantment_level: self.enchantment_level,
            timescale: self.timescale,
            silver_amount: self.silver_amount,
            item_amount: self.item_amount,
            timestamp: self.timestamp,
            updated_at: self.updated_at,
        }
    }
}

/// Raw order fields as read from a bus payload; a `None` stands for a field
/// that is absent or not an integer.
#[derive(Debug)]
pub struct RawMarketOrder {
    pub id: Option<i64>,
    pub item_id: String,
    pub location_id: Option<i64>,
    pub quality_level: Option<i64>,
    pub unit_price_silver: Option<i64>,
    pub amount: Option<i64>,
    pub auction_type: String,
    /// Wall-clock expiry string, parsed by the conversion.
    pub expires: String,
}

/// One raw history sample from a bus payload.
#[derive(Debug)]
pub struct RawMarketHistory {
    /// Wire-format tick count.
    pub timestamp: Option<i64>,
    pub item_amount: Option<i64>,
    pub silver_amount: Option<i64>,
}

/// Raw history fields as read from a bus payload.
#[derive(Debug)]
pub struct RawMarketHistories {
    pub item_id: String,
    pub location_id: i64,
    pub quality_level: Option<i64>,
    pub timescale: Option<i64>,
    pub market_histories: Vec<RawMarketHistory>,
}

/// Does a raw order decode to a row: every numeric field present and the
/// expiry string a readable date-time?
pub open spec fn order_decode_ok(raw: RawMarketOrder) -> bool {
    &&& raw.id is Some
    &&& raw.location_id is Some
    &&& raw.quality_level is Some
    &&& raw.unit_price_silver is Some
    &&& raw.amount is Some
    &&& time::datetime_millis_of(raw.expires@) is Some
}

/// How a decoded order row relates to its raw fields, with `now` the ingestion
/// instant. Numeric narrowing is stated for values inside the target range.
pub open spec fn order_row_ok(raw: RawMarketOrder, o: MarketOrder, now: int) -> bool {
    &&& o.id == raw.id->0
    &&& o.item_unique_name@ == raw.item_id@
    &&& o.location_id@ == text::location_code_spec(raw.location_id->0 as int)
    &&& (i32::MIN <= raw.quality_level->0 <= i32::MAX ==> o.quality_level == raw.quality_level->0 as i32)
    &&& (i32::MIN <= raw.unit_price_silver->0 <= i32::MAX ==> o.unit_price_silver == raw.unit_price_silver->0 as i32)
    &&& (i32::MIN <= raw.amount->0 <= i32::MAX ==> o.amount == raw.amount->0 as i32)
    &&& o.auction_type@ == raw.auction_type@
    &&& o.expires_at == time::datetime_millis_of(raw.expires@)->0
    &&& o.created_at == now
    &&& o.updated_at == now
}

impl MarketOrder {
    /// Decode a raw order into a row, with `now` as the ingestion instant;
    /// `None` when a required field is missing.
    pub fn from_nats_at(raw: &RawMarketOrder, now: i64) -> (r: Option<MarketOrder>)
        ensures
            (r is Some) == order_decode_ok(*raw),
            r matches Some(o) ==> order_row_ok(*raw, o, now as int),
    {
        let expires_at = match time::parse_datetime_millis(raw.expires.as_str()) {
            Some(v) => v,
            None => {
                return None;
            },
        };
        let id = match raw.id {
            Some(v) => v,
            None => {
                return None;
            },
        };
        let location = match raw.location_id {
            Some(v) => v,
            None => {
                return None;
            },
        };
        let quality = match raw.quality_level {
            Some(v) => v,
            None => {
                return None;
            },
        };
        let price = match raw.unit_price_silver {
            Some(v) => v,
            None => {
                return None;
            },
        };
        let amount = match raw.amount {
            Some(v) => v,
            None => {
                return None;
            },
        };
        Some(MarketOrder {
            id,
            item_unique_name: raw.item_id.clone(),
            location_id: text::location_code(location),
            quality_level: #[verifier::truncate] (quality as i32),
            unit_price_silver: #[verifier::truncate] (price as i32),
            amount: #[verifier::truncate] (amount as i32),
            auction_type: raw.auction_type.clone(),
            expires_at,
            created_at: now,
            updated_at: now,
        })
    }

    /// Decode a raw order into a row, stamping it with the current time.
    pub fn from_nats(raw: &RawMarketOrder) -> (r: Option<MarketOrder>)
        ensures
            (r is Some) == order_decode_ok(*raw),
            r matches Some(o) ==> exists|t: int| order_row_ok(*raw, o, t) && o.created_at
                == o.updated_at,
    {
        let now = crate::time::now_millis();
        let r = Self::from_nats_at(raw, now);
        proof {
            if r is Some {
                assert(order_row_ok(*raw, r->0, now as int));
            }
        }
        r
    }
}

/// Does a raw history event decode to rows: either no samples at all, or the
/// header fields present and every sample's fields present with an in-range
/// timestamp?
pub open spec fn history_decode_ok(raw: RawMarketHistories) -> bool {
    ||| raw.market_histories@.len() == 0
    ||| {
        &&& raw.quality_level is Some
        &&& raw.timescale is Some
        &&& forall|j: int|
            0 <= j < raw.market_histories@.len() ==> {
                let p = #[trigger] raw.market_histories@[j];
                &&& p.timestamp is Some
                &&& p.item_amount is Some
                &&& p.silver_amount is Some
                &&& time::millis_in_chrono_range(
                    crate::models::nats::ticks_to_epoch_spec(p.timestamp->0 as int) as i64,
                )
            }
    }
}

/// How the `j`th decoded history row relates to its raw event, with `now` the
/// ingestion instant.
pub open spec fn history_row_ok(
    raw: RawMarketHistories,
    j: int,
    row: MarketHistory,
    now: int,
) -> bool {
    let p = raw.market_histories@[j];
    &&& row.item_id@ == raw.item_id@
    &&& row.location_id@ == text::location_code_spec(raw.location_id as int)
    &&& (i32::MIN <= raw.quality_level->0 <= i32::MAX ==> row.quality_level
        == raw.quality_level->0 as i32)
    &&& (i32::MIN <= raw.timescale->0 <= i32::MAX ==> row.timescale == raw.timescale->0 as i32)
    &&& row.timestamp == crate::models::nats::ticks_to_epoch_spec(p.timestamp->0 as int)
    &&& (i32::MIN <= p.item_amount->0 <= i32::MAX ==> row.item_amount == p.item_amount->0 as i32)
    &&& (i32::MIN <= p.silver_amount->0 <= i32::MAX ==> row.silver_amount
        == p.silver_amount->0 as i32)
    &&& row.updated_at == now
}

/// How a full decoded row vector relates to its raw event at instant `now`.
pub open spec fn history_rows_ok(
    raw: RawMarketHistories,
    rows: Seq<MarketHistory>,
    now: int,
) -> bool {
    forall|j: int| 0 <= j < rows.len() ==> history_row_ok(raw, j, #[trigger] rows[j], now)
}

impl MarketHistory {
    /// Decode a raw history event into one row per sample, with `now` as the
    /// ingestion instant; `None` when any required field is missing or a
    /// sample's timestamp is out of range.
    pub fn from_nats_at(raw: RawMarketHistories, now: i64) -> (r: Option<Vec<MarketHistory>>)
        ensures
            (r is Some) == history_decode_ok(raw),
            r matches Some(rows) ==> rows@.len() == raw.market_histories@.len()
                && history_rows_ok(raw, rows@, now as int),
    {
        let mut rows: Vec<MarketHistory> = Vec::new();
        let n = raw.market_histories.len();
        let mut j: usize = 0;
        while j < n
            invariant
                0 <= j <= n,
                n == raw.market_histories@.len(),
                rows@.len() == j,
                j > 0 ==> raw.quality_level is Some && raw.timescale is Some,
                forall|k: int|
                    0 <= k < j ==> {
                        let p = #[trigger] raw.market_histories@[k];
                        &&& p.timestamp is Some
                        &&& p.item_amount is Some
                        &&& p.silver_amount is Some
                        &&& time::millis_in_chrono_range(
                            crate::models::nats::ticks_to_epoch_spec(p.timestamp->0 as int) as i64,
                        )
                    },
                forall|k: int|
                    0 <= k < j ==> history_row_ok(raw, k, #[trigger] rows@[k], now as int),
            decreases n - j,
        {
            let quality = match raw.quality_level {
                Some(v) => v,
                None => {
                    return None;
                },
            };
            let timescale = match raw.timescale {
                Some(v) => v,
                None => {
                    return None;
                },
            };
            let p = &raw.market_histories[j];
            let ticks = match p.timestamp {
                Some(v) => v,
                None => {
                    return None;
                },
            };
            let item_amount = match p.item_amount {
                Some(v) => v,
                None => {
                    return None;
                },
            };
            let silver_amount = match p.silver_amount {
                Some(v) => v,
                None => {
                    return None;
                },
            };
            let ts = crate::models::nats::ticks_to_epoch(ticks);
            if !time::timestamp_millis_valid(ts) {
                return None;
            }
            rows.push(MarketHistory {
                item_id: raw.item_id.clone(),
                location_id: text::location_code(raw.location_id),
                quality_level: #[verifier::truncate] (quality as i32),
                timescale: #[verifier::truncate] (timescale as i32),
                timestamp: ts,
                item_amount: #[verifier::truncate] (item_amount as i32),
                silver_amount: #[verifier::truncate] (silver_amount as i32),
                updated_at: now,
            });
            j += 1;
        }
        Some(rows)
    }

    /// Decode a raw history event into rows, stamping them with the current
    /// time.
    pub fn from_nats(raw: RawMarketHistories) -> (r: Option<Vec<MarketHistory>>)
        ensures
            (r is Some) == history_decode_ok(raw),
            r matches Some(rows) ==> rows@.len() == raw.market_histories@.len() && exists|t: int|
                #[trigger] history_rows_ok(raw, rows@, t),
    {
        let now = crate::time::now_millis();
        let r = Self::from_nats_at(raw, now);
        proof {
            if r is Some {
                assert(history_rows_ok(raw, r->0@, now as int));
            }
        }
        r
    }
}

} // verus!
