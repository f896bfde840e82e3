//! Events as decoded from the message bus, with plain-valued fields.
//!
//! Timestamps are carried as milliseconds since the Unix epoch; the wire
//! format's tick counts are converted by [`ticks_to_epoch`].

use vstd::prelude::*;

verus! {

/// One market order event. Its identity key is `id`; the remaining fields are
/// value fields that may change between observations of the same order.
#[derive(Debug)]
pub struct MarketOrder {
    pub id: i64,
    pub item_unique_name: String,
    pub item_group_name: String,
    pub location_id: i16,
    pub quality_level: i16,
    pub enchantment_level: i16,
    pub unit_price_silver: i64,
    pub amount: i64,
    pub auction_type: String,
    /// Expiry instant, milliseconds since the Unix epoch.
    pub expires_at: i64,
}

impl Clone for MarketOrder {
    fn clone(&self) -> (res: Self)
        ensures
            res == *self,
    {
        MarketOrder {
            id: self.id,
            item_unique_name: self.item_unique_name.clone(),
            item_group_name: self.item_group_name.clone(),
            location_id: self.location_id,
            quality_level: self.quality_level,
            enchantment_level: self.enchantment_level,
            unit_price_silver: self.unit_price_silver,
            amount: self.amount,
            auction_type: self.auction_type.clone(),
            expires_at: self.expires_at,
        }
    }
}

/// One sample inside a market history message: how much was traded at one
/// instant. `timestamp` is milliseconds since the Unix epoch.
#[derive(Debug)]
pub struct MarketHistory {
    pub item_amount: i64,
    pub silver_amount: i64,
    pub timestamp: i64,
}

impl Clone for MarketHistory {
    fn clone(&self) -> (res: Self)
        ensures
            res == *self,
    {
        MarketHistory {
            item_amount: self.item_amount,
            silver_amount: self.silver_amount,
            timestamp: self.timestamp,
        }
    }
}

/// One market history event: a batch of samples for one item at one location,
/// quality and timescale.
#[derive(Debug)]
pub struct MarketHistories {
    pub id: i64,
    pub item_unique_name: String,
    pub location_id: i16,
    pub quality_level: i16,
    pub timescale: i16,
    pub market_histories: Vec<MarketHistory>,
}

/// Truncating division of a tick count by the number of ticks per millisecond.
pub open spec fn ticks_div_trunc(t: int) -> int {
    if t >= 0 {
        t / 10_000
    } else {
        -((-t) / 10_000)
    }
}

/// Milliseconds since the Unix epoch for a wire-format tick count: ticks are
/// tenths of microseconds counted from an epoch 62 136 892 800 000 ms before
/// the Unix epoch.
pub open spec fn ticks_to_epoch_spec(t: int) -> int {
    ticks_div_trunc(t) - 62_136_892_800_000
}

/// Convert a wire-format tick count to milliseconds since the Unix epoch.
pub fn ticks_to_epoch(ticks: i64) -> (r: i64)
    ensures
        r == ticks_to_epoch_spec(ticks as int),
{
    if ticks >= 0 {
        let q: i64 = ((ticks as u64) / 10_000) as i64;
        q - 62_136_892_800_000
    } else {
        let m: u64 = ((-(ticks + 1)) as u64) + 1;
        proof {
            assert(m == -(ticks as int));
        }
        let q: i64 = (m / 10_000) as i64;
        -q - 62_136_892_800_000
    }
}

} // verus!
