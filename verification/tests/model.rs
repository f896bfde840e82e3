use market_ingest::models::db::{
    MarketHistory, MarketOrder, RawMarketHistories, RawMarketHistory, RawMarketOrder,
};
use market_ingest::models::nats;
use market_ingest::text::{enchantment_level_of, group_name_of, location_code, parse_i16_or_zero};

fn raw_order() -> RawMarketOrder {
    RawMarketOrder {
        id: Some(42),
        item_id: String::from("T4_BAG@2"),
        location_id: Some(7),
        quality_level: Some(3),
        unit_price_silver: Some(1999),
        amount: Some(12),
        auction_type: String::from("offer"),
        expires: String::from("2024-05-01T12:00:00"),
    }
}

#[test]
fn ticks_to_epoch_at_zero() {
    assert_eq!(nats::ticks_to_epoch(0), -62_136_892_800_000);
}

#[test]
fn ticks_to_epoch_small_positive() {
    assert_eq!(nats::ticks_to_epoch(123_456), -62_136_892_799_988);
}

#[test]
fn ticks_to_epoch_known_instant() {
    assert_eq!(nats::ticks_to_epoch(638_514_576_000_000_000), 1_714_564_800_000);
}

#[test]
fn ticks_to_epoch_negative_truncates_toward_zero() {
    assert_eq!(nats::ticks_to_epoch(-15_000), -62_136_892_800_001);
}

#[test]
fn parse_i16_plain_and_signed() {
    assert_eq!(parse_i16_or_zero("123"), 123);
    assert_eq!(parse_i16_or_zero("+7"), 7);
    assert_eq!(parse_i16_or_zero("-9"), -9);
    assert_eq!(parse_i16_or_zero("007"), 7);
}

#[test]
fn parse_i16_bounds() {
    assert_eq!(parse_i16_or_zero("32767"), 32767);
    assert_eq!(parse_i16_or_zero("32768"), 0);
    assert_eq!(parse_i16_or_zero("-32768"), -32768);
    assert_eq!(parse_i16_or_zero("-32769"), 0);
    assert_eq!(parse_i16_or_zero("99999999999999999999"), 0);
}

#[test]
fn parse_i16_malformed() {
    assert_eq!(parse_i16_or_zero(""), 0);
    assert_eq!(parse_i16_or_zero("+"), 0);
    assert_eq!(parse_i16_or_zero("-"), 0);
    assert_eq!(parse_i16_or_zero("12x"), 0);
    assert_eq!(parse_i16_or_zero("x12"), 0);
}

#[test]
fn group_name_is_prefix_before_first_at() {
    assert_eq!(group_name_of("T4_BAG@3"), "T4_BAG");
    assert_eq!(group_name_of("T4_BAG"), "T4_BAG");
    assert_eq!(group_name_of("@3"), "");
    assert_eq!(group_name_of("A@2@5"), "A");
}

#[test]
fn enchantment_level_is_suffix_after_last_at() {
    assert_eq!(enchantment_level_of("T4_BAG@3"), 3);
    assert_eq!(enchantment_level_of("T4_BAG"), 0);
    assert_eq!(enchantment_level_of("A@2@5"), 5);
    assert_eq!(enchantment_level_of("X@"), 0);
    assert_eq!(enchantment_level_of("123"), 123);
}

#[test]
fn location_code_zero_pads_to_four() {
    assert_eq!(location_code(7), "0007");
    assert_eq!(location_code(0), "0000");
    assert_eq!(location_code(1234), "1234");
    assert_eq!(location_code(123456), "123456");
    assert_eq!(location_code(-7), "00-7");
}

#[test]
fn order_from_nats_at_decodes_all_fields() {
    let raw = raw_order();
    let o = MarketOrder::from_nats_at(&raw, 555).expect("decodes");
    assert_eq!(o.id, 42);
    assert_eq!(o.item_unique_name, "T4_BAG@2");
    assert_eq!(o.location_id, "0007");
    assert_eq!(o.quality_level, 3);
    assert_eq!(o.unit_price_silver, 1999);
    assert_eq!(o.amount, 12);
    assert_eq!(o.auction_type, "offer");
    assert_eq!(o.expires_at, 1_714_564_800_000);
    assert_eq!(o.created_at, 555);
    assert_eq!(o.updated_at, 555);
}

#[test]
fn order_from_nats_rejects_missing_id() {
    let mut raw = raw_order();
    raw.id = None;
    assert!(MarketOrder::from_nats_at(&raw, 555).is_none());
}

#[test]
fn order_from_nats_rejects_bad_expiry() {
    let mut raw = raw_order();
    raw.expires = String::from("not-a-date");
    assert!(MarketOrder::from_nats_at(&raw, 555).is_none());
}

#[test]
fn order_from_nats_stamps_one_instant() {
    let raw = raw_order();
    let o = MarketOrder::from_nats(&raw).expect("decodes");
    assert_eq!(o.created_at, o.updated_at);
}

fn raw_histories() -> RawMarketHistories {
    RawMarketHistories {
        item_id: String::from("T5_SWORD@1"),
        location_id: 3005,
        quality_level: Some(2),
        timescale: Some(6),
        market_histories: vec![
            RawMarketHistory {
                timestamp: Some(638_514_576_000_000_000),
                item_amount: Some(10),
                silver_amount: Some(5000),
            },
            RawMarketHistory {
                timestamp: Some(638_514_576_000_600_000),
                item_amount: Some(4),
                silver_amount: Some(2000),
            },
        ],
    }
}

#[test]
fn history_from_nats_at_decodes_each_sample() {
    let rows = MarketHistory::from_nats_at(raw_histories(), 777).expect("decodes");
    assert_eq!(rows.len(), 2);
    assert_eq!(rows[0].item_id, "T5_SWORD@1");
    assert_eq!(rows[0].location_id, "3005");
    assert_eq!(rows[0].quality_level, 2);
    assert_eq!(rows[0].timescale, 6);
    assert_eq!(rows[0].timestamp, 1_714_564_800_000);
    assert_eq!(rows[0].item_amount, 10);
    assert_eq!(rows[0].silver_amount, 5000);
    assert_eq!(rows[0].updated_at, 777);
    assert_eq!(rows[1].timestamp, 1_714_564_800_060);
    assert_eq!(rows[1].item_amount, 4);
    assert_eq!(rows[1].silver_amount, 2000);
}

#[test]
fn history_from_nats_with_no_samples_is_empty() {
    let mut raw = raw_histories();
    raw.market_histories = Vec::new();
    raw.quality_level = None;
    let rows = MarketHistory::from_nats_at(raw, 777).expect("no samples, nothing to check");
    assert_eq!(rows.len(), 0);
}

#[test]
fn history_from_nats_rejects_missing_quality() {
    let mut raw = raw_histories();
    raw.quality_level = None;
    assert!(MarketHistory::from_nats_at(raw, 777).is_none());
}

#[test]
fn history_from_nats_rejects_missing_sample_field() {
    let mut raw = raw_histories();
    raw.market_histories[1].silver_amount = None;
    assert!(MarketHistory::from_nats_at(raw, 777).is_none());
}

#[test]
fn config_clone_keeps_fields() {
    let c = market_ingest::config::Config {
        nats_url: String::from("nats://localhost:4222"),
        nats_user: String::from("reader"),
        nats_password: String::from("secret"),
        nats_market_order_subject: String::from("marketorders.ingest"),
        nats_market_history_subject: String::from("markethistories.ingest"),
        database_url: String::from("postgres://localhost/market"),
    };
    let d = c.clone();
    assert_eq!(d.nats_url, c.nats_url);
    assert_eq!(d.nats_market_order_subject, c.nats_market_order_subject);
    assert_eq!(d.database_url, c.database_url);
}
