//! Pairs, configuration, chunking, rate limits, the token bucket and the
//! latency mean, on concrete values.

use std::collections::HashMap;

use market_view::Config;
use market_view::Exchange;
use market_view::Pair;
use market_view::Platform;
use market_view::hashmap_chunks::HashMapChunks;
use market_view::info::RateLimit;
use market_view::info::interval_ms;
use market_view::info::rate_limit_buckets;
use market_view::latency_meter::mean_latency_ms;
use market_view::pairs::SymbolInfo;
use market_view::pairs::pairs_from_symbols;
use market_view::snapshot::snapshot_weight;
use market_view::token_bucket::TokenBucket;

#[test]
fn pair() {
    let pair = Pair::new(String::from("btc"), String::from("usdt"));

    assert_eq!(pair.fused(), "btcusdt");
    assert_eq!(pair.fused_upper(), "BTCUSDT");
    assert_eq!(pair.display(), "BTC/USDT");
}

#[test]
fn hashmap_chunks() {
    let map = HashMap::from([(1, 2), (3, 4), (5, 6)]);
    let mut test_map = map.clone();
    let mut chunks = HashMapChunks::new(map.into_iter().collect(), 2);

    for len in [2, 1] {
        let chunk = chunks.next().unwrap();
        assert_eq!(chunk.len(), len);
        for (key, _) in chunk {
            test_map.remove(&key).unwrap();
        }
    }
    assert_eq!(chunks.next(), None);
}

#[test]
fn chunker_keeps_order_and_entries() {
    let items: Vec<(u32, u32)> = vec![(1, 10), (2, 20), (3, 30), (4, 40), (5, 50)];
    let mut chunks = HashMapChunks::new(items.clone(), 2);
    let mut seen: Vec<(u32, u32)> = Vec::new();
    while let Some(chunk) = chunks.next() {
        seen.extend(chunk);
    }
    assert_eq!(seen, items);
}

#[test]
fn config_defaults_and_builders() {
    let pairs = vec![Pair::new(String::from("btc"), String::from("usdt"))];
    let c = Config::new((Exchange::Binance, Platform::Spot), 100, pairs);
    assert_eq!(c.book_cap, 100);
    assert_eq!(c.pairs.len(), 1);
    assert_eq!(c.system.streams_per_connection, 128);
    assert_eq!(c.system.reconnect_delay_ms, 1000);
    assert_eq!(c.system.log_prefix, "[binance] [spot]");
    assert_eq!(c.system.update_speed, "1000ms");
    assert_eq!(c.system.max_latency_ms, 5000);
    assert_eq!(c.system.latency_check_interval_ms, 1000);
    assert_eq!(c.system.max_latency_error_ms, 100);

    let c = c
        .streams_per_connection(16)
        .reconnect_delay(250)
        .log_prefix(String::from("[test]"))
        .update_speed(String::from("100ms"))
        .max_latency(9000)
        .latency_check_interval(500)
        .max_latency_error(42);
    assert_eq!(c.system.streams_per_connection, 16);
    assert_eq!(c.system.reconnect_delay_ms, 250);
    assert_eq!(c.system.log_prefix, "[test]");
    assert_eq!(c.system.update_speed, "100ms");
    assert_eq!(c.system.max_latency_ms, 9000);
    assert_eq!(c.system.latency_check_interval_ms, 500);
    assert_eq!(c.system.max_latency_error_ms, 42);
    assert_eq!(c.book_cap, 100);
}

#[test]
fn interval_units() {
    assert_eq!(interval_ms(&String::from("SECOND")), Some(1000));
    assert_eq!(interval_ms(&String::from("MINUTE")), Some(60_000));
    assert_eq!(interval_ms(&String::from("HOUR")), Some(3_600_000));
    assert_eq!(interval_ms(&String::from("DAY")), Some(86_400_000));
    assert_eq!(interval_ms(&String::from("FORTNIGHT")), None);
}

fn rl(t: &str, interval: &str, num: u32, limit: u64) -> RateLimit {
    RateLimit {
        rate_limit_type: String::from(t),
        interval: String::from(interval),
        interval_num: num,
        limit,
    }
}

#[test]
fn rate_limits_become_buckets() {
    let rows = vec![
        rl("ORDERS", "SECOND", 10, 50),
        rl("RAW_REQUESTS", "MINUTE", 5, 6100),
        rl("REQUEST_WEIGHT", "MINUTE", 1, 1200),
    ];
    let (r_tb, w_tb) = rate_limit_buckets(&rows).unwrap();
    assert_eq!(r_tb.refill_interval_ms(), 300_000);
    assert_eq!(w_tb.refill_interval_ms(), 60_000);
    // Buckets start full at their capacity.
    let mut r_tb = r_tb;
    assert!(r_tb.try_acquire(6100));
    assert!(!r_tb.try_acquire(1));
    let mut w_tb = w_tb;
    assert!(w_tb.try_acquire(1200));
    assert!(!w_tb.try_acquire(1));
}

#[test]
fn rate_limits_last_row_wins() {
    let rows = vec![
        rl("RAW_REQUESTS", "SECOND", 1, 10),
        rl("REQUEST_WEIGHT", "SECOND", 1, 20),
        rl("RAW_REQUESTS", "HOUR", 2, 30),
    ];
    let (r_tb, _w_tb) = rate_limit_buckets(&rows).unwrap();
    assert_eq!(r_tb.refill_interval_ms(), 7_200_000);
}

#[test]
fn rate_limits_missing_or_malformed() {
    // No REQUEST_WEIGHT row at all.
    let rows = vec![rl("RAW_REQUESTS", "SECOND", 1, 10)];
    assert!(rate_limit_buckets(&rows).is_none());
    // The deciding RAW_REQUESTS row carries an unknown interval unit.
    let rows = vec![
        rl("RAW_REQUESTS", "WEEK", 1, 10),
        rl("REQUEST_WEIGHT", "SECOND", 1, 20),
    ];
    assert!(rate_limit_buckets(&rows).is_none());
}

#[test]
fn token_bucket_consumes_and_refills() {
    let mut tb = TokenBucket::new(2, 1000);
    assert_eq!(tb.refill_interval_ms(), 1000);
    assert_eq!(tb.capacity(), 2);
    assert!(tb.try_acquire(1));
    tb.acquire(1);
    assert!(!tb.try_acquire(1));
    tb.refill_tick();
    assert!(tb.try_acquire(1));
    assert!(!tb.try_acquire(1));
    // At capacity a tick adds nothing.
    tb.refill_tick();
    tb.refill_tick();
    tb.refill_tick();
    assert!(tb.try_acquire(2));
    assert!(!tb.try_acquire(1));
}

#[test]
fn token_bucket_window_bound() {
    // Capacity 2 and three ticks: at most 5 single-permit acquisitions
    // can complete, however they interleave.
    let mut tb = TokenBucket::new(2, 1000);
    let mut completed = 0;
    for _ in 0..2 {
        if tb.try_acquire(1) {
            completed += 1;
        }
    }
    for _ in 0..3 {
        tb.refill_tick();
        for _ in 0..4 {
            if tb.try_acquire(1) {
                completed += 1;
            }
        }
    }
    assert_eq!(completed, 5);
}

#[test]
fn snapshot_weights() {
    assert_eq!(snapshot_weight(1), 5);
    assert_eq!(snapshot_weight(100), 5);
    assert_eq!(snapshot_weight(101), 25);
    assert_eq!(snapshot_weight(500), 25);
    assert_eq!(snapshot_weight(501), 50);
    assert_eq!(snapshot_weight(1000), 50);
    assert_eq!(snapshot_weight(1001), 250);
}

#[test]
fn latency_mean() {
    assert_eq!(mean_latency_ms(&vec![]), None);
    assert_eq!(mean_latency_ms(&vec![7]), Some(7));
    assert_eq!(mean_latency_ms(&vec![1, 2, 3]), Some(2));
    // Integer mean truncates.
    assert_eq!(mean_latency_ms(&vec![1, 2]), Some(1));
    assert_eq!(mean_latency_ms(&vec![u64::MAX, u64::MAX]), Some(u64::MAX));
}

#[test]
fn symbols_become_lowercase_pairs() {
    let symbols = vec![
        SymbolInfo {
            base_asset: String::from("BTC"),
            quote_asset: String::from("USDT"),
        },
        SymbolInfo {
            base_asset: String::from("ETH"),
            quote_asset: String::from("BTC"),
        },
    ];
    let pairs = pairs_from_symbols(&symbols);
    assert_eq!(pairs.len(), 2);
    assert_eq!(pairs[0], Pair::new(String::from("btc"), String::from("usdt")));
    assert_eq!(pairs[1], Pair::new(String::from("eth"), String::from("btc")));
}
