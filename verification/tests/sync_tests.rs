//! The reconciliation state machine on the specified scenarios, and the
//! latency check and stream URL around it.

use market_view::Book;
use market_view::Order;
use market_view::Pair;
use market_view::difference::DiffEvent;
use market_view::difference::EventOutcome;
use market_view::difference::LatencyVerdict;
use market_view::difference::SyncState;
use market_view::difference::apply_event;
use market_view::difference::apply_snapshot;
use market_view::difference::classify_latency;
use market_view::difference::on_event;
use market_view::difference::stream_url;
use market_view::snapshot::Snapshot;

fn o(price: u64, size: u64) -> Order {
    Order { price, size }
}

fn ev(first: u64, last: u64, bids: Vec<Order>, asks: Vec<Order>) -> DiffEvent {
    DiffEvent {
        event_time_ms: 0,
        symbol: String::from("BTCUSDT"),
        first_update_id: first,
        final_update_id: last,
        bids,
        asks,
    }
}

#[test]
fn scenario_happy_path() {
    let mut book = Book::new(10);
    let state = apply_snapshot(
        &mut book,
        Snapshot { last_update_id: 100, bids: vec![o(10, 1)], asks: vec![o(11, 1)] },
    );
    assert_eq!(state, SyncState::Aligning { snapshot_id: 100 });
    assert_eq!(*book.bids.orders(), vec![o(10, 1)]);
    assert_eq!(*book.asks.orders(), vec![o(11, 1)]);

    // u <= 100: stale, discarded.
    let (state, outcome) = on_event(state, &mut book, &ev(95, 98, vec![], vec![]));
    assert_eq!(outcome, EventOutcome::Discarded);
    assert_eq!(state, SyncState::Aligning { snapshot_id: 100 });
    assert_eq!(*book.bids.orders(), vec![o(10, 1)]);

    // U <= 101 and u > 100: the bridging event; applied.
    let (state, outcome) = on_event(state, &mut book, &ev(99, 101, vec![o(10, 2)], vec![]));
    assert_eq!(outcome, EventOutcome::Applied);
    assert_eq!(state, SyncState::Streaming { prev_u: 101 });
    assert_eq!(*book.bids.orders(), vec![o(10, 2)]);

    // U == prev_u + 1: streaming; applied.
    let (state, outcome) = on_event(state, &mut book, &ev(102, 103, vec![], vec![o(12, 1)]));
    assert_eq!(outcome, EventOutcome::Applied);
    assert_eq!(state, SyncState::Streaming { prev_u: 103 });
    assert_eq!(*book.bids.orders(), vec![o(10, 2)]);
    assert_eq!(*book.asks.orders(), vec![o(11, 1), o(12, 1)]);
}

#[test]
fn scenario_gap_on_bridging() {
    let mut book = Book::new(10);
    let state = apply_snapshot(
        &mut book,
        Snapshot { last_update_id: 100, bids: vec![o(10, 1)], asks: vec![o(11, 1)] },
    );
    // U = 105 > 101: gap; back to snapshotting; book not cleared.
    let (state, outcome) = on_event(state, &mut book, &ev(105, 106, vec![o(9, 1)], vec![]));
    assert_eq!(outcome, EventOutcome::Gap);
    assert_eq!(state, SyncState::NeedSnapshot);
    assert_eq!(*book.bids.orders(), vec![o(10, 1)]);
    assert_eq!(*book.asks.orders(), vec![o(11, 1)]);
}

#[test]
fn scenario_streaming_gap() {
    let mut book = Book::new(10);
    let state = SyncState::Streaming { prev_u: 110 };
    // U = 112 != 111: gap; re-snapshot.
    let (state, outcome) = on_event(state, &mut book, &ev(112, 113, vec![o(9, 1)], vec![]));
    assert_eq!(outcome, EventOutcome::Gap);
    assert_eq!(state, SyncState::NeedSnapshot);
    assert!(book.bids.orders().is_empty());
}

#[test]
fn apply_event_touches_both_sides_in_order() {
    let mut book = Book::new(3);
    apply_event(
        &mut book,
        &ev(1, 1, vec![o(10, 1), o(10, 0), o(9, 2)], vec![o(11, 1), o(12, 1)]),
    );
    // bid 10 inserted then removed again, in event order.
    assert_eq!(*book.bids.orders(), vec![o(9, 2)]);
    assert_eq!(*book.asks.orders(), vec![o(11, 1), o(12, 1)]);
}

#[test]
fn latency_classification() {
    // 5 s threshold, 100 ms skew allowance, as the defaults have them.
    let max_latency = 5000;
    let max_err = 100;
    assert_eq!(
        classify_latency(10_000, 4000, max_latency, max_err),
        LatencyVerdict::Slow { latency_ms: 6000 }
    );
    assert_eq!(
        classify_latency(10_000, 5000, max_latency, max_err),
        LatencyVerdict::Acceptable
    );
    assert_eq!(
        classify_latency(10_000, 10_000, max_latency, max_err),
        LatencyVerdict::Acceptable
    );
    // The wall clock 150 ms behind the event: over the allowance.
    assert_eq!(
        classify_latency(10_000, 10_150, max_latency, max_err),
        LatencyVerdict::Skewed { skew_ms: 150 }
    );
    // 100 ms behind exactly: tolerated silently.
    assert_eq!(
        classify_latency(10_000, 10_100, max_latency, max_err),
        LatencyVerdict::Acceptable
    );
}

#[test]
fn stream_url_joins_pairs() {
    let pairs = vec![
        Pair::new(String::from("btc"), String::from("usdt")),
        Pair::new(String::from("eth"), String::from("usdt")),
    ];
    assert_eq!(
        stream_url(&pairs, "100ms"),
        "wss://data-stream.binance.vision/stream?streams=btcusdt@depth@100ms/ethusdt@depth@100ms"
    );
    let one = vec![Pair::new(String::from("btc"), String::from("usdt"))];
    assert_eq!(
        stream_url(&one, "1000ms"),
        "wss://data-stream.binance.vision/stream?streams=btcusdt@depth@1000ms"
    );
}
