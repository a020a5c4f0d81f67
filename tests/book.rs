use market_engine::book::{parse_order_entry, DepthSnapshot, OrderBook, OrderBookSide, OrderSide};
use market_engine::decimal::parse_decimal;
use market_engine::engine::{BookError, OrderBookEngine, UpdateOutcome};
use market_engine::event::{DepthEvent, EventData, EventPayload, AggTradeEvent};

const UNIT: u64 = 100_000_000;

fn s(x: &str) -> String {
    x.to_string()
}

fn lv(p: &str, q: &str) -> (String, String) {
    (s(p), s(q))
}

fn depth(first: u64, last: u64, prev: u64, bids: Vec<(String, String)>, asks: Vec<(String, String)>) -> DepthEvent {
    DepthEvent {
        event: s("depthUpdate"),
        event_time: last * 10,
        trade_time: last * 10,
        symbol: s("BTCUSDT"),
        first_update_id: first,
        last_update_id: last,
        previous_update_id: prev,
        bids,
        asks,
        received_timestamp: 0,
    }
}

fn depth_envelope(d: DepthEvent) -> EventData {
    EventData::new(EventPayload::Depth(d))
}

fn snapshot_s2() -> DepthSnapshot {
    DepthSnapshot {
        last_update_id: 100,
        event_time: None,
        match_time: None,
        bids: vec![lv("10", "1"), lv("9", "2")],
        asks: vec![lv("11", "1")],
    }
}

fn engine_after_s2() -> OrderBookEngine {
    let mut e = OrderBookEngine::new("BTCUSDT");
    for d in [
        depth(90, 95, 89, vec![], vec![]),
        depth(96, 101, 95, vec![lv("9", "0")], vec![]),
        depth(102, 110, 101, vec![lv("10", "3")], vec![]),
    ] {
        assert_eq!(e.push_update(depth_envelope(d)), Ok(UpdateOutcome::Buffered));
    }
    assert_eq!(e.initialize(snapshot_s2()), Ok(()));
    e
}

#[test]
fn decimal_values() {
    assert_eq!(parse_decimal("603.230"), Some(603 * UNIT + 23_000_000));
    assert_eq!(parse_decimal("0.21"), Some(21_000_000));
    assert_eq!(parse_decimal("10"), Some(10 * UNIT));
    assert_eq!(parse_decimal("0.00000001"), Some(1));
    assert_eq!(parse_decimal("0.000000001"), None);
    assert_eq!(parse_decimal(""), None);
    assert_eq!(parse_decimal("1."), None);
    assert_eq!(parse_decimal(".5"), None);
    assert_eq!(parse_decimal("1.2.3"), None);
    assert_eq!(parse_decimal("-1"), None);
    assert_eq!(parse_decimal("184467440737.09551615"), Some(u64::MAX));
    assert_eq!(parse_decimal("184467440737.09551616"), None);
    assert_eq!(parse_decimal("99999999999999999999999"), None);
}

#[test]
fn order_entry_parses_both_strings() {
    assert_eq!(parse_order_entry(&lv("9.5", "2")), Some((9 * UNIT + UNIT / 2, 2 * UNIT)));
    assert_eq!(parse_order_entry(&lv("x", "2")), None);
}

#[test]
fn zero_quantity_removes_only_its_level() {
    let mut side = OrderBookSide::new();
    side.update(10, 1);
    side.update(9, 2);
    side.update(11, 3);
    side.update(9, 0);
    assert_eq!(side.orders, vec![(10, 1), (11, 3)]);
    side.update(12, 0);
    assert_eq!(side.orders, vec![(10, 1), (11, 3)]);
    side.update(10, 5);
    assert_eq!(side.orders, vec![(10, 5), (11, 3)]);
}

#[test]
fn book_queries() {
    let mut b = OrderBook::new();
    assert_eq!(b.best_bid(), None);
    assert_eq!(b.best_ask(), None);
    b.update_side(OrderSide::Buy, 10, 1);
    b.update_side(OrderSide::Buy, 9, 2);
    b.update_side(OrderSide::Buy, 8, 4);
    b.update_side(OrderSide::Sell, 12, 1);
    b.update_side(OrderSide::Sell, 11, 7);
    assert_eq!(b.best_bid(), Some((10, 1)));
    assert_eq!(b.best_ask(), Some((11, 7)));
    assert_eq!(b.top_n_bids(2), vec![(10, 1), (9, 2)]);
    assert_eq!(b.top_n_asks(5), vec![(11, 7), (12, 1)]);
    assert_eq!(b.bids(), vec![(10, 1), (9, 2), (8, 4)]);
    assert_eq!(b.asks(), vec![(11, 7), (12, 1)]);
}

#[test]
fn snapshot_to_book() {
    let b = snapshot_s2().to_order_book().unwrap();
    assert_eq!(b.bids(), vec![(10 * UNIT, UNIT), (9 * UNIT, 2 * UNIT)]);
    assert_eq!(b.asks(), vec![(11 * UNIT, UNIT)]);
    let mut bad = snapshot_s2();
    bad.asks.push(lv("eleven", "1"));
    assert!(bad.to_order_book().is_none());
}

#[test]
fn depth_bootstrap_scenario() {
    let e = engine_after_s2();
    assert_eq!(e.order_book.bids(), vec![(10 * UNIT, 3 * UNIT)]);
    assert_eq!(e.order_book.asks(), vec![(11 * UNIT, UNIT)]);
    assert_eq!(e.last_update_id, 110);
    assert!(e.continuous_started);
    assert!(e.update_buffer.is_empty());
    assert_eq!(e.order_book.event_time, Some(1100));
}

#[test]
fn gap_detection_scenario() {
    let mut e = engine_after_s2();
    let before_bids = e.order_book.bids();
    let before_asks = e.order_book.asks();
    let r = e.push_update(depth_envelope(depth(112, 115, 111, vec![lv("10", "0")], vec![])));
    assert_eq!(r, Err(BookError::GapDetected));
    assert_eq!(e.order_book.bids(), before_bids);
    assert_eq!(e.order_book.asks(), before_asks);
    assert_eq!(e.last_update_id, 110);
}

#[test]
fn contiguous_update_is_applied() {
    let mut e = engine_after_s2();
    let r = e.push_update(depth_envelope(depth(111, 115, 110, vec![], vec![lv("12", "4")])));
    assert_eq!(r, Ok(UpdateOutcome::Applied));
    assert_eq!(e.last_update_id, 115);
    assert_eq!(e.order_book.asks(), vec![(11 * UNIT, UNIT), (12 * UNIT, 4 * UNIT)]);
}

#[test]
fn straddle_picks_first_covering_update() {
    let mut e = OrderBookEngine::new("ETHUSDT");
    // too old, straddles 100, extends, breaks the chain
    for d in [
        depth(80, 99, 79, vec![lv("1", "1")], vec![]),
        depth(95, 105, 94, vec![lv("2", "1")], vec![]),
        depth(106, 108, 105, vec![lv("3", "1")], vec![]),
    ] {
        e.push_update(depth_envelope(d)).unwrap();
    }
    let snap = DepthSnapshot { last_update_id: 100, event_time: Some(7), match_time: None, bids: vec![], asks: vec![] };
    assert_eq!(e.initialize(snap), Ok(()));
    assert_eq!(e.last_update_id, 108);
    assert_eq!(e.order_book.bids(), vec![(3 * UNIT, UNIT), (2 * UNIT, UNIT)]);
}

#[test]
fn updates_before_the_straddle_are_dropped() {
    let mut e = OrderBookEngine::new("ETHUSDT");
    for d in [
        depth(101, 103, 100, vec![lv("1", "1")], vec![]),
        depth(99, 104, 103, vec![lv("2", "1")], vec![]),
    ] {
        e.push_update(depth_envelope(d)).unwrap();
    }
    let snap = DepthSnapshot { last_update_id: 100, event_time: None, match_time: None, bids: vec![], asks: vec![] };
    assert_eq!(e.initialize(snap), Ok(()));
    assert_eq!(e.last_update_id, 104);
    assert_eq!(e.order_book.bids(), vec![(2 * UNIT, UNIT)]);
}

#[test]
fn broken_chain_in_buffer_is_fatal() {
    let mut e = OrderBookEngine::new("ETHUSDT");
    for d in [
        depth(95, 105, 94, vec![], vec![]),
        depth(107, 109, 106, vec![], vec![]),
    ] {
        e.push_update(depth_envelope(d)).unwrap();
    }
    let snap = DepthSnapshot { last_update_id: 100, event_time: None, match_time: None, bids: vec![], asks: vec![] };
    assert_eq!(e.initialize(snap), Err(BookError::GapDetected));
    assert_eq!(e.last_update_id, 105);
}

#[test]
fn non_straddling_update_is_dropped_before_chain() {
    let mut e = OrderBookEngine::new("BTCUSDT");
    e.push_update(depth_envelope(depth(1, 2, 0, vec![], vec![]))).unwrap();
    let snap = DepthSnapshot { last_update_id: 50, event_time: None, match_time: None, bids: vec![], asks: vec![] };
    assert_eq!(e.initialize(snap), Ok(()));
    assert!(!e.continuous_started);
    let r = e.push_update(depth_envelope(depth(60, 70, 59, vec![lv("1", "1")], vec![])));
    assert_eq!(r, Ok(UpdateOutcome::Dropped));
    let r = e.push_update(depth_envelope(depth(45, 55, 44, vec![lv("1", "1")], vec![])));
    assert_eq!(r, Ok(UpdateOutcome::Applied));
    assert_eq!(e.last_update_id, 55);
}

#[test]
fn malformed_level_is_refused() {
    let mut e = engine_after_s2();
    let r = e.push_update(depth_envelope(depth(111, 112, 110, vec![lv("ten", "1")], vec![])));
    assert_eq!(r, Err(BookError::MalformedLevel));
    assert_eq!(e.last_update_id, 110);
}

#[test]
fn other_kinds_are_ignored() {
    let mut e = OrderBookEngine::new("BTCUSDT");
    let t = AggTradeEvent {
        event: s("aggTrade"), event_time: 1, agg_trade_id: 1, symbol: s("BTCUSDT"), price: s("1"),
        quantity: s("1"), trade_time: 1, is_buyer_maker: false, received_timestamp: 0,
    };
    assert_eq!(e.push_update(EventData::new(EventPayload::AggTrade(t))), Ok(UpdateOutcome::Ignored));
    assert!(e.update_buffer.is_empty());
}
