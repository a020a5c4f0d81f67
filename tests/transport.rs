use market_engine::dispatcher::{AsyncQueueEventDispatcher, Dispatch, HandlerTable, QueueEventDispatcher};
use market_engine::dispatcher_mpsc::{AsyncQueueEventDispatcherMPSC, QueueEventDispatcherMPSC};
use market_engine::event::{AggTradeEvent, DepthEvent, EventData, EventPayload, EventType};
use market_engine::ring::EventRing;

fn trade(id: u64) -> AggTradeEvent {
    AggTradeEvent {
        event: "aggTrade".to_string(),
        event_time: id,
        agg_trade_id: id,
        symbol: "BTCUSDT".to_string(),
        price: "1.0".to_string(),
        quantity: "2.0".to_string(),
        trade_time: id,
        is_buyer_maker: false,
        received_timestamp: 0,
    }
}

fn depth(id: u64) -> DepthEvent {
    DepthEvent {
        event: "depthUpdate".to_string(),
        event_time: id,
        trade_time: id,
        symbol: "BTCUSDT".to_string(),
        first_update_id: id,
        last_update_id: id,
        previous_update_id: id - 1,
        bids: vec![],
        asks: vec![],
        received_timestamp: 0,
    }
}

fn trade_id(e: &EventData) -> u64 {
    match &e.data {
        EventPayload::AggTrade(t) => t.agg_trade_id,
        _ => panic!("not a trade"),
    }
}

#[test]
fn ring_is_fifo() {
    let mut r = EventRing::new(8);
    for id in 1..=5 {
        assert!(r.push(EventData::new(EventPayload::AggTrade(trade(id)))).is_ok());
    }
    let mut out = vec![];
    while let Some(e) = r.pop() {
        out.push(trade_id(&e));
    }
    assert_eq!(out, vec![1, 2, 3, 4, 5]);
}

#[test]
fn full_ring_refuses_and_keeps_oldest() {
    let mut r = EventRing::new(2);
    assert!(r.push(EventData::new(EventPayload::AggTrade(trade(1)))).is_ok());
    assert!(r.push(EventData::new(EventPayload::AggTrade(trade(2)))).is_ok());
    let refused = r.push(EventData::new(EventPayload::AggTrade(trade(3))));
    assert_eq!(trade_id(&refused.unwrap_err()), 3);
    assert_eq!(trade_id(&r.pop().unwrap()), 1);
    assert_eq!(trade_id(&r.pop().unwrap()), 2);
    assert!(r.pop().is_none());
}

#[test]
fn ring_fifo_under_backpressure() {
    let mut d = QueueEventDispatcher::new(4);
    let mut accepted = vec![];
    for id in 1..=6 {
        accepted.push(d.fire(EventType::AggTrade, EventPayload::AggTrade(trade(id))));
    }
    assert_eq!(accepted, vec![true, true, true, true, false, false]);
    assert_eq!(d.dropped(), 2);
    let batch = d.process();
    let ids: Vec<u64> = batch.events.iter().map(trade_id).collect();
    assert_eq!(ids, vec![1, 2, 3, 4]);
    assert!(d.process().events.is_empty());
}

#[test]
fn dispatcher_routing() {
    let mut d = QueueEventDispatcher::new(16);
    d.register(EventType::AggTrade, 1);
    d.register(EventType::Depth, 2);
    d.register(EventType::AggTrade, 3);
    assert!(d.fire(EventType::AggTrade, EventPayload::AggTrade(trade(7))));
    assert!(d.fire(EventType::Depth, EventPayload::Depth(depth(8))));
    let batch = d.process();
    assert_eq!(batch.events.len(), 2);
    assert_eq!(
        batch.calls,
        vec![
            Dispatch { handler: 1, event: 0 },
            Dispatch { handler: 3, event: 0 },
            Dispatch { handler: 2, event: 1 },
        ]
    );
    assert_eq!(trade_id(&batch.events[0]), 7);
    assert!(matches!(batch.events[1].data, EventPayload::Depth(ref x) if x.last_update_id == 8));
}

#[test]
fn unregistered_kind_gets_no_calls() {
    let mut t = HandlerTable::new();
    t.register(EventType::Kline, 4);
    t.register(EventType::Kline, 5);
    t.unregister(EventType::Kline);
    t.register(EventType::Depth, 6);
    let events = vec![EventData::new(EventPayload::AggTrade(trade(1))), EventData::new(EventPayload::Depth(depth(2)))];
    assert_eq!(t.fan_out(&events), vec![Dispatch { handler: 6, event: 1 }]);
    t.clear_events();
    assert!(t.fan_out(&events).is_empty());
}

#[test]
fn split_halves_carry_events() {
    let mut d = AsyncQueueEventDispatcher::new(4);
    d.register(EventType::AggTrade, 0);
    let (mut producer, mut consumer) = d.split();
    assert!(producer.fire(EventType::AggTrade, EventPayload::AggTrade(trade(1))));
    assert!(producer.fire(EventType::AggTrade, EventPayload::AggTrade(trade(2))));
    let batch = consumer.process();
    let ids: Vec<u64> = batch.events.iter().map(trade_id).collect();
    assert_eq!(ids, vec![1, 2]);
    assert_eq!(batch.calls, vec![Dispatch { handler: 0, event: 0 }, Dispatch { handler: 0, event: 1 }]);
    assert_eq!(consumer.handlers_for(EventType::AggTrade), &vec![0]);
}

#[test]
fn channel_dispatcher_routes() {
    let mut d = QueueEventDispatcherMPSC::new(2);
    d.register(EventType::Depth, 9);
    assert!(d.fire(EventType::Depth, EventPayload::Depth(depth(5))));
    assert!(d.fire(EventType::AggTrade, EventPayload::AggTrade(trade(6))));
    assert!(!d.fire(EventType::AggTrade, EventPayload::AggTrade(trade(7))));
    let batch = d.process();
    assert_eq!(batch.events.len(), 2);
    assert_eq!(batch.calls, vec![Dispatch { handler: 9, event: 0 }]);
}

#[test]
fn channel_halves_carry_events() {
    let mut d = AsyncQueueEventDispatcherMPSC::new(3);
    d.register(EventType::AggTrade, 1);
    let (mut producer, consumer) = d.split();
    assert!(producer.fire(EventType::AggTrade, EventPayload::AggTrade(trade(3))));
    let batch = consumer.process();
    assert_eq!(batch.events.iter().map(trade_id).collect::<Vec<_>>(), vec![3]);
    assert_eq!(batch.calls, vec![Dispatch { handler: 1, event: 0 }]);
}
