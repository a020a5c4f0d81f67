use market_engine::json::{parse_json, Json};
use market_engine::agent::{decode_document, create_market_agent_with_consumer, AgentType, MarketAgentConsumerEnum, MarketAgentEnum, decode_frame, event_kind_of_tag, stamp, BinanceMarketAgent, DecodeError, FrameOutcome, MarketAgent};
use market_engine::client::{BinanceWebSocketClient, ClientAction, ClientError, LoopEvent, RECONNECT_DELAY_MS, ROTATION_MS};
use market_engine::dispatcher::AsyncQueueEventDispatcher;
use market_engine::event::{BinanceEvent, EventPayload, EventType};
use market_engine::exchange::Exchange;
use market_engine::config::{get_push_interval_enum, Config, ConfigError, DefaultSection, FinalConfig, PushInterval, TelegramConfig, TelegramEnvGroup};
use std::collections::HashMap;

const AGG: &str = r#"{"e":"aggTrade","E":1741225971347,"a":670434678,"s":"BNBUSDT","p":"603.230","q":"0.21","T":1741225971276,"m":true}"#;

fn names(v: &[&str]) -> Vec<String> {
    v.iter().map(|s| s.to_string()).collect()
}

#[test]
fn agg_trade_decode_scenario() {
    let d = AsyncQueueEventDispatcher::new(8);
    let (producer, mut consumer) = d.split();
    let mut agent = BinanceMarketAgent::new(BinanceWebSocketClient::new(), producer);
    let out = agent.on_message(AGG, 1_741_225_971_400_123);
    assert_eq!(out, FrameOutcome::Fired(1_741_225_971_400_123));
    let batch = consumer.process();
    assert_eq!(batch.events.len(), 1);
    assert_eq!(batch.events[0].event_type, EventType::AggTrade);
    match &batch.events[0].data {
        EventPayload::AggTrade(t) => {
            assert_eq!(t.symbol, "BNBUSDT");
            assert_eq!(t.price, "603.230");
            assert_eq!(t.quantity, "0.21");
            assert_eq!(t.trade_time, 1741225971276);
            assert_eq!(t.event_time, 1741225971347);
            assert_eq!(t.agg_trade_id, 670434678);
            assert!(t.is_buyer_maker);
            assert!(t.received_timestamp != 0);
        }
        _ => panic!("expected an aggregate trade"),
    }
}

#[test]
fn ingress_stamps_never_decrease() {
    let d = AsyncQueueEventDispatcher::new(8);
    let (producer, _consumer) = d.split();
    let mut agent = BinanceMarketAgent::new(BinanceWebSocketClient::new(), producer);
    assert_eq!(agent.on_message(AGG, 500), FrameOutcome::Fired(500));
    assert_eq!(agent.on_message(AGG, 400), FrameOutcome::Fired(500));
    assert_eq!(agent.on_message(AGG, 900), FrameOutcome::Fired(900));
    assert_eq!(agent.on_message("not json", 950), FrameOutcome::Rejected(DecodeError::Malformed));
    assert_eq!(agent.on_message(AGG, 920), FrameOutcome::Fired(950));
    assert_eq!(agent.decode_failures, 1);
}

#[test]
fn full_ring_drops_frames() {
    let d = AsyncQueueEventDispatcher::new(1);
    let (producer, _consumer) = d.split();
    let mut agent = BinanceMarketAgent::new(BinanceWebSocketClient::new(), producer);
    assert_eq!(agent.on_message(AGG, 1), FrameOutcome::Fired(1));
    assert_eq!(agent.on_message(AGG, 2), FrameOutcome::Dropped(2));
    assert_eq!(agent.event_producer.dropped(), 1);
}

#[test]
fn depth_and_combined_frames_decode() {
    let text = r#"{"stream":"btcusdt@depth","data":{"e":"depthUpdate","E":5,"T":4,"s":"BTCUSDT","U":10,"u":12,"pu":9,"b":[["100.5","1.25"]],"a":[["101","0"]]}}"#;
    match decode_frame(text) {
        Ok(BinanceEvent::Depth(d)) => {
            assert_eq!(d.first_update_id, 10);
            assert_eq!(d.last_update_id, 12);
            assert_eq!(d.previous_update_id, 9);
            assert_eq!(d.bids, vec![("100.5".to_string(), "1.25".to_string())]);
            assert_eq!(d.asks, vec![("101".to_string(), "0".to_string())]);
            assert_eq!(d.event, "depthUpdate");
        }
        other => panic!("unexpected {:?}", other),
    }
}

#[test]
fn kline_frame_decodes() {
    let text = r#"{"e":"continuous_kline","E":1607443058651,"ps":"BTCUSDT","ct":"PERPETUAL","k":{"t":1607443020000,"T":1607443079999,"i":"1m","f":116467658886,"L":116468012423,"o":"18787.00","c":"18804.04","h":"18804.04","l":"18786.54","v":"197.664","n":543,"x":false,"q":"3715253.19494","V":"184.769","Q":"3472925.84746","B":"0"}}"#;
    match decode_frame(text) {
        Ok(BinanceEvent::Kline(k)) => {
            assert_eq!(k.pair, "BTCUSDT");
            assert_eq!(k.contract_type, "PERPETUAL");
            assert_eq!(k.kline.interval, "1m");
            assert_eq!(k.kline.trade_count, 543);
            assert_eq!(k.kline.close, "18804.04");
            assert!(!k.kline.is_final);
        }
        other => panic!("unexpected {:?}", other),
    }
}

#[test]
fn bad_frames_are_rejected() {
    assert_eq!(decode_frame(r#"{"e":"bookTicker"}"#).unwrap_err(), DecodeError::UnknownEvent);
    assert_eq!(decode_frame(r#"{"result":null,"id":1}"#).unwrap_err(), DecodeError::UnknownEvent);
    assert_eq!(decode_frame(r#"{"e":"aggTrade","a":"x"}"#).unwrap_err(), DecodeError::Malformed);
    assert_eq!(decode_frame(r#"{"e":"continuous_kline","E":1}"#).unwrap_err(), DecodeError::Malformed);
    assert_eq!(decode_frame("{").unwrap_err(), DecodeError::Malformed);
}

#[test]
fn tags_and_stamps() {
    assert_eq!(event_kind_of_tag("aggTrade"), Some(EventType::AggTrade));
    assert_eq!(event_kind_of_tag("depthUpdate"), Some(EventType::Depth));
    assert_eq!(event_kind_of_tag("continuous_kline"), Some(EventType::Kline));
    assert_eq!(event_kind_of_tag("kline"), None);
    let ev = stamp(decode_frame(AGG).unwrap(), 77);
    match ev {
        BinanceEvent::AggTrade(t) => assert_eq!(t.received_timestamp, 77),
        _ => panic!("expected an aggregate trade"),
    }
}

#[test]
fn agent_typed_handlers_fire() {
    let d = AsyncQueueEventDispatcher::new(4);
    let (producer, mut consumer) = d.split();
    let mut agent = BinanceMarketAgent::new(BinanceWebSocketClient::new(), producer);
    if let Ok(BinanceEvent::AggTrade(t)) = decode_frame(AGG) {
        agent.on_trade(t);
    }
    let batch = consumer.process();
    assert_eq!(batch.events[0].event_type, EventType::AggTrade);
}

#[test]
fn urls_are_lower_cased() {
    assert_eq!(
        BinanceWebSocketClient::build_url(&names(&["BTCUSDT@aggTrade"])),
        "wss://fstream.binance.com/ws/btcusdt@aggtrade"
    );
    assert_eq!(
        BinanceWebSocketClient::build_url(&names(&["BTCUSDT@aggTrade", "ethusdt@Depth"])),
        "wss://fstream.binance.com/stream?streams=/btcusdt@aggtrade/ethusdt@depth"
    );
    assert_eq!(
        BinanceWebSocketClient::connect_url(&names(&["btcusdt@depth@100ms"])),
        Ok("wss://fstream.binance.com/ws/btcusdt@depth@100ms".to_string())
    );
}

#[test]
fn stream_limits() {
    let many: Vec<String> = (0..201).map(|i| format!("s{}@aggTrade", i)).collect();
    assert_eq!(BinanceWebSocketClient::connect_url(&many), Err(ClientError::TooManyStreams));
    let mut c = BinanceWebSocketClient::new();
    let first: Vec<String> = (0..150).map(|i| format!("s{}@aggTrade", i)).collect();
    assert!(c.subscribe(&first).is_ok());
    let more: Vec<String> = (150..201).map(|i| format!("s{}@aggTrade", i)).collect();
    assert_eq!(c.subscribe(&more), Err(ClientError::SubscriptionLimit));
    assert_eq!(c.remembered().len(), 150);
}

#[test]
fn subscribe_frame_and_memory() {
    let mut c = BinanceWebSocketClient::new();
    let f = c.subscribe(&names(&["btcusdt@aggTrade", "btcusdt@depth"])).unwrap();
    assert_eq!(f, r#"{"method":"SUBSCRIBE","params":["btcusdt@aggTrade","btcusdt@depth"],"id":1}"#);
    let f = c.subscribe(&names(&["btcusdt@depth", "a\"b"])).unwrap();
    assert_eq!(f, r#"{"method":"SUBSCRIBE","params":["btcusdt@depth","a\"b"],"id":1}"#);
    assert_eq!(c.remembered(), &names(&["btcusdt@aggTrade", "btcusdt@depth", "a\"b"]));
}

#[test]
fn rotation_after_a_day() {
    let mut c = BinanceWebSocketClient::new();
    c.subscribe(&names(&["btcusdt@aggTrade", "ethusdt@aggTrade"])).unwrap();
    let expected = r#"{"method":"SUBSCRIBE","params":["btcusdt@aggTrade","ethusdt@aggTrade"],"id":1}"#;
    assert!(matches!(c.on_event(LoopEvent::Connected { now_ms: 1_000 }), ClientAction::Resubscribe { .. }));
    assert!(matches!(c.on_event(LoopEvent::SubscribeSent), ClientAction::Idle));
    assert!(matches!(c.on_event(LoopEvent::Tick { now_ms: 1_000 + ROTATION_MS - 1 }), ClientAction::ReadFrame));
    match c.on_event(LoopEvent::Tick { now_ms: 1_000 + ROTATION_MS + 5 }) {
        ClientAction::Reconnect { delay_ms, url } => {
            assert_eq!(delay_ms, RECONNECT_DELAY_MS);
            assert_eq!(url, "wss://fstream.binance.com/ws");
        }
        other => panic!("unexpected {:?}", other),
    }
    let mut frames = vec![];
    if let ClientAction::Resubscribe { delay_ms: 100, frame: f } = c.on_event(LoopEvent::Connected { now_ms: 1_000 + ROTATION_MS + 3_010 }) {
        frames.push(f);
    }
    assert!(matches!(c.on_event(LoopEvent::SubscribeSent), ClientAction::Idle));
    assert!(matches!(c.on_event(LoopEvent::Tick { now_ms: 1_000 + ROTATION_MS + 3_020 }), ClientAction::ReadFrame));
    assert_eq!(frames, vec![expected.to_string()]);
}

#[test]
fn reconnect_after_close_resubscribes_same_streams() {
    let mut c = BinanceWebSocketClient::new();
    c.subscribe(&names(&["bnbusdt@aggTrade"])).unwrap();
    c.on_event(LoopEvent::Connected { now_ms: 0 });
    assert!(matches!(c.on_event(LoopEvent::Close), ClientAction::Idle));
    assert!(matches!(c.on_event(LoopEvent::Tick { now_ms: 10 }), ClientAction::Reconnect { .. }));
    assert!(matches!(c.on_event(LoopEvent::ConnectFailed), ClientAction::Idle));
    assert!(matches!(c.on_event(LoopEvent::Tick { now_ms: 20 }), ClientAction::Reconnect { .. }));
    match c.on_event(LoopEvent::Connected { now_ms: 30 }) {
        ClientAction::Resubscribe { delay_ms, frame: f } => {
            assert_eq!(delay_ms, 100);
            assert_eq!(f, r#"{"method":"SUBSCRIBE","params":["bnbusdt@aggTrade"],"id":1}"#)
        }
        other => panic!("unexpected {:?}", other),
    }
    assert_eq!(c.remembered(), &names(&["bnbusdt@aggTrade"]));
}

#[test]
fn frames_map_to_actions() {
    let mut c = BinanceWebSocketClient::new();
    assert!(matches!(c.on_event(LoopEvent::Tick { now_ms: 0 }), ClientAction::Fail(ClientError::NoRememberedStreams)));
    c.subscribe(&names(&["x@aggTrade"])).unwrap();
    c.on_event(LoopEvent::Connected { now_ms: 0 });
    assert!(matches!(c.on_event(LoopEvent::Text("hi".to_string())), ClientAction::Deliver(ref t) if t == "hi"));
    assert!(matches!(c.on_event(LoopEvent::Ping(vec![1, 2])), ClientAction::SendPong(ref p) if p == &vec![1, 2]));
    assert!(matches!(c.on_event(LoopEvent::Pong), ClientAction::Idle));
    assert!(matches!(c.on_event(LoopEvent::Binary), ClientAction::Idle));
    assert!(matches!(c.on_event(LoopEvent::ReadError), ClientAction::Idle));
    assert!(matches!(c.on_event(LoopEvent::Tick { now_ms: 5 }), ClientAction::Reconnect { .. }));
}

#[test]
fn exchange_name() {
    assert_eq!(Exchange::Binance.as_str(), "binance");
}

fn raw_config(env: &str, interval: &str) -> Config {
    Config {
        push_interval: interval.to_string(),
        history_max_len: 10,
        watched_quantities: HashMap::new(),
        backup_path: "backup.json".to_string(),
        telegram: TelegramEnvGroup {
            prod: TelegramConfig { token: "p".to_string() },
            test: TelegramConfig { token: "t".to_string() },
        },
        default: DefaultSection { env: env.to_string() },
    }
}

#[test]
fn config_environment_selection() {
    let c = FinalConfig::from_config(raw_config("test", "1h")).unwrap();
    assert_eq!(c.telegram.token, "t");
    assert_eq!(get_push_interval_enum(&c), Some(PushInterval::Hour1));
    let c = FinalConfig::from_config(raw_config("prod", "weekly")).unwrap();
    assert_eq!(c.telegram.token, "p");
    assert_eq!(get_push_interval_enum(&c), None);
    assert_eq!(FinalConfig::from_config(raw_config("dev", "1h")).unwrap_err(), ConfigError::UnknownEnvironment);
}

#[test]
fn push_interval_names() {
    assert_eq!(PushInterval::from_str("5min"), Some(PushInterval::Min5));
    assert_eq!(PushInterval::from_str("15min"), Some(PushInterval::Min15));
    assert_eq!(PushInterval::from_str("4h"), Some(PushInterval::Hour4));
    assert_eq!(PushInterval::from_str("8h"), Some(PushInterval::Hour8));
    assert_eq!(PushInterval::from_str("1d"), Some(PushInterval::Day1));
    assert_eq!(PushInterval::from_str("1H"), None);
}

#[test]
fn factory_builds_matching_halves() {
    let (agent, consumer) = create_market_agent_with_consumer(Exchange::Binance, AgentType::Mpsc, BinanceWebSocketClient::new(), 4);
    match (agent, consumer) {
        (MarketAgentEnum::Mpsc(mut a), MarketAgentConsumerEnum::Mpsc(c)) => {
            assert_eq!(a.on_message(AGG, 3), FrameOutcome::Fired(3));
            assert_eq!(c.process().events.len(), 1);
        }
        _ => panic!("expected the channel transport"),
    }
    let (agent, consumer) = create_market_agent_with_consumer(Exchange::Binance, AgentType::Spsc, BinanceWebSocketClient::new(), 4);
    match (agent, consumer) {
        (MarketAgentEnum::Spsc(mut a), MarketAgentConsumerEnum::Spsc(mut c)) => {
            assert_eq!(a.on_message(AGG, 3), FrameOutcome::Fired(3));
            assert_eq!(c.process().events.len(), 1);
        }
        _ => panic!("expected the ring transport"),
    }
}

fn st(s: &str) -> Json {
    Json::Str(s.to_string())
}

fn num(s: &str) -> Json {
    Json::Number(s.to_string())
}

fn obj(members: Vec<(&str, Json)>) -> Json {
    Json::Object(members.into_iter().map(|(k, v)| (k.to_string(), v)).collect())
}

#[test]
fn document_field_mapping() {
    let doc = obj(vec![
        ("E", num("5")),
        ("T", num("4")),
        ("U", num("10")),
        ("a", Json::Array(vec![Json::Array(vec![st("101"), st("0")])])),
        ("b", Json::Array(vec![])),
        ("e", st("depthUpdate")),
        ("pu", num("9")),
        ("s", st("BTCUSDT")),
        ("u", num("12")),
    ]);
    match decode_document(&doc) {
        Ok(BinanceEvent::Depth(d)) => {
            assert_eq!((d.event_time, d.trade_time), (5, 4));
            assert_eq!((d.first_update_id, d.last_update_id, d.previous_update_id), (10, 12, 9));
            assert_eq!(d.symbol, "BTCUSDT");
            assert!(d.bids.is_empty());
            assert_eq!(d.asks, vec![("101".to_string(), "0".to_string())]);
        }
        other => panic!("unexpected {:?}", other),
    }
}

#[test]
fn document_defaults_and_shapes() {
    let sparse = obj(vec![("e", st("aggTrade")), ("price", st("7.5"))]);
    match decode_document(&sparse) {
        Ok(BinanceEvent::AggTrade(t)) => {
            assert_eq!(t.price, "7.5");
            assert_eq!(t.symbol, "");
            assert_eq!(t.agg_trade_id, 0);
            assert!(!t.is_buyer_maker);
        }
        other => panic!("unexpected {:?}", other),
    }
    let negative = obj(vec![("e", st("aggTrade")), ("a", num("-1"))]);
    assert_eq!(decode_document(&negative).unwrap_err(), DecodeError::Malformed);
    let short_pair = obj(vec![("e", st("depthUpdate")), ("b", Json::Array(vec![Json::Array(vec![st("1")])]))]);
    assert_eq!(decode_document(&short_pair).unwrap_err(), DecodeError::Malformed);
    let no_tag = obj(vec![("data", obj(vec![("s", st("X"))]))]);
    assert_eq!(decode_document(&no_tag).unwrap_err(), DecodeError::UnknownEvent);
    assert_eq!(decode_document(&Json::Null).unwrap_err(), DecodeError::UnknownEvent);
}

#[test]
fn parsed_documents_keep_numbers_as_text() {
    match parse_json(r#"{"b":true,"a":[1,"x",null]}"#) {
        Some(Json::Object(m)) => {
            assert_eq!(m.len(), 2);
            assert_eq!(m[0].0, "a");
            assert!(matches!(&m[0].1, Json::Array(v) if v.len() == 3 && matches!(&v[0], Json::Number(n) if n == "1")));
            assert!(matches!(m[1].1, Json::Bool(true)));
        }
        other => panic!("unexpected {:?}", other),
    }
    assert!(parse_json("{").is_none());
}

#[test]
fn control_characters_are_escaped_in_frames() {
    let mut c = BinanceWebSocketClient::new();
    let f = c.subscribe(&names(&["a\nb\u{1}"])).unwrap();
    assert_eq!(f, "{\"method\":\"SUBSCRIBE\",\"params\":[\"a\\nb\\u0001\"],\"id\":1}");
}
