//! The closed set of market events and the envelope that carries them.
use vstd::prelude::*;

verus! {

/// Kind of a market event; the key of the handler table.
#[derive(Debug, Clone, Copy, PartialEq, Eq, Structural, Hash)]
pub enum EventType {
    AggTrade,
    Depth,
    Kline,
    Trade,
}

/// An aggregate trade. Money fields keep the venue's decimal strings.
#[derive(Debug, Clone)]
pub struct AggTradeEvent {
    pub event: String,
    pub event_time: u64,
    pub agg_trade_id: u64,
    pub symbol: String,
    pub price: String,
    pub quantity: String,
    pub trade_time: u64,
    pub is_buyer_maker: bool,
    /// Ingress time in microseconds, stamped by the agent; never on the wire.
    pub received_timestamp: u128,
}

/// An incremental depth update covering update ids `first_update_id ..= last_update_id`.
#[derive(Debug, Clone)]
pub struct DepthEvent {
    pub event: String,
    pub event_time: u64,
    pub trade_time: u64,
    pub symbol: String,
    pub first_update_id: u64,
    pub last_update_id: u64,
    pub previous_update_id: u64,
    /// `(price, quantity)` pairs as decimal strings.
    pub bids: Vec<(String, String)>,
    pub asks: Vec<(String, String)>,
    pub received_timestamp: u128,
}

/// The body of a candlestick update.
#[derive(Debug, Clone)]
pub struct KlineInner {
    pub start_time: u64,
    pub end_time: u64,
    pub interval: String,
    pub first_trade_id: u64,
    pub last_trade_id: u64,
    pub open: String,
    pub close: String,
    pub high: String,
    pub low: String,
    pub volume: String,
    pub trade_count: u64,
    pub is_final: bool,
    pub quote_asset_volume: String,
    pub taker_buy_base_volume: String,
    pub taker_buy_quote_volume: String,
    pub ignore: String,
}

/// A continuous-contract candlestick update.
#[derive(Debug, Clone)]
pub struct KlineEvent {
    pub event: String,
    pub event_time: u64,
    pub pair: String,
    pub contract_type: String,
    pub kline: KlineInner,
    pub received_timestamp: u128,
}

/// The typed record carried by an envelope.
#[derive(Debug, Clone)]
pub enum EventPayload {
    AggTrade(AggTradeEvent),
    Depth(DepthEvent),
    Kline(KlineEvent),
}

/// A decoded venue frame, discriminated by its event-type field.
#[derive(Debug, Clone)]
pub enum BinanceEvent {
    AggTrade(AggTradeEvent),
    Depth(DepthEvent),
    Kline(KlineEvent),
}

/// The text of a list of `(price, quantity)` pairs.
pub open spec fn levels_view(v: Seq<(String, String)>) -> Seq<(Seq<char>, Seq<char>)> {
    Seq::new(v.len(), |i: int| (v[i].0@, v[i].1@))
}

pub ghost struct AggTradeView {
    pub event: Seq<char>,
    pub event_time: u64,
    pub agg_trade_id: u64,
    pub symbol: Seq<char>,
    pub price: Seq<char>,
    pub quantity: Seq<char>,
    pub trade_time: u64,
    pub is_buyer_maker: bool,
    pub received_timestamp: u128,
}

pub ghost struct DepthView {
    pub event: Seq<char>,
    pub event_time: u64,
    pub trade_time: u64,
    pub symbol: Seq<char>,
    pub first_update_id: u64,
    pub last_update_id: u64,
    pub previous_update_id: u64,
    pub bids: Seq<(Seq<char>, Seq<char>)>,
    pub asks: Seq<(Seq<char>, Seq<char>)>,
    pub received_timestamp: u128,
}

pub ghost struct KlineInnerView {
    pub start_time: u64,
    pub end_time: u64,
    pub interval: Seq<char>,
    pub first_trade_id: u64,
    pub last_trade_id: u64,
    pub open: Seq<char>,
    pub close: Seq<char>,
    pub high: Seq<char>,
    pub low: Seq<char>,
    pub volume: Seq<char>,
    pub trade_count: u64,
    pub is_final: bool,
    pub quote_asset_volume: Seq<char>,
    pub taker_buy_base_volume: Seq<char>,
    pub taker_buy_quote_volume: Seq<char>,
    pub ignore: Seq<char>,
}

pub ghost struct KlineView {
    pub event: Seq<char>,
    pub event_time: u64,
    pub pair: Seq<char>,
    pub contract_type: Seq<char>,
    pub kline: KlineInnerView,
    pub received_timestamp: u128,
}

/// A record with its texts as character sequences.
pub ghost enum EventView {
    AggTrade(AggTradeView),
    Depth(DepthView),
    Kline(KlineView),
}

impl View for AggTradeEvent {
    type V = AggTradeView;

    open spec fn view(&self) -> AggTradeView {
        AggTradeView {
            event: self.event@,
            event_time: self.event_time,
            agg_trade_id: self.agg_trade_id,
            symbol: self.symbol@,
            price: self.price@,
            quantity: self.quantity@,
            trade_time: self.trade_time,
            is_buyer_maker: self.is_buyer_maker,
            received_timestamp: self.received_timestamp,
        }
    }
}

impl View for DepthEvent {
    type V = DepthView;

    open spec fn view(&self) -> DepthView {
        DepthView {
            event: self.event@,
            event_time: self.event_time,
            trade_time: self.trade_time,
            symbol: self.symbol@,
            first_update_id: self.first_update_id,
            last_update_id: self.last_update_id,
            previous_update_id: self.previous_update_id,
            bids: levels_view(self.bids@),
            asks: levels_view(self.asks@),
            received_timestamp: self.received_timestamp,
        }
    }
}

impl View for KlineInner {
    type V = KlineInnerView;

    open spec fn view(&self) -> KlineInnerView {
        KlineInnerView {
            start_time: self.start_time,
            end_time: self.end_time,
            interval: self.interval@,
            first_trade_id: self.first_trade_id,
            last_trade_id: self.last_trade_id,
            open: self.open@,
            close: self.close@,
            high: self.high@,
            low: self.low@,
            volume: self.volume@,
            trade_count: self.trade_count,
            is_final: self.is_final,
            quote_asset_volume: self.quote_asset_volume@,
            taker_buy_base_volume: self.taker_buy_base_volume@,
            taker_buy_quote_volume: self.taker_buy_quote_volume@,
            ignore: self.ignore@,
        }
    }
}

impl View for KlineEvent {
    type V = KlineView;

    open spec fn view(&self) -> KlineView {
        KlineView {
            event: self.event@,
            event_time: self.event_time,
            pair: self.pair@,
            contract_type: self.contract_type@,
            kline: self.kline@,
            received_timestamp: self.received_timestamp,
        }
    }
}

impl View for BinanceEvent {
    type V = EventView;

    open spec fn view(&self) -> EventView {
        match self {
            BinanceEvent::AggTrade(e) => EventView::AggTrade(e@),
            BinanceEvent::Depth(e) => EventView::Depth(e@),
            BinanceEvent::Kline(e) => EventView::Kline(e@),
        }
    }
}

/// The view of the record a payload carries.
pub open spec fn payload_view(p: EventPayload) -> EventView {
    match p {
        EventPayload::AggTrade(e) => EventView::AggTrade(e@),
        EventPayload::Depth(e) => EventView::Depth(e@),
        EventPayload::Kline(e) => EventView::Kline(e@),
    }
}

/// The record view with its ingress timestamp set to `ts`.
pub open spec fn stamped_view(v: EventView, ts: u128) -> EventView {
    match v {
        EventView::AggTrade(e) => EventView::AggTrade(AggTradeView { received_timestamp: ts, ..e }),
        EventView::Depth(e) => EventView::Depth(DepthView { received_timestamp: ts, ..e }),
        EventView::Kline(e) => EventView::Kline(KlineView { received_timestamp: ts, ..e }),
    }
}

/// The kind that a payload variant belongs to.
pub open spec fn payload_kind(p: EventPayload) -> EventType {
    match p {
        EventPayload::AggTrade(_) => EventType::AggTrade,
        EventPayload::Depth(_) => EventType::Depth,
        EventPayload::Kline(_) => EventType::Kline,
    }
}

/// The ingress timestamp stamped into a payload.
pub open spec fn payload_stamp(p: EventPayload) -> u128 {
    match p {
        EventPayload::AggTrade(e) => e.received_timestamp,
        EventPayload::Depth(e) => e.received_timestamp,
        EventPayload::Kline(e) => e.received_timestamp,
    }
}

impl EventPayload {
    pub fn kind(&self) -> (r: EventType)
        ensures
            r == payload_kind(*self),
    {
        match self {
            EventPayload::AggTrade(_) => EventType::AggTrade,
            EventPayload::Depth(_) => EventType::Depth,
            EventPayload::Kline(_) => EventType::Kline,
        }
    }
}

impl BinanceEvent {
    pub open spec fn spec_event_type(&self) -> EventType {
        match self {
            BinanceEvent::AggTrade(_) => EventType::AggTrade,
            BinanceEvent::Depth(_) => EventType::Depth,
            BinanceEvent::Kline(_) => EventType::Kline,
        }
    }

    pub fn event_type(&self) -> (r: EventType)
        ensures
            r == self.spec_event_type(),
    {
        match self {
            BinanceEvent::AggTrade(_) => EventType::AggTrade,
            BinanceEvent::Depth(_) => EventType::Depth,
            BinanceEvent::Kline(_) => EventType::Kline,
        }
    }

    /// The payload carrying the same record.
    pub open spec fn spec_into_payload(self) -> EventPayload {
        match self {
            BinanceEvent::AggTrade(e) => EventPayload::AggTrade(e),
            BinanceEvent::Depth(e) => EventPayload::Depth(e),
            BinanceEvent::Kline(e) => EventPayload::Kline(e),
        }
    }

    pub fn into_payload(self) -> (r: EventPayload)
        ensures
            r == self.spec_into_payload(),
            payload_kind(r) == self.spec_event_type(),
            payload_view(r) == self@,
    {
        match self {
            BinanceEvent::AggTrade(e) => EventPayload::AggTrade(e),
            BinanceEvent::Depth(e) => EventPayload::Depth(e),
            BinanceEvent::Kline(e) => EventPayload::Kline(e),
        }
    }
}

/// An envelope: a kind and a payload of that kind.
#[derive(Debug, Clone)]
pub struct EventData {
    pub event_type: EventType,
    pub data: EventPayload,
}

impl EventData {
    /// The kind agrees with the payload variant.
    pub open spec fn wf(&self) -> bool {
        self.event_type == payload_kind(self.data)
    }

    /// Wraps a payload under its own kind.
    pub fn new(data: EventPayload) -> (r: EventData)
        ensures
            r.wf(),
            r.data == data,
    {
        let event_type = data.kind();
        EventData { event_type, data }
    }
}

} // verus!
