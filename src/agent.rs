//! The market agent: decodes text frames into typed events, stamps ingress
//! time, and fires envelopes into the producer half of the dispatcher.
use vstd::prelude::*;
use crate::client::BinanceWebSocketClient;
use crate::dispatcher::{
    AsyncQueueEventDispatcher, QueueEventDispatcherConsumer, QueueEventDispatcherProducer,
};
use crate::dispatcher_mpsc::{
    AsyncQueueEventDispatcherMPSC, QueueEventDispatcherMPSCConsumer,
    QueueEventDispatcherMPSCProducer,
};
use crate::exchange::Exchange;
use crate::ring::MAX_RING_CAPACITY;
use crate::event::{
    levels_view, payload_view, stamped_view, AggTradeView, DepthView, EventView, KlineInnerView,
    KlineView, payload_kind, payload_stamp, AggTradeEvent, BinanceEvent, DepthEvent, EventData,
    EventPayload, EventType, KlineEvent, KlineInner,
};
use crate::text::same_text;
use crate::json::{
    as_bool, as_text, as_u64, bool_of, get, get_either, json_of, member, parse_json, text_of, u64_of, Json,
};

verus! {

/// Why a frame was not turned into an event.
#[derive(Debug, Clone, Copy, PartialEq, Eq, Structural)]
pub enum DecodeError {
    /// Not JSON, or a field of the wrong shape.
    Malformed,
    /// The event-type field is missing or names no known event.
    UnknownEvent,
}

/// What became of one text frame.
#[derive(Debug, Clone, Copy, PartialEq, Eq, Structural)]
pub enum FrameOutcome {
    /// Decoded, stamped with this ingress time and pushed.
    Fired(u128),
    /// Decoded and stamped, but the ring was full.
    Dropped(u128),
    /// Not decoded; the frame is dropped.
    Rejected(DecodeError),
}

/// The kind named by the venue's event-type field.
pub open spec fn kind_of_tag(tag: Seq<char>) -> Option<EventType> {
    if tag == "aggTrade"@ {
        Some(EventType::AggTrade)
    } else if tag == "depthUpdate"@ {
        Some(EventType::Depth)
    } else if tag == "continuous_kline"@ {
        Some(EventType::Kline)
    } else {
        None
    }
}

/// The kind named by an event-type tag.
pub fn event_kind_of_tag(tag: &str) -> (r: Option<EventType>)
    ensures
        r == kind_of_tag(tag@),
{
    if same_text(tag, "aggTrade") {
        Some(EventType::AggTrade)
    } else if same_text(tag, "depthUpdate") {
        Some(EventType::Depth)
    } else if same_text(tag, "continuous_kline") {
        Some(EventType::Kline)
    } else {
        None
    }
}

/// A string member; empty when absent, `None` when not a string.
pub open spec fn text_or_empty_of(j: Json, short: Seq<char>, long: Seq<char>) -> Option<Seq<char>> {
    match get_either(j, short, long) {
        None => Some(Seq::empty()),
        Some(x) => text_of(x),
    }
}

/// An integer member; zero when absent, `None` when not a `u64`.
pub open spec fn u64_or_zero_of(j: Json, short: Seq<char>, long: Seq<char>) -> Option<u64> {
    match get_either(j, short, long) {
        None => Some(0),
        Some(x) => u64_of(x),
    }
}

/// A boolean member; false when absent, `None` when not a boolean.
pub open spec fn bool_or_false_of(j: Json, short: Seq<char>, long: Seq<char>) -> Option<bool> {
    match get_either(j, short, long) {
        None => Some(false),
        Some(x) => bool_of(x),
    }
}

/// A string member that must be present.
pub open spec fn text_required_of(j: Json, key: Seq<char>) -> Option<Seq<char>> {
    match get(j, key) {
        None => None,
        Some(x) => text_of(x),
    }
}

/// An integer member that must be present.
pub open spec fn u64_required_of(j: Json, key: Seq<char>) -> Option<u64> {
    match get(j, key) {
        None => None,
        Some(x) => u64_of(x),
    }
}

/// A boolean member that must be present.
pub open spec fn bool_required_of(j: Json, key: Seq<char>) -> Option<bool> {
    match get(j, key) {
        None => None,
        Some(x) => bool_of(x),
    }
}

/// A `[price, quantity]` pair of strings.
pub open spec fn pair_of(x: Json) -> Option<(Seq<char>, Seq<char>)> {
    match x {
        Json::Array(p) => if p@.len() == 2 && text_of(p@[0]) is Some && text_of(p@[1]) is Some {
            Some((text_of(p@[0])->0, text_of(p@[1])->0))
        } else {
            None
        },
        _ => None,
    }
}

pub open spec fn pairs_of(items: Seq<Json>) -> Option<Seq<(Seq<char>, Seq<char>)>>
    decreases items.len(),
{
    if items.len() == 0 {
        Some(Seq::empty())
    } else {
        match (pairs_of(items.drop_last()), pair_of(items.last())) {
            (Some(a), Some(p)) => Some(a.push(p)),
            _ => None,
        }
    }
}

/// A list of `[price, quantity]` pairs; empty when absent.
pub open spec fn levels_of(j: Json, short: Seq<char>, long: Seq<char>) -> Option<Seq<(Seq<char>, Seq<char>)>> {
    match get_either(j, short, long) {
        None => Some(Seq::empty()),
        Some(Json::Array(items)) => pairs_of(items@),
        Some(_) => None,
    }
}

/// The aggregate trade in an object (`E a s p q T m`, or their long names).
pub open spec fn agg_trade_of(j: Json, tag: Seq<char>) -> Option<AggTradeView> {
    let et = u64_or_zero_of(j, "E"@, "eventTime"@);
    let a = u64_or_zero_of(j, "a"@, "aggTradeId"@);
    let sy = text_or_empty_of(j, "s"@, "symbol"@);
    let p = text_or_empty_of(j, "p"@, "price"@);
    let q = text_or_empty_of(j, "q"@, "quantity"@);
    let t = u64_or_zero_of(j, "T"@, "tradeTime"@);
    let m = bool_or_false_of(j, "m"@, "isBuyerMaker"@);
    if et is Some && a is Some && sy is Some && p is Some && q is Some && t is Some && m is Some {
        Some(AggTradeView {
            event: tag,
            event_time: et->0,
            agg_trade_id: a->0,
            symbol: sy->0,
            price: p->0,
            quantity: q->0,
            trade_time: t->0,
            is_buyer_maker: m->0,
            received_timestamp: 0,
        })
    } else {
        None
    }
}

/// The depth update in an object (`E T s U u pu b a`).
pub open spec fn depth_of(j: Json, tag: Seq<char>) -> Option<DepthView> {
    let et = u64_or_zero_of(j, "E"@, "eventTime"@);
    let t = u64_or_zero_of(j, "T"@, "tradeTime"@);
    let sy = text_or_empty_of(j, "s"@, "symbol"@);
    let fu = u64_or_zero_of(j, "U"@, "U"@);
    let lu = u64_or_zero_of(j, "u"@, "u"@);
    let pu = u64_or_zero_of(j, "pu"@, "pu"@);
    let b = levels_of(j, "b"@, "b"@);
    let a = levels_of(j, "a"@, "a"@);
    if et is Some && t is Some && sy is Some && fu is Some && lu is Some && pu is Some && b is Some
        && a is Some {
        Some(DepthView {
            event: tag,
            event_time: et->0,
            trade_time: t->0,
            symbol: sy->0,
            first_update_id: fu->0,
            last_update_id: lu->0,
            previous_update_id: pu->0,
            bids: b->0,
            asks: a->0,
            received_timestamp: 0,
        })
    } else {
        None
    }
}

/// The candlestick body in the `k` object; every member required.
pub open spec fn kline_inner_of(k: Json) -> Option<KlineInnerView> {
    let t = u64_required_of(k, "t"@);
    let tt = u64_required_of(k, "T"@);
    let i = text_required_of(k, "i"@);
    let f = u64_required_of(k, "f"@);
    let l = u64_required_of(k, "L"@);
    let o = text_required_of(k, "o"@);
    let c = text_required_of(k, "c"@);
    let h = text_required_of(k, "h"@);
    let lo = text_required_of(k, "l"@);
    let v = text_required_of(k, "v"@);
    let n = u64_required_of(k, "n"@);
    let x = bool_required_of(k, "x"@);
    let q = text_required_of(k, "q"@);
    let vb = text_required_of(k, "V"@);
    let qb = text_required_of(k, "Q"@);
    let b = text_required_of(k, "B"@);
    if t is Some && tt is Some && i is Some && f is Some && l is Some && o is Some && c is Some
        && h is Some && lo is Some && v is Some && n is Some && x is Some && q is Some && vb is Some
        && qb is Some && b is Some {
        Some(KlineInnerView {
            start_time: t->0,
            end_time: tt->0,
            interval: i->0,
            first_trade_id: f->0,
            last_trade_id: l->0,
            open: o->0,
            close: c->0,
            high: h->0,
            low: lo->0,
            volume: v->0,
            trade_count: n->0,
            is_final: x->0,
            quote_asset_volume: q->0,
            taker_buy_base_volume: vb->0,
            taker_buy_quote_volume: qb->0,
            ignore: b->0,
        })
    } else {
        None
    }
}

/// The candlestick update in an object (`E ps ct k`, all required).
pub open spec fn kline_of(j: Json, tag: Seq<char>) -> Option<KlineView> {
    match get(j, "k"@) {
        None => None,
        Some(k) => {
            let inner = kline_inner_of(k);
            let et = u64_required_of(j, "E"@);
            let ps = text_required_of(j, "ps"@);
            let ct = text_required_of(j, "ct"@);
            if inner is Some && et is Some && ps is Some && ct is Some {
                Some(KlineView {
                    event: tag,
                    event_time: et->0,
                    pair: ps->0,
                    contract_type: ct->0,
                    kline: inner->0,
                    received_timestamp: 0,
                })
            } else {
                None
            }
        },
    }
}

/// The record a parsed frame holds. The event object is the document itself
/// when it has an `e` member, else its `data` member (the combined form).
/// `e` picks the record; a missing or unknown `e` is `UnknownEvent`, a
/// member of the wrong shape (or text that is not JSON) is `Malformed`.
pub open spec fn frame_of(doc: Option<Json>) -> Result<EventView, DecodeError> {
    match doc {
        None => Err(DecodeError::Malformed),
        Some(d) => {
            let body = if get(d, "e"@) is Some {
                Some(d)
            } else {
                get(d, "data"@)
            };
            match body {
                None => Err(DecodeError::UnknownEvent),
                Some(b) => match get(b, "e"@) {
                    None => Err(DecodeError::UnknownEvent),
                    Some(t) => match text_of(t) {
                        None => Err(DecodeError::UnknownEvent),
                        Some(tag) => match kind_of_tag(tag) {
                            Some(EventType::AggTrade) => match agg_trade_of(b, tag) {
                                Some(v) => Ok(EventView::AggTrade(v)),
                                None => Err(DecodeError::Malformed),
                            },
                            Some(EventType::Depth) => match depth_of(b, tag) {
                                Some(v) => Ok(EventView::Depth(v)),
                                None => Err(DecodeError::Malformed),
                            },
                            Some(EventType::Kline) => match kline_of(b, tag) {
                                Some(v) => Ok(EventView::Kline(v)),
                                None => Err(DecodeError::Malformed),
                            },
                            _ => Err(DecodeError::UnknownEvent),
                        },
                    },
                },
            }
        },
    }
}

/// The decoding outcome of a text frame.
pub open spec fn decoded(text: Seq<char>) -> Result<EventView, DecodeError> {
    frame_of(json_of(text))
}

pub open spec fn result_view(r: Result<BinanceEvent, DecodeError>) -> Result<EventView, DecodeError> {
    match r {
        Ok(ev) => Ok(ev@),
        Err(e) => Err(e),
    }
}

/// The member under the wire name, else under its long alias.
fn field<'a>(v: &'a Json, short: &str, long: &str) -> (r: Option<&'a Json>)
    ensures
        r is None <==> get_either(*v, short@, long@) is None,
        r matches Some(x) ==> get_either(*v, short@, long@) == Some(*x),
{
    match member(v, short) {
        Some(x) => Some(x),
        None => member(v, long),
    }
}

fn text_or_empty(v: &Json, short: &str, long: &str) -> (r: Option<String>)
    ensures
        r is None <==> text_or_empty_of(*v, short@, long@) is None,
        r matches Some(s) ==> text_or_empty_of(*v, short@, long@) == Some(s@),
{
    match field(v, short, long) {
        None => Some(String::new()),
        Some(x) => as_text(x),
    }
}

fn u64_or_zero(v: &Json, short: &str, long: &str) -> (r: Option<u64>)
    ensures
        r == u64_or_zero_of(*v, short@, long@),
{
    match field(v, short, long) {
        None => Some(0),
        Some(x) => as_u64(x),
    }
}

fn bool_or_false(v: &Json, short: &str, long: &str) -> (r: Option<bool>)
    ensures
        r == bool_or_false_of(*v, short@, long@),
{
    match field(v, short, long) {
        None => Some(false),
        Some(x) => as_bool(x),
    }
}

fn text_required(v: &Json, key: &str) -> (r: Option<String>)
    ensures
        r is None <==> text_required_of(*v, key@) is None,
        r matches Some(s) ==> text_required_of(*v, key@) == Some(s@),
{
    match member(v, key) {
        Some(x) => as_text(x),
        None => None,
    }
}

fn u64_required(v: &Json, key: &str) -> (r: Option<u64>)
    ensures
        r == u64_required_of(*v, key@),
{
    match member(v, key) {
        Some(x) => as_u64(x),
        None => None,
    }
}

fn bool_required(v: &Json, key: &str) -> (r: Option<bool>)
    ensures
        r == bool_required_of(*v, key@),
{
    match member(v, key) {
        Some(x) => as_bool(x),
        None => None,
    }
}

fn pair(x: &Json) -> (r: Option<(String, String)>)
    ensures
        r is None <==> pair_of(*x) is None,
        r matches Some(p) ==> pair_of(*x) == Some((p.0@, p.1@)),
{
    match x {
        Json::Array(p) => {
            if p.len() != 2 {
                return None;
            }
            let price = as_text(&p[0])?;
            let qty = as_text(&p[1])?;
            Some((price, qty))
        },
        _ => None,
    }
}

/// A list of `[price, quantity]` string pairs; empty when absent.
fn price_levels(v: &Json, short: &str, long: &str) -> (r: Option<Vec<(String, String)>>)
    ensures
        r is None <==> levels_of(*v, short@, long@) is None,
        r matches Some(l) ==> levels_of(*v, short@, long@) == Some(levels_view(l@)),
{
    let mut out: Vec<(String, String)> = Vec::new();
    let x = match field(v, short, long) {
        None => {
            assert(levels_view(out@) =~= Seq::empty());
            return Some(out);
        },
        Some(x) => x,
    };
    let items = match x {
        Json::Array(a) => a,
        _ => {
            return None;
        },
    };
    assert(levels_of(*v, short@, long@) == pairs_of(items@));
    assert(items@.take(0) =~= Seq::<Json>::empty());
    assert(levels_view(out@) =~= Seq::empty());
    let mut i: usize = 0;
    while i < items.len()
        invariant
            0 <= i <= items@.len(),
            levels_of(*v, short@, long@) == pairs_of(items@),
            pairs_of(items@.take(i as int)) == Some(levels_view(out@)),
        decreases items@.len() - i,
    {
        assert(items@.take(i + 1).drop_last() =~= items@.take(i as int));
        let ghost before = out@;
        assert(items@.take(i + 1).last() == items@[i as int]);
        match pair(&items[i]) {
            Some(p) => {
                out.push(p);
                assert(levels_view(out@) =~= levels_view(before).push((p.0@, p.1@)));
            },
            None => {
                proof {
                    lemma_pairs_prefix_none(items@, i as int + 1);
                }
                return None;
            },
        }
        i = i + 1;
    }
    assert(items@.take(i as int) =~= items@);
    Some(out)
}


/// Once a prefix holds a bad pair, the whole list is refused.
proof fn lemma_pairs_prefix_none(items: Seq<Json>, k: int)
    requires
        0 <= k <= items.len(),
        pairs_of(items.take(k)) is None,
    ensures
        pairs_of(items) is None,
    decreases items.len() - k,
{
    if k < items.len() {
        assert(items.take(k + 1).drop_last() =~= items.take(k));
        lemma_pairs_prefix_none(items, k + 1);
    } else {
        assert(items.take(k) =~= items);
    }
}

fn decode_agg_trade(v: &Json, tag: String) -> (r: Option<AggTradeEvent>)
    ensures
        r is None <==> agg_trade_of(*v, tag@) is None,
        r matches Some(e) ==> agg_trade_of(*v, tag@) == Some(e@),
{
    Some(AggTradeEvent {
        event: tag,
        event_time: u64_or_zero(v, "E", "eventTime")?,
        agg_trade_id: u64_or_zero(v, "a", "aggTradeId")?,
        symbol: text_or_empty(v, "s", "symbol")?,
        price: text_or_empty(v, "p", "price")?,
        quantity: text_or_empty(v, "q", "quantity")?,
        trade_time: u64_or_zero(v, "T", "tradeTime")?,
        is_buyer_maker: bool_or_false(v, "m", "isBuyerMaker")?,
        received_timestamp: 0,
    })
}

fn decode_depth(v: &Json, tag: String) -> (r: Option<DepthEvent>)
    ensures
        r is None <==> depth_of(*v, tag@) is None,
        r matches Some(e) ==> depth_of(*v, tag@) == Some(e@),
{
    Some(DepthEvent {
        event: tag,
        event_time: u64_or_zero(v, "E", "eventTime")?,
        trade_time: u64_or_zero(v, "T", "tradeTime")?,
        symbol: text_or_empty(v, "s", "symbol")?,
        first_update_id: u64_or_zero(v, "U", "U")?,
        last_update_id: u64_or_zero(v, "u", "u")?,
        previous_update_id: u64_or_zero(v, "pu", "pu")?,
        bids: price_levels(v, "b", "b")?,
        asks: price_levels(v, "a", "a")?,
        received_timestamp: 0,
    })
}

fn decode_kline_inner(k: &Json) -> (r: Option<KlineInner>)
    ensures
        r is None <==> kline_inner_of(*k) is None,
        r matches Some(e) ==> kline_inner_of(*k) == Some(e@),
{
    Some(KlineInner {
        start_time: u64_required(k, "t")?,
        end_time: u64_required(k, "T")?,
        interval: text_required(k, "i")?,
        first_trade_id: u64_required(k, "f")?,
        last_trade_id: u64_required(k, "L")?,
        open: text_required(k, "o")?,
        close: text_required(k, "c")?,
        high: text_required(k, "h")?,
        low: text_required(k, "l")?,
        volume: text_required(k, "v")?,
        trade_count: u64_required(k, "n")?,
        is_final: bool_required(k, "x")?,
        quote_asset_volume: text_required(k, "q")?,
        taker_buy_base_volume: text_required(k, "V")?,
        taker_buy_quote_volume: text_required(k, "Q")?,
        ignore: text_required(k, "B")?,
    })
}

fn decode_kline(v: &Json, tag: String) -> (r: Option<KlineEvent>)
    ensures
        r is None <==> kline_of(*v, tag@) is None,
        r matches Some(e) ==> kline_of(*v, tag@) == Some(e@),
{
    let k = member(v, "k")?;
    let kline = decode_kline_inner(k)?;
    Some(KlineEvent {
        event: tag,
        event_time: u64_required(v, "E")?,
        pair: text_required(v, "ps")?,
        contract_type: text_required(v, "ct")?,
        kline,
        received_timestamp: 0,
    })
}

/// Decodes a text frame, in the single-stream form or wrapped as the `data`
/// member of the combined form. The ingress timestamp is left at zero.
pub fn decode_frame(text: &str) -> (r: Result<BinanceEvent, DecodeError>)
    ensures
        result_view(r) == decoded(text@),
{
    match parse_json(text) {
        Some(doc) => decode_document(&doc),
        None => Err(DecodeError::Malformed),
    }
}

/// Decodes a parsed frame: the record that `frame_of` describes.
pub fn decode_document(doc: &Json) -> (r: Result<BinanceEvent, DecodeError>)
    ensures
        result_view(r) == frame_of(Some(*doc)),
{
    let body: &Json = match member(doc, "e") {
        Some(_) => doc,
        None => match member(doc, "data") {
            Some(d) => d,
            None => {
                return Err(DecodeError::UnknownEvent);
            },
        },
    };
    let tag = match member(body, "e") {
        Some(t) => match as_text(t) {
            Some(s) => s,
            None => {
                return Err(DecodeError::UnknownEvent);
            },
        },
        None => {
            return Err(DecodeError::UnknownEvent);
        },
    };
    match event_kind_of_tag(tag.as_str()) {
        Some(EventType::AggTrade) => match decode_agg_trade(body, tag) {
            Some(e) => Ok(BinanceEvent::AggTrade(e)),
            None => Err(DecodeError::Malformed),
        },
        Some(EventType::Depth) => match decode_depth(body, tag) {
            Some(e) => Ok(BinanceEvent::Depth(e)),
            None => Err(DecodeError::Malformed),
        },
        Some(EventType::Kline) => match decode_kline(body, tag) {
            Some(e) => Ok(BinanceEvent::Kline(e)),
            None => Err(DecodeError::Malformed),
        },
        _ => Err(DecodeError::UnknownEvent),
    }
}

/// The event with its ingress timestamp set to `ts`; every other field kept.
pub open spec fn stamped(ev: BinanceEvent, ts: u128) -> BinanceEvent {
    match ev {
        BinanceEvent::AggTrade(e) => BinanceEvent::AggTrade(AggTradeEvent { received_timestamp: ts, ..e }),
        BinanceEvent::Depth(e) => BinanceEvent::Depth(DepthEvent { received_timestamp: ts, ..e }),
        BinanceEvent::Kline(e) => BinanceEvent::Kline(KlineEvent { received_timestamp: ts, ..e }),
    }
}

/// Sets the ingress timestamp of a decoded event.
pub fn stamp(ev: BinanceEvent, ts: u128) -> (r: BinanceEvent)
    ensures
        r == stamped(ev, ts),
        r@ == stamped_view(ev@, ts),
        payload_stamp(r.spec_into_payload()) == ts,
        r.spec_event_type() == ev.spec_event_type(),
{
    match ev {
        BinanceEvent::AggTrade(e) => BinanceEvent::AggTrade(AggTradeEvent { received_timestamp: ts, ..e }),
        BinanceEvent::Depth(e) => BinanceEvent::Depth(DepthEvent { received_timestamp: ts, ..e }),
        BinanceEvent::Kline(e) => BinanceEvent::Kline(KlineEvent { received_timestamp: ts, ..e }),
    }
}

/// Which transport an agent publishes into.
#[derive(Debug, Clone, Copy, PartialEq, Eq, Structural)]
pub enum AgentType {
    Spsc,
    Mpsc,
}

/// Where an agent publishes envelopes: the producer half of a dispatcher.
pub trait EventSink {
    /// Every envelope this sink has accepted, in order.
    spec fn accepted(&self) -> Seq<EventData>;

    /// Offers an envelope; `false` when it was refused.
    fn fire(&mut self, event_type: EventType, data: EventPayload) -> (r: bool)
        requires
            payload_kind(data) == event_type,
        ensures
            r ==> final(self).accepted() == old(self).accepted().push(
                (EventData { event_type, data }),
            ),
            !r ==> final(self).accepted() == old(self).accepted(),
    ;
}

impl EventSink for QueueEventDispatcherProducer {
    open spec fn accepted(&self) -> Seq<EventData> {
        self.accepted_envelopes()
    }

    fn fire(&mut self, event_type: EventType, data: EventPayload) -> (r: bool) {
        QueueEventDispatcherProducer::fire(self, event_type, data)
    }
}

impl EventSink for QueueEventDispatcherMPSCProducer {
    open spec fn accepted(&self) -> Seq<EventData> {
        self.accepted_envelopes()
    }

    fn fire(&mut self, event_type: EventType, data: EventPayload) -> (r: bool) {
        QueueEventDispatcherMPSCProducer::fire(self, event_type, data)
    }
}

/// The agent's handlers for decoded records.
pub trait MarketAgent {
    /// Every envelope the agent has published, in order.
    spec fn published(&self) -> Seq<EventData>;

    /// Publishes a depth update; `false` when the transport refused it.
    fn on_depth(&mut self, event: DepthEvent) -> (r: bool)
        ensures
            r ==> final(self).published() == old(self).published().push(
                (EventData { event_type: EventType::Depth, data: EventPayload::Depth(event) }),
            ),
            !r ==> final(self).published() == old(self).published(),
    ;

    /// Publishes an aggregate trade; `false` when the transport refused it.
    fn on_trade(&mut self, event: AggTradeEvent) -> (r: bool)
        ensures
            r ==> final(self).published() == old(self).published().push(
                (EventData { event_type: EventType::AggTrade, data: EventPayload::AggTrade(event) }),
            ),
            !r ==> final(self).published() == old(self).published(),
    ;
}

/// Composes the streaming client with the producer half of the dispatcher.
pub struct BinanceMarketAgent<S: EventSink> {
    pub ws: BinanceWebSocketClient,
    pub event_producer: S,
    /// The latest ingress timestamp handed out; no later one is smaller.
    pub last_stamp: u128,
    /// Frames that did not decode (saturating).
    pub decode_failures: u64,
}

impl<S: EventSink> BinanceMarketAgent<S> {
    pub fn new(ws: BinanceWebSocketClient, event_producer: S) -> (r: BinanceMarketAgent<S>)
        ensures
            r.last_stamp == 0,
            r.decode_failures == 0,
            r.ws == ws,
            r.event_producer == event_producer,
    {
        BinanceMarketAgent { ws, event_producer, last_stamp: 0, decode_failures: 0 }
    }

    /// The ingress timestamp for a frame read at `now_us`: the clock reading,
    /// raised to the previous stamp if the clock went back.
    pub fn next_stamp(&mut self, now_us: u128) -> (r: u128)
        ensures
            r == if now_us >= old(self).last_stamp {
                now_us
            } else {
                old(self).last_stamp
            },
            final(self).last_stamp == r,
            final(self).ws == old(self).ws,
            final(self).event_producer == old(self).event_producer,
            final(self).decode_failures == old(self).decode_failures,
    {
        if now_us > self.last_stamp {
            self.last_stamp = now_us;
        }
        self.last_stamp
    }

    /// Decodes one text frame and stamps it with the next ingress timestamp.
    pub fn prepare(&mut self, text: &str, now_us: u128) -> (r: Result<EventData, DecodeError>)
        ensures
            final(self).ws == old(self).ws,
            final(self).event_producer == old(self).event_producer,
            final(self).decode_failures == old(self).decode_failures,
            final(self).last_stamp == if now_us >= old(self).last_stamp {
                now_us
            } else {
                old(self).last_stamp
            },
            r is Ok <==> decoded(text@) is Ok,
            r matches Err(e) ==> decoded(text@) == Err::<EventView, DecodeError>(e),
            r matches Ok(e) ==> e.wf() && (decoded(text@) matches Ok(v) && payload_view(e.data)
                == stamped_view(v, final(self).last_stamp)),
    {
        let ev = match decode_frame(text) {
            Ok(ev) => ev,
            Err(e) => {
                self.next_stamp(now_us);
                return Err(e);
            },
        };
        let ts = self.next_stamp(now_us);
        let ev = stamp(ev, ts);
        Ok(EventData::new(ev.into_payload()))
    }

    /// Handles one text frame: decode, stamp, publish. A frame that does not
    /// decode is counted and dropped; the stream goes on.
    pub fn on_message(&mut self, text: &str, now_us: u128) -> (r: FrameOutcome)
        ensures
            final(self).ws == old(self).ws,
            final(self).last_stamp == if now_us >= old(self).last_stamp {
                now_us
            } else {
                old(self).last_stamp
            },
            r is Rejected <==> decoded(text@) is Err,
            r matches FrameOutcome::Rejected(e) ==> decoded(text@) == Err::<EventView, DecodeError>(e)
                && final(self).event_producer.accepted() == old(self).event_producer.accepted()
                && final(self).decode_failures == crate::dispatcher::saturating_inc(
                old(self).decode_failures,
            ),
            r matches FrameOutcome::Fired(ts) ==> {
                &&& ts == final(self).last_stamp
                &&& final(self).decode_failures == old(self).decode_failures
                &&& final(self).event_producer.accepted().len() == old(
                    self,
                ).event_producer.accepted().len() + 1
                &&& final(self).event_producer.accepted().drop_last() == old(
                    self,
                ).event_producer.accepted()
                &&& final(self).event_producer.accepted().last().wf()
                &&& (decoded(text@) matches Ok(v) && payload_view(
                    final(self).event_producer.accepted().last().data,
                ) == stamped_view(v, ts))
            },
            r matches FrameOutcome::Dropped(ts) ==> ts == final(self).last_stamp
                && final(self).decode_failures == old(self).decode_failures
                && final(self).event_producer.accepted() == old(self).event_producer.accepted(),
    {
        match self.prepare(text, now_us) {
            Ok(e) => {
                let ts = self.last_stamp;
                let ghost g = e;
                if self.event_producer.fire(e.event_type, e.data) {
                    FrameOutcome::Fired(ts)
                } else {
                    FrameOutcome::Dropped(ts)
                }
            },
            Err(err) => {
                if self.decode_failures < u64::MAX {
                    self.decode_failures = self.decode_failures + 1;
                }
                FrameOutcome::Rejected(err)
            },
        }
    }

    /// Publishes a candlestick update; `false` when the transport refused it.
    pub fn on_kline(&mut self, event: KlineEvent) -> (r: bool)
        ensures
            r ==> final(self).event_producer.accepted() == old(self).event_producer.accepted().push(
                (EventData { event_type: EventType::Kline, data: EventPayload::Kline(event) }),
            ),
            !r ==> final(self).event_producer.accepted() == old(self).event_producer.accepted(),
    {
        self.event_producer.fire(EventType::Kline, EventPayload::Kline(event))
    }
}

impl<S: EventSink> MarketAgent for BinanceMarketAgent<S> {
    open spec fn published(&self) -> Seq<EventData> {
        self.event_producer.accepted()
    }

    fn on_depth(&mut self, event: DepthEvent) -> (r: bool) {
        self.event_producer.fire(EventType::Depth, EventPayload::Depth(event))
    }

    fn on_trade(&mut self, event: AggTradeEvent) -> (r: bool) {
        self.event_producer.fire(EventType::AggTrade, EventPayload::AggTrade(event))
    }
}

/// The agent over the ring-buffer dispatcher.
pub type BinanceMarketAgentSPSC = BinanceMarketAgent<QueueEventDispatcherProducer>;

/// The agent over the channel dispatcher.
pub type BinanceMarketAgentMPSC = BinanceMarketAgent<QueueEventDispatcherMPSCProducer>;

pub enum MarketAgentEnum {
    Spsc(BinanceMarketAgentSPSC),
    Mpsc(BinanceMarketAgentMPSC),
}

pub enum MarketAgentConsumerEnum {
    Spsc(QueueEventDispatcherConsumer),
    Mpsc(QueueEventDispatcherMPSCConsumer),
}

/// Builds an agent for `exchange` over the transport that `agent_type`
/// names, with the matching consumer half.
pub fn create_market_agent_with_consumer(
    exchange: Exchange,
    agent_type: AgentType,
    ws: BinanceWebSocketClient,
    capacity: usize,
) -> (r: (MarketAgentEnum, MarketAgentConsumerEnum))
    requires
        capacity <= MAX_RING_CAPACITY,
    ensures
        agent_type == AgentType::Spsc ==> {
            &&& r.0 matches MarketAgentEnum::Spsc(a) && a.ws == ws && a.last_stamp == 0
                && a.decode_failures == 0 && a.event_producer.dropped_count() == 0
                && a.event_producer.accepted_envelopes() == Seq::<EventData>::empty()
            &&& r.1 matches MarketAgentConsumerEnum::Spsc(c) && forall|k: EventType|
                #[trigger] c.handler_table().handlers(k) == Seq::<usize>::empty()
        },
        agent_type == AgentType::Mpsc ==> {
            &&& r.0 matches MarketAgentEnum::Mpsc(a) && a.ws == ws && a.last_stamp == 0
                && a.decode_failures == 0
                && a.event_producer.accepted_envelopes() == Seq::<EventData>::empty()
            &&& r.1 matches MarketAgentConsumerEnum::Mpsc(c) && forall|k: EventType|
                #[trigger] c.handler_table().handlers(k) == Seq::<usize>::empty()
        },
{
    match exchange {
        Exchange::Binance => match agent_type {
            AgentType::Spsc => {
                let (producer, consumer) = AsyncQueueEventDispatcher::new(capacity).split();
                (
                    MarketAgentEnum::Spsc(BinanceMarketAgent::new(ws, producer)),
                    MarketAgentConsumerEnum::Spsc(consumer),
                )
            },
            AgentType::Mpsc => {
                let (producer, consumer) = AsyncQueueEventDispatcherMPSC::new(capacity).split();
                (
                    MarketAgentEnum::Mpsc(BinanceMarketAgent::new(ws, producer)),
                    MarketAgentConsumerEnum::Mpsc(consumer),
                )
            },
        },
    }
}

} // verus!
