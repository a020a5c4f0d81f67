//! The L2 book: two price-indexed sides with fixed-point prices and quantities.
use vstd::prelude::*;
use crate::decimal::{decimal_value, parse_decimal};

verus! {

/// Side of the book.
#[derive(Debug, Clone, Copy, PartialEq, Eq, Structural)]
pub enum OrderSide {
    Buy,
    Sell,
}

/// Levels in strictly increasing price order, none with a zero quantity.
pub open spec fn sorted_levels(s: Seq<(u64, u64)>) -> bool {
    &&& forall|i: int, j: int| 0 <= i < j < s.len() ==> #[trigger] s[i].0 < #[trigger] s[j].0
    &&& forall|i: int| 0 <= i < s.len() ==> #[trigger] s[i].1 > 0
}

pub open spec fn has_price(s: Seq<(u64, u64)>, p: u64) -> bool {
    exists|i: int| 0 <= i < s.len() && #[trigger] s[i].0 == p
}

/// The price -> quantity mapping that a level list stands for.
pub open spec fn levels_map(s: Seq<(u64, u64)>) -> Map<u64, u64> {
    Map::new(
        |p: u64| has_price(s, p),
        |p: u64| s[choose|i: int| 0 <= i < s.len() && #[trigger] s[i].0 == p].1,
    )
}

/// Setting one level: a zero quantity removes the price, any other sets it.
pub open spec fn apply_level(m: Map<u64, u64>, price: u64, qty: u64) -> Map<u64, u64> {
    if qty == 0 {
        m.remove(price)
    } else {
        m.insert(price, qty)
    }
}

/// Setting each level of `levels` in turn.
pub open spec fn apply_levels(m: Map<u64, u64>, levels: Seq<(u64, u64)>) -> Map<u64, u64>
    decreases levels.len(),
{
    if levels.len() == 0 {
        m
    } else {
        let prev = apply_levels(m, levels.drop_last());
        apply_level(prev, levels.last().0, levels.last().1)
    }
}

/// A zero quantity removes exactly its own price and leaves every other level as it was.
pub proof fn lemma_zero_quantity_removes(m: Map<u64, u64>, price: u64)
    ensures
        !apply_level(m, price, 0).contains_key(price),
        forall|p: u64|
            p != price ==> (#[trigger] apply_level(m, price, 0).contains_key(p) == m.contains_key(p)),
        forall|p: u64|
            p != price && m.contains_key(p) ==> #[trigger] apply_level(m, price, 0)[p] == m[p],
{
}

pub proof fn lemma_levels_map_at(s: Seq<(u64, u64)>, i: int)
    requires
        sorted_levels(s),
        0 <= i < s.len(),
    ensures
        levels_map(s).contains_key(s[i].0),
        levels_map(s)[s[i].0] == s[i].1,
{
    let p = s[i].0;
    assert(has_price(s, p));
    let j = choose|j: int| 0 <= j < s.len() && #[trigger] s[j].0 == p;
    if j < i {
        assert(s[j].0 < s[i].0);
    } else if j > i {
        assert(s[i].0 < s[j].0);
    }
}

/// The levels of `s` from the highest price down.
pub open spec fn descending(s: Seq<(u64, u64)>) -> Seq<(u64, u64)> {
    Seq::new(s.len(), |i: int| s[s.len() - 1 - i])
}

pub open spec fn min_len(n: usize, len: nat) -> int {
    if (n as int) < len {
        n as int
    } else {
        len as int
    }
}

/// The fixed-point `(price, quantity)` of a string pair, if both parse.
pub open spec fn entry_value(e: (String, String)) -> Option<(u64, u64)> {
    match (decimal_value(e.0@), decimal_value(e.1@)) {
        (Some(p), Some(q)) => Some((p, q)),
        _ => None,
    }
}

/// The fixed-point levels of a list of string pairs, if every pair parses.
pub open spec fn entries_value(es: Seq<(String, String)>) -> Option<Seq<(u64, u64)>>
    decreases es.len(),
{
    if es.len() == 0 {
        Some(Seq::empty())
    } else {
        match (entries_value(es.drop_last()), entry_value(es.last())) {
            (Some(prev), Some(e)) => Some(prev.push(e)),
            _ => None,
        }
    }
}

/// Reads a `[price, quantity]` pair of decimal strings.
pub fn parse_order_entry(entry: &(String, String)) -> (r: Option<(u64, u64)>)
    ensures
        r == entry_value(*entry),
{
    let p = parse_decimal(entry.0.as_str());
    let q = parse_decimal(entry.1.as_str());
    match (p, q) {
        (Some(p), Some(q)) => Some((p, q)),
        _ => None,
    }
}

/// Reads every pair of `entries`; `None` if any of them does not parse.
pub fn parse_levels(entries: &Vec<(String, String)>) -> (r: Option<Vec<(u64, u64)>>)
    ensures
        r matches Some(v) ==> entries_value(entries@) == Some(v@),
        r is None ==> entries_value(entries@) is None,
{
    let mut out: Vec<(u64, u64)> = Vec::new();
    let mut i: usize = 0;
    while i < entries.len()
        invariant
            0 <= i <= entries@.len(),
            entries_value(entries@.take(i as int)) == Some(out@),
        decreases entries@.len() - i,
    {
        proof {
            assert(entries@.take(i + 1).drop_last() =~= entries@.take(i as int));
        }
        match parse_order_entry(&entries[i]) {
            Some(e) => {
                out.push(e);
            },
            None => {
                proof {
                    lemma_entries_prefix_none(entries@, i as int + 1);
                }
                return None;
            },
        }
        i = i + 1;
    }
    assert(entries@.take(i as int) =~= entries@);
    Some(out)
}

/// Once a prefix fails to parse, the whole list fails.
proof fn lemma_entries_prefix_none(es: Seq<(String, String)>, k: int)
    requires
        0 <= k <= es.len(),
        entries_value(es.take(k)) is None,
    ensures
        entries_value(es) is None,
    decreases es.len() - k,
{
    if k < es.len() {
        assert(es.take(k + 1).drop_last() =~= es.take(k));
        lemma_entries_prefix_none(es, k + 1);
    } else {
        assert(es.take(k) =~= es);
    }
}

/// One side of the book. `orders` lists the levels from the lowest price up.
/// A sorted vector rather than an ordered map: vstd states no order for
/// `BTreeMap`'s iteration beyond an uninterpreted predicate and specifies
/// neither reverse iteration nor first/last entries, so best-price and
/// top-of-book queries over one could not be proved; here order is the
/// side's invariant.
#[derive(Debug, Clone)]
pub struct OrderBookSide {
    pub orders: Vec<(u64, u64)>,
}

impl View for OrderBookSide {
    type V = Map<u64, u64>;

    open spec fn view(&self) -> Map<u64, u64> {
        levels_map(self.orders@)
    }
}

impl OrderBookSide {
    pub open spec fn wf(&self) -> bool {
        sorted_levels(self.orders@)
    }

    pub fn new() -> (r: OrderBookSide)
        ensures
            r.wf(),
            r@ == Map::<u64, u64>::empty(),
            r.orders@.len() == 0,
    {
        let r = OrderBookSide { orders: Vec::new() };
        assert(r@ =~= Map::<u64, u64>::empty());
        r
    }

    /// Sets the quantity at `price`; a zero quantity removes the level.
    pub fn update(&mut self, price: u64, quantity: u64)
        requires
            old(self).wf(),
        ensures
            final(self).wf(),
            final(self)@ == apply_level(old(self)@, price, quantity),
    {
        let ghost s = self.orders@;
        let n = self.orders.len();
        let mut i: usize = 0;
        while i < n && self.orders[i].0 < price
            invariant
                0 <= i <= n,
                n == s.len(),
                self.orders@ == s,
                forall|j: int| 0 <= j < i ==> #[trigger] s[j].0 < price,
            decreases n - i,
        {
            i = i + 1;
        }
        // every level before `i` is below `price`, every level from `i` on is at or above it
        assert forall|j: int| i <= j < n implies #[trigger] s[j].0 >= price by {
            if j > i {
                assert(s[i as int].0 < s[j].0);
            }
        }
        if i < n && self.orders[i].0 == price {
            if quantity == 0 {
                self.orders.remove(i);
                proof {
                    let t = self.orders@;
                    assert(t =~= s.remove(i as int));
                    assert forall|a: int, b: int| 0 <= a < b < t.len() implies #[trigger] t[a].0
                        < #[trigger] t[b].0 by {
                        let a2 = if a < i { a } else { a + 1 };
                        let b2 = if b < i { b } else { b + 1 };
                        assert(s[a2].0 < s[b2].0);
                    }
                    assert forall|a: int| 0 <= a < t.len() implies #[trigger] t[a].1 > 0 by {
                        let a2 = if a < i { a } else { a + 1 };
                        assert(s[a2].1 > 0);
                    }
                    let m = levels_map(s).remove(price);
                    assert forall|p: u64| #[trigger] levels_map(t).contains_key(p)
                        == m.contains_key(p) by {
                        if has_price(t, p) {
                            let a = choose|a: int| 0 <= a < t.len() && #[trigger] t[a].0 == p;
                            let a2 = if a < i { a } else { a + 1 };
                            assert(s[a2].0 == p);
                            assert(has_price(s, p));
                        }
                        if has_price(s, p) && p != price {
                            let a = choose|a: int| 0 <= a < s.len() && #[trigger] s[a].0 == p;
                            assert(a != i);
                            let a2 = if a < i { a } else { a - 1 };
                            assert(t[a2].0 == p);
                        }
                    }
                    assert forall|p: u64| #[trigger] levels_map(t).contains_key(p) implies
                        levels_map(t)[p] == m[p] by {
                        let a = choose|a: int| 0 <= a < t.len() && #[trigger] t[a].0 == p;
                        let a2 = if a < i { a } else { a + 1 };
                        lemma_levels_map_at(t, a);
                        lemma_levels_map_at(s, a2);
                    }
                    assert(levels_map(t) =~= m);
                }
            } else {
                self.orders.set(i, (price, quantity));
                proof {
                    let t = self.orders@;
                    assert(t =~= s.update(i as int, (price, quantity)));
                    assert forall|a: int, b: int| 0 <= a < b < t.len() implies #[trigger] t[a].0
                        < #[trigger] t[b].0 by {
                        assert(s[a].0 < s[b].0);
                    }
                    let m = levels_map(s).insert(price, quantity);
                    assert forall|p: u64| #[trigger] levels_map(t).contains_key(p)
                        == m.contains_key(p) by {
                        if has_price(t, p) {
                            let a = choose|a: int| 0 <= a < t.len() && #[trigger] t[a].0 == p;
                            assert(s[a].0 == p);
                        }
                        if has_price(s, p) {
                            let a = choose|a: int| 0 <= a < s.len() && #[trigger] s[a].0 == p;
                            assert(t[a].0 == p);
                        }
                        if p == price {
                            assert(t[i as int].0 == p);
                        }
                    }
                    assert forall|p: u64| #[trigger] levels_map(t).contains_key(p) implies
                        levels_map(t)[p] == m[p] by {
                        let a = choose|a: int| 0 <= a < t.len() && #[trigger] t[a].0 == p;
                        lemma_levels_map_at(t, a);
                        if a != i {
                            lemma_levels_map_at(s, a);
                        }
                    }
                    assert(levels_map(t) =~= m);
                }
            }
        } else {
            if quantity != 0 {
                self.orders.insert(i, (price, quantity));
                proof {
                    let t = self.orders@;
                    assert(t =~= s.insert(i as int, (price, quantity)));
                    assert forall|a: int, b: int| 0 <= a < b < t.len() implies #[trigger] t[a].0
                        < #[trigger] t[b].0 by {
                        if a < i && b < i {
                            assert(s[a].0 < s[b].0);
                        } else if a > i && b > i {
                            assert(s[a - 1].0 < s[b - 1].0);
                        } else if a < i {
                            assert(s[a].0 < price);
                        } else {
                            assert(s[b - 1].0 >= price);
                        }
                    }
                    assert forall|a: int| 0 <= a < t.len() implies #[trigger] t[a].1 > 0 by {
                        if a < i {
                            assert(s[a].1 > 0);
                        } else if a > i {
                            assert(s[a - 1].1 > 0);
                        }
                    }
                    let m = levels_map(s).insert(price, quantity);
                    assert forall|p: u64| #[trigger] levels_map(t).contains_key(p)
                        == m.contains_key(p) by {
                        if has_price(t, p) && p != price {
                            let a = choose|a: int| 0 <= a < t.len() && #[trigger] t[a].0 == p;
                            let a2 = if a < i { a } else { a - 1 };
                            assert(s[a2].0 == p);
                        }
                        if has_price(s, p) {
                            let a = choose|a: int| 0 <= a < s.len() && #[trigger] s[a].0 == p;
                            let a2 = if a < i { a } else { a + 1 };
                            assert(t[a2].0 == p);
                        }
                        if p == price {
                            assert(t[i as int].0 == p);
                        }
                    }
                    assert forall|p: u64| #[trigger] levels_map(t).contains_key(p) implies
                        levels_map(t)[p] == m[p] by {
                        let a = choose|a: int| 0 <= a < t.len() && #[trigger] t[a].0 == p;
                        lemma_levels_map_at(t, a);
                        if a < i {
                            lemma_levels_map_at(s, a);
                        } else if a > i {
                            lemma_levels_map_at(s, a - 1);
                        }
                    }
                    assert(levels_map(t) =~= m);
                }
            } else {
                proof {
                    assert(!has_price(s, price)) by {
                        if has_price(s, price) {
                            let a = choose|a: int| 0 <= a < s.len() && #[trigger] s[a].0 == price;
                            if a < i {
                                assert(s[a].0 < price);
                            } else {
                                assert(a >= i);
                                if a > i {
                                    assert(s[i as int].0 < s[a].0);
                                }
                            }
                        }
                    }
                    assert(levels_map(s).remove(price) =~= levels_map(s));
                }
            }
        }
    }
    /// Sets each level of `levels` in turn.
    pub fn apply_all(&mut self, levels: &Vec<(u64, u64)>)
        requires
            old(self).wf(),
        ensures
            final(self).wf(),
            final(self)@ == apply_levels(old(self)@, levels@),
    {
        let ghost m0 = self@;
        let mut i: usize = 0;
        while i < levels.len()
            invariant
                0 <= i <= levels@.len(),
                self.wf(),
                self@ == apply_levels(m0, levels@.take(i as int)),
            decreases levels@.len() - i,
        {
            proof {
                assert(levels@.take(i + 1).drop_last() =~= levels@.take(i as int));
            }
            let (p, q) = levels[i];
            self.update(p, q);
            i = i + 1;
        }
        assert(levels@.take(i as int) =~= levels@);
    }
}

/// Both sides of one symbol's book.
#[derive(Debug, Clone)]
pub struct OrderBook {
    pub bids: OrderBookSide,
    pub asks: OrderBookSide,
    pub event_time: Option<u64>,
}

impl OrderBook {
    pub open spec fn wf(&self) -> bool {
        self.bids.wf() && self.asks.wf()
    }

    pub fn new() -> (r: OrderBook)
        ensures
            r.wf(),
            r.bids@ == Map::<u64, u64>::empty(),
            r.asks@ == Map::<u64, u64>::empty(),
            r.event_time is None,
    {
        OrderBook { bids: OrderBookSide::new(), asks: OrderBookSide::new(), event_time: None }
    }

    /// Sets the quantity at `price` on `side`; zero removes the level.
    pub fn update_side(&mut self, side: OrderSide, price: u64, quantity: u64)
        requires
            old(self).wf(),
        ensures
            final(self).wf(),
            final(self).event_time == old(self).event_time,
            side == OrderSide::Buy ==> final(self).bids@ == apply_level(
                old(self).bids@,
                price,
                quantity,
            ) && final(self).asks@ == old(self).asks@,
            side == OrderSide::Sell ==> final(self).asks@ == apply_level(
                old(self).asks@,
                price,
                quantity,
            ) && final(self).bids@ == old(self).bids@,
    {
        match side {
            OrderSide::Buy => self.bids.update(price, quantity),
            OrderSide::Sell => self.asks.update(price, quantity),
        }
    }

    /// The highest bid, if any.
    pub fn best_bid(&self) -> (r: Option<(u64, u64)>)
        requires
            self.wf(),
        ensures
            r is None <==> self.bids@.dom().is_empty(),
            r matches Some(l) ==> self.bids@.contains_key(l.0) && self.bids@[l.0] == l.1
                && forall|p: u64| #[trigger] self.bids@.contains_key(p) ==> p <= l.0,
    {
        let n = self.bids.orders.len();
        if n == 0 {
            proof {
                assert(self.bids@.dom() =~= Set::<u64>::empty());
            }
            None
        } else {
            let l = self.bids.orders[n - 1];
            proof {
                let s = self.bids.orders@;
                lemma_levels_map_at(s, n - 1);
                assert forall|p: u64| #[trigger] self.bids@.contains_key(p) implies p <= l.0 by {
                    let a = choose|a: int| 0 <= a < s.len() && #[trigger] s[a].0 == p;
                    if a < n - 1 {
                        assert(s[a].0 < s[n - 1].0);
                    }
                }
                assert(self.bids@.dom().contains(l.0));
            }
            Some(l)
        }
    }

    /// The lowest ask, if any.
    pub fn best_ask(&self) -> (r: Option<(u64, u64)>)
        requires
            self.wf(),
        ensures
            r is None <==> self.asks@.dom().is_empty(),
            r matches Some(l) ==> self.asks@.contains_key(l.0) && self.asks@[l.0] == l.1
                && forall|p: u64| #[trigger] self.asks@.contains_key(p) ==> l.0 <= p,
    {
        let n = self.asks.orders.len();
        if n == 0 {
            proof {
                assert(self.asks@.dom() =~= Set::<u64>::empty());
            }
            None
        } else {
            let l = self.asks.orders[0];
            proof {
                let s = self.asks.orders@;
                lemma_levels_map_at(s, 0);
                assert forall|p: u64| #[trigger] self.asks@.contains_key(p) implies l.0 <= p by {
                    let a = choose|a: int| 0 <= a < s.len() && #[trigger] s[a].0 == p;
                    if a > 0 {
                        assert(s[0].0 < s[a].0);
                    }
                }
                assert(self.asks@.dom().contains(l.0));
            }
            Some(l)
        }
    }

    /// The `n` highest bids, best first.
    pub fn top_n_bids(&self, n: usize) -> (r: Vec<(u64, u64)>)
        ensures
            r@ == descending(self.bids.orders@).take(min_len(n, self.bids.orders@.len())),
    {
        let s = &self.bids.orders;
        let len = s.len();
        let mut out: Vec<(u64, u64)> = Vec::new();
        let mut i: usize = 0;
        while i < n && i < len
            invariant
                0 <= i <= len,
                i <= n,
                len == s@.len(),
                out@ == descending(s@).take(i as int),
            decreases len - i,
        {
            out.push(s[len - 1 - i]);
            i = i + 1;
            assert(out@ =~= descending(s@).take(i as int));
        }
        out
    }

    /// The `n` lowest asks, best first.
    pub fn top_n_asks(&self, n: usize) -> (r: Vec<(u64, u64)>)
        ensures
            r@ == self.asks.orders@.take(min_len(n, self.asks.orders@.len())),
    {
        let s = &self.asks.orders;
        let len = s.len();
        let mut out: Vec<(u64, u64)> = Vec::new();
        let mut i: usize = 0;
        while i < n && i < len
            invariant
                0 <= i <= len,
                i <= n,
                len == s@.len(),
                out@ == s@.take(i as int),
            decreases len - i,
        {
            out.push(s[i]);
            i = i + 1;
            assert(out@ =~= s@.take(i as int));
        }
        out
    }

    /// Every bid level, best first.
    pub fn bids(&self) -> (r: Vec<(u64, u64)>)
        ensures
            r@ == descending(self.bids.orders@),
    {
        let r = self.top_n_bids(self.bids.orders.len());
        assert(r@ =~= descending(self.bids.orders@));
        r
    }

    /// Every ask level, best first.
    pub fn asks(&self) -> (r: Vec<(u64, u64)>)
        ensures
            r@ == self.asks.orders@,
    {
        let r = self.top_n_asks(self.asks.orders.len());
        assert(r@ =~= self.asks.orders@);
        r
    }
}

/// A REST depth snapshot: the last applied update id and both sides.
#[derive(Debug, Clone)]
pub struct DepthSnapshot {
    pub last_update_id: u64,
    pub event_time: Option<u64>,
    pub match_time: Option<u64>,
    pub bids: Vec<(String, String)>,
    pub asks: Vec<(String, String)>,
}

/// A depth diff in the venue's REST-side shape.
#[derive(Debug, Clone)]
pub struct DepthUpdateEvent {
    pub first_update_id: u64,
    pub final_update_id: u64,
    pub previous_update_id: u64,
    pub bids: Vec<(String, String)>,
    pub asks: Vec<(String, String)>,
}

impl DepthSnapshot {
    /// The book that the snapshot describes; `None` if a level does not parse.
    pub fn to_order_book(&self) -> (r: Option<OrderBook>)
        ensures
            r is Some <==> (entries_value(self.bids@) is Some && entries_value(self.asks@) is Some),
            r matches Some(b) ==> b.wf() && b.bids@ == apply_levels(
                Map::empty(),
                entries_value(self.bids@)->0,
            ) && b.asks@ == apply_levels(Map::empty(), entries_value(self.asks@)->0)
                && b.event_time == self.event_time,
    {
        let bids = match parse_levels(&self.bids) {
            Some(v) => v,
            None => {
                return None;
            },
        };
        let asks = match parse_levels(&self.asks) {
            Some(v) => v,
            None => {
                return None;
            },
        };
        let mut book = OrderBook::new();
        book.bids.apply_all(&bids);
        book.asks.apply_all(&asks);
        book.event_time = self.event_time;
        Some(book)
    }
}

} // verus!
