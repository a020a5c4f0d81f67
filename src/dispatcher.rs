//! Per-kind dispatch of envelopes. Handlers are named by index; the owner of
//! the handler values calls them in the order that a fan-out plan gives.
use vstd::prelude::*;
use ringbuf::{Consumer, Producer};
use crate::event::{payload_kind, EventData, EventPayload, EventType};
use crate::ring::{MAX_RING_CAPACITY, consumer_pop, producer_push, push_model, ring_capacity, ring_items, EventRing};

verus! {

/// One handler call: handler `handler` on the envelope at index `event` of a
/// drained batch.
#[derive(Debug, Clone, Copy, PartialEq, Eq, Structural)]
pub struct Dispatch {
    pub handler: usize,
    pub event: usize,
}

/// Handler indices registered for each kind, in registration order.
#[derive(Debug, Clone)]
pub struct HandlerTable {
    agg_trade: Vec<usize>,
    depth: Vec<usize>,
    kline: Vec<usize>,
    trade: Vec<usize>,
}

/// The calls owed to one envelope at index `idx`: each handler of its kind, in order.
pub open spec fn calls_for(hs: Seq<usize>, idx: int) -> Seq<Dispatch> {
    Seq::new(hs.len(), |j: int| Dispatch { handler: hs[j], event: idx as usize })
}

/// The kinds of a batch of envelopes.
pub open spec fn kinds_of(es: Seq<EventData>) -> Seq<EventType> {
    Seq::new(es.len(), |i: int| es[i].event_type)
}

impl HandlerTable {
    pub closed spec fn handlers(&self, k: EventType) -> Seq<usize> {
        match k {
            EventType::AggTrade => self.agg_trade@,
            EventType::Depth => self.depth@,
            EventType::Kline => self.kline@,
            EventType::Trade => self.trade@,
        }
    }

    pub fn new() -> (r: HandlerTable)
        ensures
            forall|k: EventType| #[trigger] r.handlers(k) == Seq::<usize>::empty(),
    {
        let r = HandlerTable {
            agg_trade: Vec::new(),
            depth: Vec::new(),
            kline: Vec::new(),
            trade: Vec::new(),
        };
        assert forall|k: EventType| #[trigger] r.handlers(k) == Seq::<usize>::empty() by {
            assert(r.handlers(k) =~= Seq::<usize>::empty());
        }
        r
    }

    /// Appends `handler` to the handlers of `k`.
    pub fn register(&mut self, k: EventType, handler: usize)
        ensures
            final(self).handlers(k) == old(self).handlers(k).push(handler),
            forall|o: EventType| o != k ==> #[trigger] final(self).handlers(o) == old(self).handlers(o),
    {
        match k {
            EventType::AggTrade => self.agg_trade.push(handler),
            EventType::Depth => self.depth.push(handler),
            EventType::Kline => self.kline.push(handler),
            EventType::Trade => self.trade.push(handler),
        }
    }

    /// Removes every handler of `k`.
    pub fn unregister(&mut self, k: EventType)
        ensures
            final(self).handlers(k) == Seq::<usize>::empty(),
            forall|o: EventType| o != k ==> #[trigger] final(self).handlers(o) == old(self).handlers(o),
    {
        match k {
            EventType::AggTrade => self.agg_trade = Vec::new(),
            EventType::Depth => self.depth = Vec::new(),
            EventType::Kline => self.kline = Vec::new(),
            EventType::Trade => self.trade = Vec::new(),
        }
    }

    /// Removes every handler of every kind.
    pub fn clear_events(&mut self)
        ensures
            forall|k: EventType| #[trigger] final(self).handlers(k) == Seq::<usize>::empty(),
    {
        *self = HandlerTable::new();
    }

    /// The handlers of `k`, in registration order.
    pub fn handlers_for(&self, k: EventType) -> (r: &Vec<usize>)
        ensures
            r@ == self.handlers(k),
    {
        match k {
            EventType::AggTrade => &self.agg_trade,
            EventType::Depth => &self.depth,
            EventType::Kline => &self.kline,
            EventType::Trade => &self.trade,
        }
    }

    /// Every call owed to a batch of envelopes with kinds `ks`, batch order
    /// first, registration order within one envelope.
    pub open spec fn fan_out_spec(&self, ks: Seq<EventType>) -> Seq<Dispatch>
        decreases ks.len(),
    {
        if ks.len() == 0 {
            Seq::empty()
        } else {
            self.fan_out_spec(ks.drop_last()) + calls_for(
                self.handlers(ks.last()),
                ks.len() - 1,
            )
        }
    }

    /// The calls owed to a batch, in the order they must be made.
    pub fn fan_out(&self, events: &Vec<EventData>) -> (r: Vec<Dispatch>)
        ensures
            r@ == self.fan_out_spec(kinds_of(events@)),
    {
        let mut out: Vec<Dispatch> = Vec::new();
        let mut i: usize = 0;
        while i < events.len()
            invariant
                0 <= i <= events@.len(),
                out@ == self.fan_out_spec(kinds_of(events@).take(i as int)),
            decreases events@.len() - i,
        {
            let hs = self.handlers_for(events[i].event_type);
            let ghost base = out@;
            let mut j: usize = 0;
            while j < hs.len()
                invariant
                    0 <= j <= hs@.len(),
                    hs@ == self.handlers(events@[i as int].event_type),
                    i < events@.len(),
                    out@ == base + calls_for(hs@, i as int).take(j as int),
                decreases hs@.len() - j,
            {
                out.push(Dispatch { handler: hs[j], event: i });
                j = j + 1;
                assert(out@ =~= base + calls_for(hs@, i as int).take(j as int));
            }
            proof {
                let ks = kinds_of(events@);
                assert(ks.take(i + 1).drop_last() =~= ks.take(i as int));
                assert(calls_for(hs@, i as int).take(j as int) =~= calls_for(hs@, i as int));
            }
            i = i + 1;
        }
        assert(kinds_of(events@).take(i as int) =~= kinds_of(events@));
        out
    }
}

/// A drained batch and the handler calls owed to it.
pub struct Delivery {
    pub events: Vec<EventData>,
    pub calls: Vec<Dispatch>,
}

/// A dispatcher whose ring and handler table have one owner.
pub struct QueueEventDispatcher {
    handlers: HandlerTable,
    ring: EventRing,
    /// Envelopes refused because the ring was full (saturating).
    dropped: u64,
}

/// `n + 1`, held at `u64::MAX`.
pub open spec fn saturating_inc(n: u64) -> u64 {
    if n < u64::MAX {
        (n + 1) as u64
    } else {
        n
    }
}

impl QueueEventDispatcher {
    pub closed spec fn queued(&self) -> Seq<EventData> {
        ring_items(self.ring)
    }

    pub closed spec fn capacity(&self) -> nat {
        ring_capacity(self.ring)
    }

    pub closed spec fn handler_table(&self) -> HandlerTable {
        self.handlers
    }

    pub closed spec fn dropped_count(&self) -> u64 {
        self.dropped
    }

    /// Envelopes refused so far because the ring was full.
    pub fn dropped(&self) -> (r: u64)
        ensures
            r == self.dropped_count(),
    {
        self.dropped
    }

    /// The handlers of `k`, in registration order.
    pub fn handlers_for(&self, k: EventType) -> (r: &Vec<usize>)
        ensures
            r@ == self.handler_table().handlers(k),
    {
        self.handlers.handlers_for(k)
    }

    pub fn new(capacity: usize) -> (r: QueueEventDispatcher)
        requires
            capacity <= MAX_RING_CAPACITY,
        ensures
            r.queued() == Seq::<EventData>::empty(),
            r.capacity() == capacity,
            r.dropped_count() == 0,
            forall|k: EventType| #[trigger] r.handler_table().handlers(k) == Seq::<usize>::empty(),
    {
        QueueEventDispatcher { handlers: HandlerTable::new(), ring: EventRing::new(capacity), dropped: 0 }
    }

    pub fn register(&mut self, k: EventType, handler: usize)
        ensures
            final(self).handler_table().handlers(k) == old(self).handler_table().handlers(k).push(handler),
            forall|o: EventType|
                o != k ==> #[trigger] final(self).handler_table().handlers(o) == old(self).handler_table().handlers(o),
            final(self).queued() == old(self).queued(),
            final(self).capacity() == old(self).capacity(),
    {
        self.handlers.register(k, handler);
    }

    /// Removes every handler of `k`.
    pub fn unregister(&mut self, k: EventType)
        ensures
            final(self).handler_table().handlers(k) == Seq::<usize>::empty(),
            forall|o: EventType|
                o != k ==> #[trigger] final(self).handler_table().handlers(o) == old(self).handler_table().handlers(o),
            final(self).queued() == old(self).queued(),
            final(self).capacity() == old(self).capacity(),
    {
        self.handlers.unregister(k);
    }

    /// Removes every handler of every kind.
    pub fn clear_events(&mut self)
        ensures
            forall|k: EventType| #[trigger] final(self).handler_table().handlers(k) == Seq::<usize>::empty(),
            final(self).queued() == old(self).queued(),
            final(self).capacity() == old(self).capacity(),
    {
        self.handlers.clear_events();
    }

    /// Wraps `data` under `event_type` and offers it to the ring; `false` when
    /// the ring was full and the envelope was dropped.
    pub fn fire(&mut self, event_type: EventType, data: EventPayload) -> (r: bool)
        requires
            payload_kind(data) == event_type,
        ensures
            final(self).queued() == push_model(
                old(self).queued(),
                old(self).capacity(),
                EventData { event_type, data },
            ),
            r <==> old(self).queued().len() < old(self).capacity(),
            final(self).dropped_count() == if r {
                old(self).dropped_count()
            } else {
                saturating_inc(old(self).dropped_count())
            },
            final(self).capacity() == old(self).capacity(),
            final(self).handler_table() == old(self).handler_table(),
    {
        let event = EventData { event_type, data };
        match self.ring.push(event) {
            Ok(()) => true,
            Err(_) => {
                if self.dropped < u64::MAX {
                    self.dropped = self.dropped + 1;
                }
                false
            },
        }
    }

    /// Drains the ring, oldest first, with the handler calls owed to the batch.
    pub fn process(&mut self) -> (r: Delivery)
        ensures
            r.events@ == old(self).queued(),
            final(self).queued() == Seq::<EventData>::empty(),
            final(self).dropped_count() == old(self).dropped_count(),
            r.calls@ == old(self).handler_table().fan_out_spec(kinds_of(r.events@)),
            final(self).capacity() == old(self).capacity(),
            final(self).handler_table() == old(self).handler_table(),
    {
        let ghost q0 = self.queued();
        let mut events: Vec<EventData> = Vec::new();
        loop
            invariant
                q0 == old(self).queued(),
                events@ + self.queued() == q0,
                self.capacity() == old(self).capacity(),
                self.handlers == old(self).handlers,
                self.dropped == old(self).dropped,
            ensures
                events@ == q0,
                self.queued() == Seq::<EventData>::empty(),
                self.capacity() == old(self).capacity(),
                self.handlers == old(self).handlers,
                self.dropped == old(self).dropped,
            decreases self.queued().len(),
        {
            match self.ring.pop() {
                Some(e) => {
                    proof {
                        assert(events@.push(e) + self.queued() =~= q0);
                    }
                    events.push(e);
                },
                None => {
                    assert(self.queued() =~= Seq::<EventData>::empty());
                    assert(events@ =~= q0);
                    break;
                },
            }
        }
        let calls = self.handlers.fan_out(&events);
        Delivery { events, calls }
    }
}

/// A dispatcher before it is split into a producer half and a consumer half.
pub struct AsyncQueueEventDispatcher {
    m_inner: QueueEventDispatcher,
}

impl AsyncQueueEventDispatcher {
    pub closed spec fn handlers(&self) -> HandlerTable {
        self.m_inner.handlers
    }

    pub fn new(capacity: usize) -> (r: AsyncQueueEventDispatcher)
        requires
            capacity <= MAX_RING_CAPACITY,
        ensures
            forall|k: EventType| #[trigger] r.handlers().handlers(k) == Seq::<usize>::empty(),
    {
        let r = AsyncQueueEventDispatcher { m_inner: QueueEventDispatcher::new(capacity) };
        assert forall|k: EventType| #[trigger] r.handlers().handlers(k) == Seq::<usize>::empty() by {
            assert(r.m_inner.handler_table().handlers(k) == Seq::<usize>::empty());
        }
        r
    }

    /// Registers a handler; only possible before the split.
    pub fn register(&mut self, k: EventType, handler: usize)
        ensures
            final(self).handlers().handlers(k) == old(self).handlers().handlers(k).push(handler),
            forall|o: EventType|
                o != k ==> #[trigger] final(self).handlers().handlers(o) == old(
                    self,
                ).handlers().handlers(o),
    {
        self.m_inner.register(k, handler);
    }

    /// Removes every handler of `k`; only possible before the split.
    pub fn unregister(&mut self, k: EventType)
        ensures
            final(self).handlers().handlers(k) == Seq::<usize>::empty(),
            forall|o: EventType|
                o != k ==> #[trigger] final(self).handlers().handlers(o) == old(self).handlers().handlers(o),
    {
        self.m_inner.unregister(k);
    }

    /// Removes every handler; only possible before the split.
    pub fn clear_events(&mut self)
        ensures
            forall|k: EventType| #[trigger] final(self).handlers().handlers(k) == Seq::<usize>::empty(),
    {
        self.m_inner.clear_events();
        assert forall|k: EventType| #[trigger] self.handlers().handlers(k) == Seq::<usize>::empty() by {
            assert(self.m_inner.handler_table().handlers(k) == Seq::<usize>::empty());
        }
    }

    /// Parts the dispatcher; the consumer half takes the handler table.
    pub fn split(self) -> (r: (QueueEventDispatcherProducer, QueueEventDispatcherConsumer))
        ensures
            r.1.handler_table() == self.handlers(),
            r.0.dropped_count() == 0,
            r.0.accepted_envelopes() == Seq::<EventData>::empty(),
    {
        let (producer, consumer) = self.m_inner.ring.split();
        (
            QueueEventDispatcherProducer { producer, accepted: Ghost(Seq::empty()), dropped: 0 },
            QueueEventDispatcherConsumer { event_queue: consumer, event_map: self.m_inner.handlers },
        )
    }
}

/// The producer half: the only party that pushes.
pub struct QueueEventDispatcherProducer {
    producer: Producer<EventData>,
    /// Every envelope the ring accepted from this half, in order.
    accepted: Ghost<Seq<EventData>>,
    /// Envelopes refused because the ring was full (saturating).
    dropped: u64,
}

impl QueueEventDispatcherProducer {
    pub closed spec fn accepted_envelopes(&self) -> Seq<EventData> {
        self.accepted@
    }

    pub closed spec fn dropped_count(&self) -> u64 {
        self.dropped
    }

    /// Envelopes refused so far because the ring was full.
    pub fn dropped(&self) -> (r: u64)
        ensures
            r == self.dropped_count(),
    {
        self.dropped
    }
    /// Wraps `data` under `event_type` and offers it to the ring; `false` when
    /// the ring was full and the envelope was dropped.
    pub fn fire(&mut self, event_type: EventType, data: EventPayload) -> (r: bool)
        requires
            payload_kind(data) == event_type,
        ensures
            r ==> final(self).accepted_envelopes() == old(self).accepted_envelopes().push(
                (EventData { event_type, data }),
            ),
            !r ==> final(self).accepted_envelopes() == old(self).accepted_envelopes(),
            final(self).dropped_count() == if r {
                old(self).dropped_count()
            } else {
                saturating_inc(old(self).dropped_count())
            },
    {
        let event = EventData { event_type, data };
        let ghost g = event;
        match producer_push(&mut self.producer, event) {
            Ok(()) => {
                self.accepted = Ghost(self.accepted@.push(g));
                true
            },
            Err(_) => {
                if self.dropped < u64::MAX {
                    self.dropped = self.dropped + 1;
                }
                false
            },
        }
    }
}

/// The consumer half: the only party that pops; owns the handler table.
pub struct QueueEventDispatcherConsumer {
    event_queue: Consumer<EventData>,
    event_map: HandlerTable,
}

impl QueueEventDispatcherConsumer {
    pub closed spec fn handler_table(&self) -> HandlerTable {
        self.event_map
    }

    /// The handlers of `k`, in registration order.
    pub fn handlers_for(&self, k: EventType) -> (r: &Vec<usize>)
        ensures
            r@ == self.handler_table().handlers(k),
    {
        self.event_map.handlers_for(k)
    }

    /// Drains what the ring holds now, with the handler calls owed to it.
    /// Stops at the first empty read or when the batch reaches `usize::MAX`.
    pub fn process(&mut self) -> (r: Delivery)
        ensures
            r.calls@ == old(self).handler_table().fan_out_spec(kinds_of(r.events@)),
            final(self).handler_table() == old(self).handler_table(),
    {
        let mut events: Vec<EventData> = Vec::new();
        while events.len() < usize::MAX
            invariant
                self.event_map == old(self).event_map,
            decreases usize::MAX - events@.len(),
        {
            match consumer_pop(&mut self.event_queue) {
                Some(e) => events.push(e),
                None => break,
            }
        }
        let calls = self.event_map.fan_out(&events);
        Delivery { events, calls }
    }
}

/// The names under which the ring-buffer dispatcher is also known.
pub type QueueEventDispatcherSPSC = QueueEventDispatcher;

pub type AsyncQueueEventDispatcherSPSC = AsyncQueueEventDispatcher;

pub type QueueEventDispatcherSPSCProducer = QueueEventDispatcherProducer;

pub type QueueEventDispatcherSPSCConsumer = QueueEventDispatcherConsumer;

/// Within a batch, the calls owed to envelope `i` form one block, right after
/// those of the envelopes before it: each handler of its kind exactly once,
/// in registration order, and no call elsewhere names envelope `i`.
pub proof fn lemma_fan_out_block(t: HandlerTable, ks: Seq<EventType>, i: int)
    requires
        0 <= i < ks.len(),
        ks.len() <= usize::MAX,
    ensures
        t.fan_out_spec(ks).subrange(
            t.fan_out_spec(ks.take(i)).len() as int,
            t.fan_out_spec(ks.take(i + 1)).len() as int,
        ) == calls_for(t.handlers(ks[i]), i),
        forall|j: int|
            0 <= j < t.fan_out_spec(ks).len() && (j < t.fan_out_spec(ks.take(i)).len() || j
                >= t.fan_out_spec(ks.take(i + 1)).len()) ==> #[trigger] t.fan_out_spec(ks)[j].event
                != i,
{
    lemma_fan_out_prefix(t, ks, i + 1);
    lemma_fan_out_events(t, ks.take(i));
    assert(ks.take(i + 1).drop_last() =~= ks.take(i));
    assert(ks.take(i + 1).last() == ks[i]);
    let all = t.fan_out_spec(ks);
    let pre = t.fan_out_spec(ks.take(i));
    let mid = t.fan_out_spec(ks.take(i + 1));
    assert(mid == pre + calls_for(t.handlers(ks[i]), i));
    assert(all.subrange(pre.len() as int, mid.len() as int) =~= mid.subrange(
        pre.len() as int,
        mid.len() as int,
    ));
    assert(mid.subrange(pre.len() as int, mid.len() as int) =~= calls_for(t.handlers(ks[i]), i));
    assert forall|j: int| 0 <= j < pre.len() implies #[trigger] all[j] == pre[j] by {
        assert(all.take(mid.len() as int)[j] == mid[j]);
    }
    lemma_fan_out_later(t, ks, i + 1);
}

/// The plan of a prefix is a prefix of the plan.
proof fn lemma_fan_out_prefix(t: HandlerTable, ks: Seq<EventType>, k: int)
    requires
        0 <= k <= ks.len(),
    ensures
        t.fan_out_spec(ks.take(k)).len() <= t.fan_out_spec(ks).len(),
        t.fan_out_spec(ks).take(t.fan_out_spec(ks.take(k)).len() as int) == t.fan_out_spec(
            ks.take(k),
        ),
    decreases ks.len() - k,
{
    if k < ks.len() {
        lemma_fan_out_prefix(t, ks, k + 1);
        assert(ks.take(k + 1).drop_last() =~= ks.take(k));
        let a = t.fan_out_spec(ks.take(k));
        let b = t.fan_out_spec(ks.take(k + 1));
        let w = t.fan_out_spec(ks);
        assert(w.take(a.len() as int) =~= b.take(a.len() as int));
        assert(b.take(a.len() as int) =~= a);
    } else {
        assert(ks.take(k) =~= ks);
        assert(t.fan_out_spec(ks).take(t.fan_out_spec(ks).len() as int) =~= t.fan_out_spec(ks));
    }
}

/// Every call in the plan of `ks` names an envelope below `ks.len()`.
proof fn lemma_fan_out_events(t: HandlerTable, ks: Seq<EventType>)
    requires
        ks.len() <= usize::MAX,
    ensures
        forall|j: int|
            0 <= j < t.fan_out_spec(ks).len() ==> (#[trigger] t.fan_out_spec(ks)[j].event as int)
                < ks.len(),
    decreases ks.len(),
{
    if ks.len() > 0 {
        lemma_fan_out_events(t, ks.drop_last());
        let a = t.fan_out_spec(ks.drop_last());
        let w = t.fan_out_spec(ks);
        assert forall|j: int| 0 <= j < w.len() implies (#[trigger] w[j].event as int) < ks.len() by {
            if j < a.len() {
                assert(w[j] == a[j]);
            }
        }
    }
}

/// Calls after the plan of the first `k` envelopes name envelopes `k` and up.
proof fn lemma_fan_out_later(t: HandlerTable, ks: Seq<EventType>, k: int)
    requires
        0 <= k <= ks.len(),
        ks.len() <= usize::MAX,
    ensures
        forall|j: int|
            t.fan_out_spec(ks.take(k)).len() <= j < t.fan_out_spec(ks).len() ==> (
            #[trigger] t.fan_out_spec(ks)[j].event as int) >= k,
    decreases ks.len() - k,
{
    if k < ks.len() {
        lemma_fan_out_later(t, ks.drop_last(), k);
        assert(ks.drop_last().take(k) =~= ks.take(k));
        lemma_fan_out_prefix(t, ks.drop_last(), k);
    } else {
        assert(ks.take(k) =~= ks);
    }
}

} // verus!
