//! The alternate transport: a bounded crossbeam channel, for callers with
//! more than one producer task. Sends never block: a full channel refuses.
use vstd::prelude::*;
use crossbeam_channel::{bounded, Receiver, Sender, TrySendError};
use crate::dispatcher::{Delivery, HandlerTable, kinds_of};
use crate::event::{payload_kind, EventData, EventPayload, EventType};

verus! {

#[verifier::external_type_specification]
#[verifier::external_body]
#[verifier::reject_recursive_types(T)]
pub struct ExSender<T>(Sender<T>);

#[verifier::external_type_specification]
#[verifier::external_body]
#[verifier::reject_recursive_types(T)]
pub struct ExReceiver<T>(Receiver<T>);

/// Largest capacity accepted. `bounded` panics when `cap + 1` rounded up to a
/// power of two, doubled, overflows, or when its buffer of `cap` slots would
/// pass `isize::MAX` bytes; one slot takes far less than 4096 bytes, so no
/// capacity up to this bound reaches either.
pub const MAX_CHANNEL_CAPACITY: usize = usize::MAX / 8192;

/// Relies on `crossbeam_channel::bounded`: the two ends of a channel holding
/// at most `cap` messages.
#[verifier::external_body]
fn open_channel(cap: usize) -> (r: (Sender<EventData>, Receiver<EventData>))
    requires
        cap <= MAX_CHANNEL_CAPACITY,
{
    bounded(cap)
}

/// Relies on `Sender::try_send`: never blocks; a refused message (channel full
/// or closed) is handed back unchanged.
#[verifier::external_body]
fn try_send(s: &Sender<EventData>, e: EventData) -> (r: Result<(), EventData>)
    ensures
        r matches Err(x) ==> x == e,
{
    s.try_send(e).map_err(TrySendError::into_inner)
}

/// Relies on `Receiver::try_recv`: a waiting message, if any; never blocks.
#[verifier::external_body]
fn try_recv(r: &Receiver<EventData>) -> (m: Option<EventData>) {
    r.try_recv().ok()
}

/// Takes what the channel holds now, up to `usize::MAX` messages.
fn drain(r: &Receiver<EventData>) -> Vec<EventData> {
    let mut events: Vec<EventData> = Vec::new();
    while events.len() < usize::MAX
        decreases usize::MAX - events@.len(),
    {
        match try_recv(r) {
            Some(e) => events.push(e),
            None => break,
        }
    }
    events
}

/// A channel-backed dispatcher with its handler table.
pub struct QueueEventDispatcherMPSC {
    handlers: HandlerTable,
    sender: Sender<EventData>,
    receiver: Receiver<EventData>,
    /// Every envelope the channel accepted through `fire`, in order.
    accepted: Ghost<Seq<EventData>>,
}

impl QueueEventDispatcherMPSC {
    pub closed spec fn handler_table(&self) -> HandlerTable {
        self.handlers
    }

    pub closed spec fn accepted_envelopes(&self) -> Seq<EventData> {
        self.accepted@
    }

    pub fn new(capacity: usize) -> (r: QueueEventDispatcherMPSC)
        requires
            capacity <= MAX_CHANNEL_CAPACITY,
        ensures
            forall|k: EventType| #[trigger] r.handler_table().handlers(k) == Seq::<usize>::empty(),
    {
        let (sender, receiver) = open_channel(capacity);
        QueueEventDispatcherMPSC { handlers: HandlerTable::new(), sender, receiver, accepted: Ghost(Seq::empty()) }
    }

    pub fn register(&mut self, k: EventType, handler: usize)
        ensures
            final(self).handler_table().handlers(k) == old(self).handler_table().handlers(k).push(handler),
            forall|o: EventType|
                o != k ==> #[trigger] final(self).handler_table().handlers(o) == old(
                    self,
                ).handler_table().handlers(o),
    {
        self.handlers.register(k, handler);
    }

    /// Wraps `data` under `event_type` and offers it; `false` when refused.
    pub fn fire(&mut self, event_type: EventType, data: EventPayload) -> (r: bool)
        requires
            payload_kind(data) == event_type,
        ensures
            r ==> final(self).accepted_envelopes() == old(self).accepted_envelopes().push(
                (EventData { event_type, data }),
            ),
            !r ==> final(self).accepted_envelopes() == old(self).accepted_envelopes(),
            final(self).handler_table() == old(self).handler_table(),
    {
        let event = EventData { event_type, data };
        let ghost g = event;
        match try_send(&self.sender, event) {
            Ok(()) => {
                self.accepted = Ghost(self.accepted@.push(g));
                true
            },
            Err(_) => false,
        }
    }

    /// Drains what the channel holds, with the handler calls owed to it.
    pub fn process(&self) -> (r: Delivery)
        ensures
            r.calls@ == self.handler_table().fan_out_spec(kinds_of(r.events@)),
    {
        let events = drain(&self.receiver);
        let calls = self.handlers.fan_out(&events);
        Delivery { events, calls }
    }
}

/// A channel-backed dispatcher before it is split.
pub struct AsyncQueueEventDispatcherMPSC {
    m_inner: QueueEventDispatcherMPSC,
}

impl AsyncQueueEventDispatcherMPSC {
    pub closed spec fn handlers(&self) -> HandlerTable {
        self.m_inner.handlers
    }

    pub fn new(capacity: usize) -> (r: AsyncQueueEventDispatcherMPSC)
        requires
            capacity <= MAX_CHANNEL_CAPACITY,
        ensures
            forall|k: EventType| #[trigger] r.handlers().handlers(k) == Seq::<usize>::empty(),
    {
        let r = AsyncQueueEventDispatcherMPSC { m_inner: QueueEventDispatcherMPSC::new(capacity) };
        assert forall|k: EventType| #[trigger] r.handlers().handlers(k) == Seq::<usize>::empty() by {
            assert(r.m_inner.handler_table().handlers(k) == Seq::<usize>::empty());
        }
        r
    }

    /// Registers a handler; only possible before the split.
    pub fn register(&mut self, k: EventType, handler: usize)
        ensures
            final(self).handlers().handlers(k) == old(self).handlers().handlers(k).push(handler),
            forall|o: EventType|
                o != k ==> #[trigger] final(self).handlers().handlers(o) == old(
                    self,
                ).handlers().handlers(o),
    {
        self.m_inner.register(k, handler);
    }

    /// Parts the dispatcher; the consumer half takes the handler table.
    pub fn split(self) -> (r: (QueueEventDispatcherMPSCProducer, QueueEventDispatcherMPSCConsumer))
        ensures
            r.1.handler_table() == self.handlers(),
            r.0.accepted_envelopes() == Seq::<EventData>::empty(),
    {
        (
            QueueEventDispatcherMPSCProducer { sender: self.m_inner.sender, accepted: Ghost(Seq::empty()) },
            QueueEventDispatcherMPSCConsumer {
                receiver: self.m_inner.receiver,
                event_map: self.m_inner.handlers,
            },
        )
    }
}

/// A producer half; may be held by several tasks through clones of the sender.
pub struct QueueEventDispatcherMPSCProducer {
    sender: Sender<EventData>,
    /// Every envelope the channel accepted from this half, in order.
    accepted: Ghost<Seq<EventData>>,
}

impl QueueEventDispatcherMPSCProducer {
    pub closed spec fn accepted_envelopes(&self) -> Seq<EventData> {
        self.accepted@
    }

    /// Wraps `data` under `event_type` and offers it; `false` when refused.
    pub fn fire(&mut self, event_type: EventType, data: EventPayload) -> (r: bool)
        requires
            payload_kind(data) == event_type,
        ensures
            r ==> final(self).accepted_envelopes() == old(self).accepted_envelopes().push(
                (EventData { event_type, data }),
            ),
            !r ==> final(self).accepted_envelopes() == old(self).accepted_envelopes(),
    {
        let event = EventData { event_type, data };
        let ghost g = event;
        match try_send(&self.sender, event) {
            Ok(()) => {
                self.accepted = Ghost(self.accepted@.push(g));
                true
            },
            Err(_) => false,
        }
    }
}

/// The consumer half; owns the handler table.
pub struct QueueEventDispatcherMPSCConsumer {
    receiver: Receiver<EventData>,
    event_map: HandlerTable,
}

impl QueueEventDispatcherMPSCConsumer {
    pub closed spec fn handler_table(&self) -> HandlerTable {
        self.event_map
    }

    /// Drains what the channel holds, with the handler calls owed to it.
    pub fn process(&self) -> (r: Delivery)
        ensures
            r.calls@ == self.handler_table().fan_out_spec(kinds_of(r.events@)),
    {
        let events = drain(&self.receiver);
        let calls = self.event_map.fan_out(&events);
        Delivery { events, calls }
    }
}

} // verus!
