//! The bounded single-producer / single-consumer ring of envelopes, on
//! ringbuf's lock-free ring buffer. Overflow policy: a push into a full ring
//! is refused and the new envelope is dropped; what the ring holds is kept.
use vstd::prelude::*;
use ringbuf::{Consumer, Producer, RingBuffer};
use crate::event::EventData;

verus! {

#[verifier::external_type_specification]
#[verifier::external_body]
#[verifier::reject_recursive_types(T)]
pub struct ExProducer<T>(Producer<T>);

#[verifier::external_type_specification]
#[verifier::external_body]
#[verifier::reject_recursive_types(T)]
pub struct ExConsumer<T>(Consumer<T>);

/// Both halves of one ringbuf ring, held by a single owner so that the ring's
/// contents are a function of this value.
#[verifier::external_body]
pub struct EventRing {
    producer: Producer<EventData>,
    consumer: Consumer<EventData>,
}

/// The envelopes in the ring, oldest first.
pub uninterp spec fn ring_items(r: EventRing) -> Seq<EventData>;

/// The number of envelopes the ring can hold.
pub uninterp spec fn ring_capacity(r: EventRing) -> nat;

/// The queue after offering `e` to a ring of capacity `cap`: appended when
/// there is room, otherwise dropped.
pub open spec fn push_model(q: Seq<EventData>, cap: nat, e: EventData) -> Seq<EventData> {
    if q.len() < cap {
        q.push(e)
    } else {
        q
    }
}

/// The queue after offering each of `es` in turn.
pub open spec fn push_all_model(q: Seq<EventData>, cap: nat, es: Seq<EventData>) -> Seq<EventData>
    decreases es.len(),
{
    if es.len() == 0 {
        q
    } else {
        push_model(push_all_model(q, cap, es.drop_last()), cap, es.last())
    }
}

/// Largest ring accepted. `RingBuffer::new` allocates `capacity + 1` slots,
/// and a `Vec` panics when an allocation would pass `isize::MAX` bytes; one
/// envelope slot takes far less than 4096 bytes, so no capacity up to this
/// bound reaches that.
pub const MAX_RING_CAPACITY: usize = usize::MAX / 8192;

impl EventRing {
    /// Relies on ringbuf's `RingBuffer::new` and `split`: an empty ring with
    /// room for `capacity` items (it allocates `capacity + 1` slots).
    #[verifier::external_body]
    pub fn new(capacity: usize) -> (r: EventRing)
        requires
            capacity <= MAX_RING_CAPACITY,
        ensures
            ring_items(r) == Seq::<EventData>::empty(),
            ring_capacity(r) == capacity,
    {
        let (producer, consumer) = RingBuffer::<EventData>::new(capacity).split();
        EventRing { producer, consumer }
    }

    /// Relies on ringbuf's `Producer::push`: appends when the ring is not
    /// full, otherwise hands the item back and leaves the ring as it was.
    #[verifier::external_body]
    pub fn push(&mut self, e: EventData) -> (r: Result<(), EventData>)
        ensures
            ring_capacity(*final(self)) == ring_capacity(*old(self)),
            ring_items(*final(self)) == push_model(ring_items(*old(self)), ring_capacity(*old(self)), e),
            r is Ok <==> ring_items(*old(self)).len() < ring_capacity(*old(self)),
            r matches Err(x) ==> x == e,
    {
        self.producer.push(e)
    }

    /// Relies on ringbuf's `Consumer::pop`: removes and returns the oldest
    /// item, or `None` when the ring is empty.
    #[verifier::external_body]
    pub fn pop(&mut self) -> (r: Option<EventData>)
        ensures
            ring_capacity(*final(self)) == ring_capacity(*old(self)),
            ring_items(*old(self)).len() == 0 ==> r is None && ring_items(*final(self))
                == ring_items(*old(self)),
            ring_items(*old(self)).len() > 0 ==> r == Some(ring_items(*old(self))[0])
                && ring_items(*final(self)) == ring_items(*old(self)).drop_first(),
    {
        self.consumer.pop()
    }

    /// Hands out the two halves for use by two different owners.
    #[verifier::external_body]
    pub fn split(self) -> (r: (Producer<EventData>, Consumer<EventData>)) {
        (self.producer, self.consumer)
    }
}

/// Relies on ringbuf's `Producer::push`: a refused item is handed back unchanged.
#[verifier::external_body]
pub fn producer_push(p: &mut Producer<EventData>, e: EventData) -> (r: Result<(), EventData>)
    ensures
        r matches Err(x) ==> x == e,
{
    p.push(e)
}

/// Relies on ringbuf's `Consumer::pop`: the oldest item, if any. What the other
/// half pushed concurrently is not known here.
#[verifier::external_body]
pub fn consumer_pop(c: &mut Consumer<EventData>) -> (r: Option<EventData>) {
    c.pop()
}

/// Offering envelopes to an empty ring with room for all of them keeps every
/// one, in the order offered: what is drained is what was pushed.
pub proof fn lemma_fifo(cap: nat, es: Seq<EventData>)
    requires
        es.len() <= cap,
    ensures
        push_all_model(Seq::empty(), cap, es) == es,
    decreases es.len(),
{
    if es.len() > 0 {
        lemma_fifo(cap, es.drop_last());
        assert(es.drop_last().push(es.last()) =~= es);
    }
}

/// Offering envelopes to an empty ring of capacity `cap` keeps the first `cap`
/// of them in order and drops the rest.
pub proof fn lemma_overflow_keeps_oldest(cap: nat, es: Seq<EventData>)
    ensures
        push_all_model(Seq::empty(), cap, es) == es.take(
            if es.len() < cap {
                es.len() as int
            } else {
                cap as int
            },
        ),
    decreases es.len(),
{
    if es.len() > 0 {
        lemma_overflow_keeps_oldest(cap, es.drop_last());
        if es.len() <= cap {
            assert(es.drop_last().take(es.len() - 1).push(es.last()) =~= es.take(es.len() as int));
        } else {
            assert(es.drop_last().take(cap as int) =~= es.take(cap as int));
        }
    }
}

} // verus!
