//! The per-symbol book replica: snapshot bootstrap, buffered replay and the
//! contiguity rule on the update-id chain.
use vstd::prelude::*;
use crate::book::{apply_levels, entries_value, parse_levels, DepthSnapshot, OrderBook};
use crate::event::{EventData, EventPayload, EventType, DepthEvent};

verus! {

/// Why the replica refused an update.
#[derive(Debug, Clone, Copy, PartialEq, Eq, Structural)]
pub enum BookError {
    /// The `pu -> u` chain broke; the replica must be dropped and rebuilt.
    GapDetected,
    /// A price or quantity string did not parse.
    MalformedLevel,
}

/// What `push_update` did with an envelope.
#[derive(Debug, Clone, Copy, PartialEq, Eq, Structural)]
pub enum UpdateOutcome {
    /// Not a depth envelope.
    Ignored,
    /// Held until the snapshot arrives.
    Buffered,
    /// Before the chain head: the update does not straddle the book's id.
    Dropped,
    /// Applied to the book; observers should be notified.
    Applied,
}

/// The abstract state of a replica.
pub ghost struct BookState {
    pub bids: Map<u64, u64>,
    pub asks: Map<u64, u64>,
    pub last_update_id: u64,
    pub continuous_started: bool,
    pub event_time: Option<u64>,
}

/// The straddle predicate: the update's id range holds `last`.
pub open spec fn straddles(u: DepthEvent, last: u64) -> bool {
    u.first_update_id <= last && last <= u.last_update_id
}

/// The state after applying the deltas of `u` (parsed as `b` and `a`).
pub open spec fn applied_state(st: BookState, u: DepthEvent, b: Seq<(u64, u64)>, a: Seq<(u64, u64)>) -> BookState {
    BookState {
        bids: apply_levels(st.bids, b),
        asks: apply_levels(st.asks, a),
        last_update_id: u.last_update_id,
        continuous_started: true,
        event_time: Some(u.event_time),
    }
}

/// One update against an initialized replica: the new state and whether the
/// update was applied (`Ok(true)`), dropped before the chain head (`Ok(false)`)
/// or refused.
pub open spec fn step(st: BookState, u: DepthEvent) -> (BookState, Result<bool, BookError>) {
    if !st.continuous_started && !straddles(u, st.last_update_id) {
        (st, Ok(false))
    } else if st.continuous_started && u.previous_update_id != st.last_update_id {
        (st, Err(BookError::GapDetected))
    } else {
        match (entries_value(u.bids@), entries_value(u.asks@)) {
            (Some(b), Some(a)) => (applied_state(st, u, b, a), Ok(true)),
            _ => (st, Err(BookError::MalformedLevel)),
        }
    }
}

/// The buffered updates that survive the snapshot: those with `u >= s`.
pub open spec fn retained(us: Seq<DepthEvent>, s: u64) -> Seq<DepthEvent>
    decreases us.len(),
{
    if us.len() == 0 {
        us
    } else if us.last().last_update_id >= s {
        retained(us.drop_last(), s).push(us.last())
    } else {
        retained(us.drop_last(), s)
    }
}

/// Feeding `us` in order, stopping at the first refusal.
pub open spec fn replay(st: BookState, us: Seq<DepthEvent>) -> (BookState, Result<(), BookError>)
    decreases us.len(),
{
    if us.len() == 0 {
        (st, Ok(()))
    } else {
        let prev = replay(st, us.drop_last());
        if prev.1 is Err {
            prev
        } else {
            let next = step(prev.0, us.last());
            (next.0, match next.1 {
                Ok(_) => Ok(()),
                Err(e) => Err(e),
            })
        }
    }
}

/// The state right after a snapshot has been loaded.
pub open spec fn snapshot_state(snap: DepthSnapshot) -> BookState {
    BookState {
        bids: apply_levels(Map::empty(), entries_value(snap.bids@)->0),
        asks: apply_levels(Map::empty(), entries_value(snap.asks@)->0),
        last_update_id: snap.last_update_id,
        continuous_started: false,
        event_time: snap.event_time,
    }
}

/// Once the chain has started, an update whose `previous_update_id` is not the
/// replica's last applied id is refused as a gap and changes nothing.
pub proof fn lemma_gap_is_refused(st: BookState, u: DepthEvent)
    requires
        st.continuous_started,
        u.previous_update_id != st.last_update_id,
    ensures
        step(st, u) == (st, Err::<bool, BookError>(BookError::GapDetected)),
{
}

/// Bootstrap from a snapshot with id `S`: the retained updates before the
/// first one whose range holds `S` are discarded without effect, and that one
/// starts the chain, leaving the replica at its last update id.
pub proof fn lemma_straddle_bootstrap(snap: DepthSnapshot, buffer: Seq<DepthEvent>, k: int)
    requires
        0 <= k < retained(buffer, snap.last_update_id).len(),
        straddles(retained(buffer, snap.last_update_id)[k], snap.last_update_id),
        forall|j: int|
            0 <= j < k ==> !straddles(
                #[trigger] retained(buffer, snap.last_update_id)[j],
                snap.last_update_id,
            ),
        entries_value(retained(buffer, snap.last_update_id)[k].bids@) is Some,
        entries_value(retained(buffer, snap.last_update_id)[k].asks@) is Some,
    ensures
        forall|j: int|
            0 <= j <= k ==> #[trigger] replay(
                snapshot_state(snap),
                retained(buffer, snap.last_update_id).take(j),
            ) == (snapshot_state(snap), Ok::<(), BookError>(())),
        replay(snapshot_state(snap), retained(buffer, snap.last_update_id).take(k + 1)).1 is Ok,
        replay(snapshot_state(snap), retained(buffer, snap.last_update_id).take(k + 1)).0.last_update_id
            == retained(buffer, snap.last_update_id)[k].last_update_id,
        replay(
            snapshot_state(snap),
            retained(buffer, snap.last_update_id).take(k + 1),
        ).0.continuous_started,
{
    let rs = retained(buffer, snap.last_update_id);
    let st0 = snapshot_state(snap);
    assert forall|j: int| 0 <= j <= k implies #[trigger] replay(st0, rs.take(j)) == (
        st0,
        Ok::<(), BookError>(()),
    ) by {
        lemma_replay_discards(st0, rs, j, k);
    }
    assert(rs.take(k + 1).drop_last() =~= rs.take(k));
    assert(replay(st0, rs.take(k)) == (st0, Ok::<(), BookError>(())));
    assert(rs.take(k + 1).last() == rs[k]);
    assert(st0.last_update_id == snap.last_update_id);
}

proof fn lemma_replay_discards(st0: BookState, rs: Seq<DepthEvent>, j: int, k: int)
    requires
        0 <= j <= k < rs.len(),
        !st0.continuous_started,
        forall|i: int| 0 <= i < k ==> !straddles(#[trigger] rs[i], st0.last_update_id),
    ensures
        replay(st0, rs.take(j)) == (st0, Ok::<(), BookError>(())),
    decreases j,
{
    if j > 0 {
        lemma_replay_discards(st0, rs, j - 1, k);
        assert(rs.take(j).drop_last() =~= rs.take(j - 1));
        assert(!straddles(rs[j - 1], st0.last_update_id));
    }
}

/// After the chain has started, a later retained update is applied exactly
/// when it extends the chain; otherwise the replay stops on a gap.
pub proof fn lemma_chain_extension(st0: BookState, rs: Seq<DepthEvent>, m: int)
    requires
        0 <= m < rs.len(),
        replay(st0, rs.take(m)).1 is Ok,
        replay(st0, rs.take(m)).0.continuous_started,
        entries_value(rs[m].bids@) is Some,
        entries_value(rs[m].asks@) is Some,
    ensures
        rs[m].previous_update_id == replay(st0, rs.take(m)).0.last_update_id ==> {
            &&& replay(st0, rs.take(m + 1)).1 is Ok
            &&& replay(st0, rs.take(m + 1)).0.last_update_id == rs[m].last_update_id
        },
        rs[m].previous_update_id != replay(st0, rs.take(m)).0.last_update_id ==> replay(
            st0,
            rs.take(m + 1),
        ) == (replay(st0, rs.take(m)).0, Err::<(), BookError>(BookError::GapDetected)),
{
    assert(rs.take(m + 1).drop_last() =~= rs.take(m));
}

/// Bootstrap when nothing extends the chain: if the first retained update
/// whose range holds `S` is the last retained one, or the next one does not
/// continue it, the replica ends with the snapshot's levels plus exactly that
/// update's deltas, at that update's last id.
pub proof fn lemma_straddle_only(snap: DepthSnapshot, buffer: Seq<DepthEvent>, k: int)
    requires
        0 <= k < retained(buffer, snap.last_update_id).len(),
        straddles(retained(buffer, snap.last_update_id)[k], snap.last_update_id),
        forall|j: int|
            0 <= j < k ==> !straddles(
                #[trigger] retained(buffer, snap.last_update_id)[j],
                snap.last_update_id,
            ),
        entries_value(retained(buffer, snap.last_update_id)[k].bids@) is Some,
        entries_value(retained(buffer, snap.last_update_id)[k].asks@) is Some,
        k + 1 == retained(buffer, snap.last_update_id).len() || retained(
            buffer,
            snap.last_update_id,
        )[k + 1].previous_update_id != retained(buffer, snap.last_update_id)[k].last_update_id,
    ensures
        ({
            let u = retained(buffer, snap.last_update_id)[k];
            let fin = replay(snapshot_state(snap), retained(buffer, snap.last_update_id)).0;
            &&& fin == applied_state(
                snapshot_state(snap),
                u,
                entries_value(u.bids@)->0,
                entries_value(u.asks@)->0,
            )
            &&& fin.bids == apply_levels(snapshot_state(snap).bids, entries_value(u.bids@)->0)
            &&& fin.asks == apply_levels(snapshot_state(snap).asks, entries_value(u.asks@)->0)
            &&& fin.last_update_id == u.last_update_id
        }),
{
    let rs = retained(buffer, snap.last_update_id);
    let st0 = snapshot_state(snap);
    lemma_straddle_bootstrap(snap, buffer, k);
    assert(rs.take(k + 1).drop_last() =~= rs.take(k));
    assert(replay(st0, rs.take(k)) == (st0, Ok::<(), BookError>(())));
    assert(rs.take(k + 1).last() == rs[k]);
    let after = replay(st0, rs.take(k + 1));
    assert(after.0 == applied_state(st0, rs[k], entries_value(rs[k].bids@)->0, entries_value(rs[k].asks@)->0));
    if k + 1 == rs.len() {
        assert(rs.take(k + 1) =~= rs);
    } else {
        assert(rs.take(k + 2).drop_last() =~= rs.take(k + 1));
        assert(rs.take(k + 2).last() == rs[k + 1]);
        assert(replay(st0, rs.take(k + 2)) == (after.0, Err::<(), BookError>(BookError::GapDetected)));
        lemma_replay_err_sticks(st0, rs, k + 2);
    }
}

proof fn lemma_replay_err_sticks(st: BookState, us: Seq<DepthEvent>, k: int)
    requires
        0 <= k <= us.len(),
        replay(st, us.take(k)).1 is Err,
    ensures
        replay(st, us) == replay(st, us.take(k)),
    decreases us.len() - k,
{
    if k < us.len() {
        assert(us.take(k + 1).drop_last() =~= us.take(k));
        lemma_replay_err_sticks(st, us, k + 1);
    } else {
        assert(us.take(k) =~= us);
    }
}

/// Replica of one symbol's book.
pub struct OrderBookEngine {
    pub order_book: OrderBook,
    /// The last applied update id; `0` until a snapshot has been loaded.
    pub last_update_id: u64,
    /// Depth updates held until the snapshot arrives, in arrival order.
    pub update_buffer: Vec<DepthEvent>,
    pub symbol: String,
    /// Set once the straddling update has started the contiguous chain.
    pub continuous_started: bool,
}

impl OrderBookEngine {
    pub open spec fn wf(&self) -> bool {
        self.order_book.wf()
    }

    pub open spec fn state(&self) -> BookState {
        BookState {
            bids: self.order_book.bids@,
            asks: self.order_book.asks@,
            last_update_id: self.last_update_id,
            continuous_started: self.continuous_started,
            event_time: self.order_book.event_time,
        }
    }

    pub fn new(symbol: &str) -> (r: OrderBookEngine)
        ensures
            r.wf(),
            r.symbol@ == symbol@,
            r.last_update_id == 0,
            !r.continuous_started,
            r.update_buffer@.len() == 0,
            r.order_book.bids@ == Map::<u64, u64>::empty(),
            r.order_book.asks@ == Map::<u64, u64>::empty(),
            r.order_book.event_time is None,
    {
        OrderBookEngine {
            order_book: OrderBook::new(),
            last_update_id: 0,
            update_buffer: Vec::new(),
            symbol: symbol.to_owned(),
            continuous_started: false,
        }
    }

    /// Applies one update under the straddle rule (before the chain has
    /// started) or the contiguity rule (after). A refused update leaves the
    /// replica unchanged.
    pub fn apply_update(&mut self, update: &DepthEvent) -> (r: Result<bool, BookError>)
        requires
            old(self).wf(),
        ensures
            final(self).wf(),
            (final(self).state(), r) == step(old(self).state(), *update),
            final(self).update_buffer@ == old(self).update_buffer@,
            final(self).symbol@ == old(self).symbol@,
    {
        if !self.continuous_started {
            if !(update.first_update_id <= self.last_update_id
                && self.last_update_id <= update.last_update_id) {
                return Ok(false);
            }
        } else if update.previous_update_id != self.last_update_id {
            return Err(BookError::GapDetected);
        }
        let bids = match parse_levels(&update.bids) {
            Some(v) => v,
            None => {
                return Err(BookError::MalformedLevel);
            },
        };
        let asks = match parse_levels(&update.asks) {
            Some(v) => v,
            None => {
                return Err(BookError::MalformedLevel);
            },
        };
        self.order_book.bids.apply_all(&bids);
        self.order_book.asks.apply_all(&asks);
        self.last_update_id = update.last_update_id;
        self.order_book.event_time = Some(update.event_time);
        self.continuous_started = true;
        Ok(true)
    }

    /// Routes an envelope: non-depth kinds are ignored, depth updates are
    /// buffered until a snapshot has been loaded and applied after.
    pub fn push_update(&mut self, event: EventData) -> (r: Result<UpdateOutcome, BookError>)
        requires
            old(self).wf(),
            event.wf(),
        ensures
            final(self).wf(),
            final(self).symbol@ == old(self).symbol@,
            event.event_type != EventType::Depth ==> r == Ok::<UpdateOutcome, BookError>(
                UpdateOutcome::Ignored,
            ) && *final(self) == *old(self),
            event.data matches EventPayload::Depth(u) ==> {
                if old(self).last_update_id == 0 {
                    &&& r == Ok::<UpdateOutcome, BookError>(UpdateOutcome::Buffered)
                    &&& final(self).update_buffer@ == old(self).update_buffer@.push(u)
                    &&& final(self).state() == old(self).state()
                } else {
                    let (st, res) = step(old(self).state(), u);
                    &&& final(self).state() == st
                    &&& final(self).update_buffer@ == old(self).update_buffer@
                    &&& r == match res {
                        Ok(true) => Ok(UpdateOutcome::Applied),
                        Ok(false) => Ok(UpdateOutcome::Dropped),
                        Err(e) => Err(e),
                    }
                }
            },
    {
        if event.event_type != EventType::Depth {
            return Ok(UpdateOutcome::Ignored);
        }
        match event.data {
            EventPayload::Depth(u) => {
                if self.last_update_id == 0 {
                    self.update_buffer.push(u);
                    Ok(UpdateOutcome::Buffered)
                } else {
                    match self.apply_update(&u) {
                        Ok(true) => Ok(UpdateOutcome::Applied),
                        Ok(false) => Ok(UpdateOutcome::Dropped),
                        Err(e) => Err(e),
                    }
                }
            },
            _ => Ok(UpdateOutcome::Ignored),
        }
    }

    /// Loads a snapshot and replays the buffer: updates older than the
    /// snapshot are discarded, the rest are fed in arrival order, the first
    /// straddling one starting the chain. The buffer is empty afterwards.
    pub fn initialize(&mut self, snapshot: DepthSnapshot) -> (r: Result<(), BookError>)
        requires
            old(self).wf(),
        ensures
            final(self).wf(),
            final(self).symbol@ == old(self).symbol@,
            (entries_value(snapshot.bids@) is None || entries_value(snapshot.asks@) is None)
                ==> r == Err::<(), BookError>(BookError::MalformedLevel) && *final(self) == *old(self),
            (entries_value(snapshot.bids@) is Some && entries_value(snapshot.asks@) is Some)
                ==> {
                let (st, res) = replay(
                    snapshot_state(snapshot),
                    retained(old(self).update_buffer@, snapshot.last_update_id),
                );
                &&& final(self).state() == st
                &&& r == res
                &&& final(self).update_buffer@.len() == 0
            },
    {
        let book = match snapshot.to_order_book() {
            Some(b) => b,
            None => {
                return Err(BookError::MalformedLevel);
            },
        };
        let s = snapshot.last_update_id;
        let mut buffer: Vec<DepthEvent> = Vec::new();
        std::mem::swap(&mut buffer, &mut self.update_buffer);
        self.order_book = book;
        self.last_update_id = s;
        self.continuous_started = false;
        let ghost st0 = self.state();
        assert(st0 == snapshot_state(snapshot));
        let mut i: usize = 0;
        while i < buffer.len()
            invariant
                0 <= i <= buffer@.len(),
                self.wf(),
                self.update_buffer@.len() == 0,
                self.symbol@ == old(self).symbol@,
                buffer@ == old(self).update_buffer@,
                entries_value(snapshot.bids@) is Some,
                entries_value(snapshot.asks@) is Some,
                st0 == snapshot_state(snapshot),
                s == snapshot.last_update_id,
                replay(st0, retained(buffer@.take(i as int), s)) == (self.state(), Ok::<(), BookError>(())),
            decreases buffer@.len() - i,
        {
            proof {
                assert(buffer@.take(i + 1).drop_last() =~= buffer@.take(i as int));
            }
            let u = &buffer[i];
            if u.last_update_id >= s {
                let ghost pre = retained(buffer@.take(i as int), s);
                let ghost post = retained(buffer@.take(i + 1), s);
                assert(post =~= pre.push(*u));
                assert(post.drop_last() =~= pre);
                match self.apply_update(u) {
                    Ok(_) => {},
                    Err(e) => {
                        proof {
                            let k = post.len() as int;
                            let whole = retained(buffer@, s);
                            lemma_retained_prefix(buffer@, s, i as int + 1);
                            assert(whole.take(k) =~= post);
                            assert(replay(st0, post) == (self.state(), Err::<(), BookError>(e)));
                            lemma_replay_err_sticks(st0, whole, k);
                        }
                        return Err(e);
                    },
                }
            }
            i = i + 1;
        }
        assert(buffer@.take(i as int) =~= buffer@);
        Ok(())
    }
}

/// The survivors of a prefix are a prefix of the survivors.
proof fn lemma_retained_prefix(us: Seq<DepthEvent>, s: u64, k: int)
    requires
        0 <= k <= us.len(),
    ensures
        retained(us.take(k), s).len() <= retained(us, s).len(),
        retained(us, s).take(retained(us.take(k), s).len() as int) =~= retained(us.take(k), s),
    decreases us.len() - k,
{
    if k < us.len() {
        lemma_retained_prefix(us, s, k + 1);
        assert(us.take(k + 1).drop_last() =~= us.take(k));
        let a = retained(us.take(k), s);
        let b = retained(us.take(k + 1), s);
        let w = retained(us, s);
        if us[k].last_update_id >= s {
            assert(b == a.push(us[k]));
            assert(w.take(a.len() as int) =~= b.take(a.len() as int));
            assert(b.take(a.len() as int) =~= a);
        } else {
            assert(b == a);
        }
    } else {
        assert(us.take(k) =~= us);
    }
}

} // verus!
