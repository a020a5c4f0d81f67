//! The streaming client's logic: endpoint URLs, the remembered subscription
//! set, subscribe frames, and the read-loop state machine (reconnect, ping,
//! 24-hour rotation). The caller performs each action and reports the event.
use vstd::prelude::*;
use vstd::string::StringExecFns;

verus! {

/// Most streams one connection may carry.
pub const MAX_STREAMS: usize = 200;

/// Back-off before each reconnect attempt.
pub const RECONNECT_DELAY_MS: u64 = 3000;

/// Pause before each subscribe frame (at most ten per second).
pub const SUBSCRIBE_GAP_MS: u64 = 100;

/// Age at which a connection is rotated.
pub const ROTATION_MS: u64 = 86_400_000;

/// What the client refuses.
#[derive(Debug, Clone, Copy, PartialEq, Eq, Structural)]
pub enum ClientError {
    /// More than `MAX_STREAMS` streams requested for one connection.
    TooManyStreams,
    /// Remembered plus requested streams would exceed `MAX_STREAMS`.
    SubscriptionLimit,
    /// The assembled URL does not parse.
    InvalidUrl,
    /// A reconnect is due but no stream is remembered.
    NoRememberedStreams,
}

/// The result of `str::to_lowercase` on a text.
pub uninterp spec fn lower_of(s: Seq<char>) -> Seq<char>;

/// Whether `url::Url::parse` accepts a text.
pub uninterp spec fn url_parses(s: Seq<char>) -> bool;

/// A lower-case hexadecimal digit.
pub open spec fn hex_digit(n: int) -> char {
    seq!['0', '1', '2', '3', '4', '5', '6', '7', '8', '9', 'a', 'b', 'c', 'd', 'e', 'f'][n]
}

/// How a character stands inside a JSON string: quote and backslash are
/// escaped, control characters take their short escape or `\u00XX`, every
/// other character stands as it is.
pub open spec fn escaped_char(c: char) -> Seq<char> {
    if c == '"' {
        seq!['\\', '"']
    } else if c == '\\' {
        seq!['\\', '\\']
    } else if c == '\u{8}' {
        seq!['\\', 'b']
    } else if c == '\t' {
        seq!['\\', 't']
    } else if c == '\n' {
        seq!['\\', 'n']
    } else if c == '\u{c}' {
        seq!['\\', 'f']
    } else if c == '\r' {
        seq!['\\', 'r']
    } else if (c as int) < 0x20 {
        seq!['\\', 'u', '0', '0', hex_digit(c as int / 16), hex_digit(c as int % 16)]
    } else {
        seq![c]
    }
}

pub open spec fn escaped(s: Seq<char>) -> Seq<char>
    decreases s.len(),
{
    if s.len() == 0 {
        Seq::empty()
    } else {
        escaped(s.drop_last()) + escaped_char(s.last())
    }
}

/// The JSON string literal for a text, as `serde_json` writes it.
pub open spec fn json_quoted(s: Seq<char>) -> Seq<char> {
    seq!['"'] + escaped(s) + seq!['"']
}

/// Relies on `str::to_lowercase`: the result depends on the text alone.
#[verifier::external_body]
fn lowercase(s: &str) -> (r: String)
    ensures
        r@ == lower_of(s@),
{
    s.to_lowercase()
}

/// Relies on `url::Url::parse`: whether the text parses as a URL.
#[verifier::external_body]
fn url_ok(s: &str) -> (r: bool)
    ensures
        r == url_parses(s@),
{
    url::Url::parse(s).is_ok()
}

/// Relies on `serde_json::to_string` on a `str`, which cannot fail: the text
/// between quotes, escaped by the `ESCAPE` table of serde_json's serializer.
#[verifier::external_body]
fn json_string(s: &str) -> (r: String)
    ensures
        r@ == json_quoted(s@),
{
    match serde_json::to_string(s) {
        Ok(t) => t,
        Err(_) => String::new(),
    }
}

/// The texts of a list of strings.
pub open spec fn texts(v: Seq<String>) -> Seq<Seq<char>> {
    Seq::new(v.len(), |i: int| v[i]@)
}

/// `parts` joined by `sep`.
pub open spec fn join_with(parts: Seq<Seq<char>>, sep: Seq<char>) -> Seq<char>
    decreases parts.len(),
{
    if parts.len() == 0 {
        Seq::empty()
    } else if parts.len() == 1 {
        parts[0]
    } else {
        join_with(parts.drop_last(), sep) + sep + parts.last()
    }
}

pub open spec fn lowered(names: Seq<Seq<char>>) -> Seq<Seq<char>> {
    Seq::new(names.len(), |i: int| lower_of(names[i]))
}

pub open spec fn quoted(names: Seq<Seq<char>>) -> Seq<Seq<char>> {
    Seq::new(names.len(), |i: int| json_quoted(names[i]))
}

/// The endpoint for a set of streams: the single-stream form for one name,
/// the combined form otherwise; names lower-cased.
pub open spec fn stream_url(names: Seq<Seq<char>>) -> Seq<char> {
    if names.len() == 1 {
        "wss://fstream.binance.com/ws/"@ + lower_of(names[0])
    } else {
        "wss://fstream.binance.com/stream?streams=/"@ + join_with(lowered(names), "/"@)
    }
}

/// The endpoint a reconnect opens; the streams follow in one subscribe frame.
pub open spec fn reconnect_url() -> Seq<char> {
    "wss://fstream.binance.com/ws"@
}

/// The subscribe control frame listing `names`.
pub open spec fn subscribe_frame(names: Seq<Seq<char>>) -> Seq<char> {
    "{\"method\":\"SUBSCRIBE\",\"params\":["@ + join_with(quoted(names), ","@) + "],\"id\":1}"@
}

/// The remembered list after adding `new` in order, skipping names already present.
pub open spec fn remember_all(rem: Seq<Seq<char>>, new: Seq<Seq<char>>) -> Seq<Seq<char>>
    decreases new.len(),
{
    if new.len() == 0 {
        rem
    } else {
        let r = remember_all(rem, new.drop_last());
        if r.contains(new.last()) {
            r
        } else {
            r.push(new.last())
        }
    }
}

/// Whether a connection opened at `since_ms` is due for rotation at `now_ms`.
pub open spec fn rotation_due(since_ms: u64, now_ms: u64) -> bool {
    now_ms >= since_ms && now_ms - since_ms >= ROTATION_MS
}

/// Joins the results of `f` on each string with `sep`, for `f` one of the
/// named text functions.
fn join_mapped(items: &Vec<String>, sep: &str, quote: bool) -> (r: String)
    ensures
        r@ == join_with(
            if quote {
                quoted(texts(items@))
            } else {
                lowered(texts(items@))
            },
            sep@,
        ),
{
    let ghost parts = if quote {
        quoted(texts(items@))
    } else {
        lowered(texts(items@))
    };
    let mut out = String::new();
    let mut i: usize = 0;
    while i < items.len()
        invariant
            0 <= i <= items@.len(),
            parts.len() == items@.len(),
            parts == (if quote {
                quoted(texts(items@))
            } else {
                lowered(texts(items@))
            }),
            out@ == join_with(parts.take(i as int), sep@),
        decreases items@.len() - i,
    {
        let piece = if quote {
            json_string(items[i].as_str())
        } else {
            lowercase(items[i].as_str())
        };
        assert(piece@ == parts[i as int]);
        assert(parts.take(i + 1).drop_last() =~= parts.take(i as int));
        if i > 0 {
            out.append(sep);
        } else {
            assert(out@ =~= Seq::<char>::empty());
        }
        out.append(piece.as_str());
        i = i + 1;
        proof {
            if i == 1 {
                assert(out@ =~= parts.take(1)[0]);
            }
        }
    }
    assert(parts.take(i as int) =~= parts);
    out
}

/// Abstract state of the client.
pub ghost struct ClientModel {
    pub remembered: Seq<Seq<char>>,
    pub connected: bool,
    pub since_ms: u64,
}

/// What the read loop reports to the state machine.
#[derive(Debug, Clone)]
pub enum LoopEvent {
    /// Start of an iteration, with the monotonic clock in milliseconds.
    Tick { now_ms: u64 },
    Text(String),
    Ping(Vec<u8>),
    Pong,
    Binary,
    Close,
    ReadError,
    /// A new connection is open.
    Connected { now_ms: u64 },
    ConnectFailed,
    SubscribeSent,
    SubscribeFailed,
}

/// What the caller must do next.
#[derive(Debug, Clone)]
pub enum ClientAction {
    /// Read one frame and report it.
    ReadFrame,
    /// Hand this text payload to the message callback.
    Deliver(String),
    /// Reply with a pong carrying this payload.
    SendPong(Vec<u8>),
    /// Sleep `delay_ms`, then open a connection to `url`.
    Reconnect { delay_ms: u64, url: String },
    /// Sleep `delay_ms`, then send this subscribe frame.
    Resubscribe { delay_ms: u64, frame: String },
    /// Nothing to do; report the next tick.
    Idle,
    /// Stop the loop with this error.
    Fail(ClientError),
}

/// The abstract view of an action.
pub ghost enum ActionView {
    ReadFrame,
    Deliver(Seq<char>),
    SendPong(Seq<u8>),
    Reconnect(u64, Seq<char>),
    Resubscribe(u64, Seq<char>),
    Idle,
    Fail(ClientError),
}

pub open spec fn action_view(a: ClientAction) -> ActionView {
    match a {
        ClientAction::ReadFrame => ActionView::ReadFrame,
        ClientAction::Deliver(t) => ActionView::Deliver(t@),
        ClientAction::SendPong(p) => ActionView::SendPong(p@),
        ClientAction::Reconnect { delay_ms, url } => ActionView::Reconnect(delay_ms, url@),
        ClientAction::Resubscribe { delay_ms, frame } => ActionView::Resubscribe(delay_ms, frame@),
        ClientAction::Idle => ActionView::Idle,
        ClientAction::Fail(e) => ActionView::Fail(e),
    }
}

pub open spec fn disconnected(m: ClientModel) -> ClientModel {
    ClientModel { connected: false, ..m }
}

/// One transition of the read loop.
pub open spec fn client_step(m: ClientModel, ev: LoopEvent) -> (ClientModel, ActionView) {
    match ev {
        LoopEvent::Tick { now_ms } => {
            if m.connected && !rotation_due(m.since_ms, now_ms) {
                (m, ActionView::ReadFrame)
            } else if m.remembered.len() == 0 {
                (disconnected(m), ActionView::Fail(ClientError::NoRememberedStreams))
            } else {
                (disconnected(m), ActionView::Reconnect(RECONNECT_DELAY_MS, reconnect_url()))
            }
        },
        LoopEvent::Text(t) => (m, ActionView::Deliver(t@)),
        LoopEvent::Ping(p) => (m, ActionView::SendPong(p@)),
        LoopEvent::Pong => (m, ActionView::Idle),
        LoopEvent::Binary => (m, ActionView::Idle),
        LoopEvent::Close => (disconnected(m), ActionView::Idle),
        LoopEvent::ReadError => (disconnected(m), ActionView::Idle),
        LoopEvent::Connected { now_ms } => (
            ClientModel { connected: true, since_ms: now_ms, ..m },
            ActionView::Resubscribe(SUBSCRIBE_GAP_MS, subscribe_frame(m.remembered)),
        ),
        LoopEvent::ConnectFailed => (disconnected(m), ActionView::Idle),
        LoopEvent::SubscribeSent => (m, ActionView::Idle),
        LoopEvent::SubscribeFailed => (disconnected(m), ActionView::Idle),
    }
}

/// After a forced close, the next tick schedules a reconnect to the bare
/// endpoint with the back-off, and the new connection's single subscribe
/// frame lists exactly the streams remembered before the close; the
/// remembered set is the same after as before.
pub proof fn lemma_reconnect_resubscribes(m: ClientModel, now1: u64, now2: u64)
    requires
        m.remembered.len() > 0,
    ensures
        ({
            let m1 = client_step(m, LoopEvent::Close).0;
            let s2 = client_step(m1, LoopEvent::Tick { now_ms: now1 });
            let s3 = client_step(s2.0, LoopEvent::Connected { now_ms: now2 });
            &&& s2.1 == ActionView::Reconnect(RECONNECT_DELAY_MS, reconnect_url())
            &&& s3.1 == ActionView::Resubscribe(SUBSCRIBE_GAP_MS, subscribe_frame(m.remembered))
            &&& s3.0.remembered == m.remembered
            &&& s3.0.connected
        }),
{
}

/// A connection that has been open for the rotation age is replaced at the
/// next tick, whatever else happened.
pub proof fn lemma_rotation_reconnects(m: ClientModel, now: u64)
    requires
        m.remembered.len() > 0,
        rotation_due(m.since_ms, now),
    ensures
        client_step(m, LoopEvent::Tick { now_ms: now }) == (
            disconnected(m),
            ActionView::Reconnect(RECONNECT_DELAY_MS, reconnect_url()),
        ),
{
}

/// The streaming client's bookkeeping for one long-lived connection.
pub struct BinanceWebSocketClient {
    last_subscribed_streams: Vec<String>,
    connected: bool,
    connection_start: u64,
}

impl BinanceWebSocketClient {
    pub closed spec fn model(&self) -> ClientModel {
        ClientModel {
            remembered: texts(self.last_subscribed_streams@),
            connected: self.connected,
            since_ms: self.connection_start,
        }
    }

    /// The remembered streams are distinct and within the per-connection limit.
    pub open spec fn wf(&self) -> bool {
        &&& self.model().remembered.no_duplicates()
        &&& self.model().remembered.len() <= MAX_STREAMS
    }

    pub fn new() -> (r: BinanceWebSocketClient)
        ensures
            r.wf(),
            r.model() == (ClientModel { remembered: Seq::empty(), connected: false, since_ms: 0 }),
    {
        let r = BinanceWebSocketClient {
            last_subscribed_streams: Vec::new(),
            connected: false,
            connection_start: 0,
        };
        assert(r.model().remembered =~= Seq::<Seq<char>>::empty());
        r
    }

    /// The streams remembered for resubscription, in the order first subscribed.
    pub fn remembered(&self) -> (r: &Vec<String>)
        ensures
            texts(r@) == self.model().remembered,
    {
        &self.last_subscribed_streams
    }

    /// The endpoint URL for `streams`.
    pub fn build_url(streams: &Vec<String>) -> (r: String)
        ensures
            r@ == stream_url(texts(streams@)),
    {
        if streams.len() == 1 {
            let mut u = "wss://fstream.binance.com/ws/".to_owned();
            let l = lowercase(streams[0].as_str());
            u.append(l.as_str());
            u
        } else {
            let mut u = "wss://fstream.binance.com/stream?streams=/".to_owned();
            let j = join_mapped(streams, "/", false);
            u.append(j.as_str());
            u
        }
    }

    /// Checks a connection request: at most `MAX_STREAMS` streams and a URL
    /// that parses. Returns the URL to open.
    pub fn connect_url(streams: &Vec<String>) -> (r: Result<String, ClientError>)
        ensures
            streams@.len() > MAX_STREAMS ==> r == Err::<String, ClientError>(
                ClientError::TooManyStreams,
            ),
            streams@.len() <= MAX_STREAMS && !url_parses(stream_url(texts(streams@))) ==> r
                == Err::<String, ClientError>(ClientError::InvalidUrl),
            streams@.len() <= MAX_STREAMS && url_parses(stream_url(texts(streams@))) ==> (r
                matches Ok(u) && u@ == stream_url(texts(streams@))),
    {
        if streams.len() > MAX_STREAMS {
            return Err(ClientError::TooManyStreams);
        }
        let url = Self::build_url(streams);
        if !url_ok(url.as_str()) {
            return Err(ClientError::InvalidUrl);
        }
        Ok(url)
    }

    /// Checks a subscription against the limit, remembers the new streams
    /// and returns the subscribe frame listing them.
    pub fn subscribe(&mut self, streams: &Vec<String>) -> (r: Result<String, ClientError>)
        requires
            old(self).wf(),
        ensures
            final(self).wf(),
            old(self).model().remembered.len() + streams@.len() > MAX_STREAMS ==> r == Err::<
                String,
                ClientError,
            >(ClientError::SubscriptionLimit) && final(self).model() == old(self).model(),
            old(self).model().remembered.len() + streams@.len() <= MAX_STREAMS ==> {
                &&& (r matches Ok(f) && f@ == subscribe_frame(texts(streams@)))
                &&& final(self).model() == (ClientModel {
                    remembered: remember_all(old(self).model().remembered, texts(streams@)),
                    ..old(self).model()
                })
            },
    {
        if streams.len() > MAX_STREAMS - self.last_subscribed_streams.len() {
            return Err(ClientError::SubscriptionLimit);
        }
        let mut body = "{\"method\":\"SUBSCRIBE\",\"params\":[".to_owned();
        let j = join_mapped(streams, ",", true);
        body.append(j.as_str());
        body.append("],\"id\":1}");
        self.remember_streams(streams);
        Ok(body)
    }

    /// Adds each stream not yet remembered, in order.
    fn remember_streams(&mut self, streams: &Vec<String>)
        requires
            old(self).wf(),
            old(self).model().remembered.len() + streams@.len() <= MAX_STREAMS,
        ensures
            final(self).wf(),
            final(self).model() == (ClientModel {
                remembered: remember_all(old(self).model().remembered, texts(streams@)),
                ..old(self).model()
            }),
    {
        let ghost rem0 = self.model().remembered;
        let mut i: usize = 0;
        while i < streams.len()
            invariant
                0 <= i <= streams@.len(),
                rem0.len() + streams@.len() <= MAX_STREAMS,
                self.model().remembered == remember_all(rem0, texts(streams@).take(i as int)),
                self.model().remembered.no_duplicates(),
                self.model().remembered.len() <= rem0.len() + i,
                self.connected == old(self).connected,
                self.connection_start == old(self).connection_start,
            decreases streams@.len() - i,
        {
            let ghost names = texts(streams@);
            assert(names.take(i + 1).drop_last() =~= names.take(i as int));
            assert(names.take(i + 1).last() == streams@[i as int]@);
            let mut found = false;
            let mut j: usize = 0;
            let n = self.last_subscribed_streams.len();
            while j < n
                invariant
                    0 <= j <= n,
                    n == self.last_subscribed_streams@.len(),
                    i < streams@.len(),
                    found <==> exists|k: int|
                        0 <= k < j && #[trigger] self.last_subscribed_streams@[k]@ == streams@[i as int]@,
                decreases n - j,
            {
                if self.last_subscribed_streams[j] == streams[i] {
                    found = true;
                }
                j = j + 1;
            }
            let ghost rem = self.model().remembered;
            if found {
                proof {
                    let k = choose|k: int|
                        0 <= k < j && #[trigger] self.last_subscribed_streams@[k]@ == streams@[i as int]@;
                    assert(rem[k] == streams@[i as int]@);
                }
            } else {
                proof {
                    assert(!rem.contains(streams@[i as int]@)) by {
                        if rem.contains(streams@[i as int]@) {
                            let k = choose|k: int| 0 <= k < rem.len() && rem[k] == streams@[i as int]@;
                            assert(self.last_subscribed_streams@[k]@ == streams@[i as int]@);
                        }
                    }
                }
                let s = streams[i].clone();
                self.last_subscribed_streams.push(s);
                proof {
                    assert(self.model().remembered =~= rem.push(streams@[i as int]@));
                    assert forall|a: int, b: int|
                        0 <= a < b < self.model().remembered.len() implies self.model().remembered[a]
                        != self.model().remembered[b] by {
                        if b == rem.len() {
                            assert(rem[a] == self.model().remembered[a]);
                        }
                    }
                }
            }
            i = i + 1;
        }
        assert(texts(streams@).take(i as int) =~= texts(streams@));
    }

    /// One transition of the read loop: records the event and says what to do next.
    pub fn on_event(&mut self, ev: LoopEvent) -> (r: ClientAction)
        requires
            old(self).wf(),
        ensures
            final(self).wf(),
            (final(self).model(), action_view(r)) == client_step(old(self).model(), ev),
    {
        match ev {
            LoopEvent::Tick { now_ms } => {
                let due = now_ms >= self.connection_start && now_ms - self.connection_start
                    >= ROTATION_MS;
                if self.connected && !due {
                    ClientAction::ReadFrame
                } else {
                    self.connected = false;
                    if self.last_subscribed_streams.len() == 0 {
                        ClientAction::Fail(ClientError::NoRememberedStreams)
                    } else {
                        let url = "wss://fstream.binance.com/ws".to_owned();
                        ClientAction::Reconnect { delay_ms: RECONNECT_DELAY_MS, url }
                    }
                }
            },
            LoopEvent::Text(t) => ClientAction::Deliver(t),
            LoopEvent::Ping(p) => ClientAction::SendPong(p),
            LoopEvent::Pong => ClientAction::Idle,
            LoopEvent::Binary => ClientAction::Idle,
            LoopEvent::Connected { now_ms } => {
                self.connected = true;
                self.connection_start = now_ms;
                let mut body = "{\"method\":\"SUBSCRIBE\",\"params\":[".to_owned();
                let j = join_mapped(&self.last_subscribed_streams, ",", true);
                body.append(j.as_str());
                body.append("],\"id\":1}");
                ClientAction::Resubscribe { delay_ms: SUBSCRIBE_GAP_MS, frame: body }
            },
            LoopEvent::SubscribeSent => ClientAction::Idle,
            _ => {
                self.connected = false;
                ClientAction::Idle
            },
        }
    }
}

} // verus!
