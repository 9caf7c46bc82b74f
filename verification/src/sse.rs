//! The streaming subscription core: configuration and URL construction,
//! event-stream framing, and the explicit connection state machine that
//! governs connect, reconnect and failure.
//!
//! The surrounding I/O layer owns the network stream and the background
//! task; it feeds bytes to [`SseParser`] and transport events to
//! [`SseDriver`], and performs the commands the driver hands back.

use vstd::prelude::*;
use vstd::string::StrSliceExecFns;
use vstd::string::StringExecFns;
use crate::errors::SecureNotifyError;
use crate::strutil::{find_char, spec_starts_with, spec_trim, starts_with, str_eq, trim};

verus! {

/// The connection state of one streaming subscription.
#[derive(Debug, Clone, Copy, PartialEq, Eq, Structural)]
pub enum SseState {
    Disconnected,
    Connecting,
    Connected,
    Reconnecting,
    Failed,
}

/// The type tag of a server-sent event.
#[derive(Debug, Clone, PartialEq, Eq)]
pub enum SseEventType {
    Message,
    Heartbeat,
    Error,
    Connected,
    Disconnected,
    Unknown(String),
}

/// Whether an event type is the one a label names: the five known labels
/// map to their variants, and anything else is carried verbatim as
/// `Unknown`.
pub open spec fn event_type_matches(t: SseEventType, label: Seq<char>) -> bool {
    if label == "message"@ {
        t == SseEventType::Message
    } else if label == "heartbeat"@ {
        t == SseEventType::Heartbeat
    } else if label == "error"@ {
        t == SseEventType::Error
    } else if label == "connected"@ {
        t == SseEventType::Connected
    } else if label == "disconnected"@ {
        t == SseEventType::Disconnected
    } else {
        t matches SseEventType::Unknown(u) && u@ == label
    }
}

impl SseEventType {
    /// The label of each event type.
    pub open spec fn spec_str(self) -> Seq<char> {
        match self {
            SseEventType::Message => "message"@,
            SseEventType::Heartbeat => "heartbeat"@,
            SseEventType::Error => "error"@,
            SseEventType::Connected => "connected"@,
            SseEventType::Disconnected => "disconnected"@,
            SseEventType::Unknown(s) => "unknown: "@ + s@,
        }
    }

    /// The event type a label names.
    pub fn from_label(label: &str) -> (r: SseEventType)
        ensures
            event_type_matches(r, label@),
    {
        if str_eq(label, "message") {
            SseEventType::Message
        } else if str_eq(label, "heartbeat") {
            SseEventType::Heartbeat
        } else if str_eq(label, "error") {
            SseEventType::Error
        } else if str_eq(label, "connected") {
            SseEventType::Connected
        } else if str_eq(label, "disconnected") {
            SseEventType::Disconnected
        } else {
            SseEventType::Unknown(label.to_owned())
        }
    }

    /// The label, with unknown types rendered behind a marker.
    pub fn as_str(&self) -> (r: String)
        ensures
            r@ == self.spec_str(),
    {
        match self {
            SseEventType::Message => String::from_str("message"),
            SseEventType::Heartbeat => String::from_str("heartbeat"),
            SseEventType::Error => String::from_str("error"),
            SseEventType::Connected => String::from_str("connected"),
            SseEventType::Disconnected => String::from_str("disconnected"),
            SseEventType::Unknown(s) => String::from_str("unknown: ").concat(s.as_str()),
        }
    }
}

/// One parsed server-sent event.
#[derive(Debug, Clone)]
pub struct SseEvent {
    pub event_type: SseEventType,
    pub data: String,
    pub id: Option<String>,
    pub name: Option<String>,
}

impl SseEvent {
    pub fn new(event_type: SseEventType, data: String, id: Option<String>, name: Option<String>)
        -> (r: SseEvent)
        ensures
            r == (SseEvent { event_type, data, id, name }),
    {
        SseEvent { event_type, data, id, name }
    }
}

/// A message delivered to the subscriber over the subscription channel.
#[derive(Debug)]
pub enum SseMessage {
    /// A dispatched server-sent event.
    Event(SseEvent),
    /// A keep-alive signal.
    Heartbeat,
    /// The stream connected.
    Connected,
    /// The stream closed for good, by the server or by the caller.
    Disconnected,
    /// A connection error; the manager keeps retrying until its budget is
    /// spent.
    Error(SecureNotifyError),
}

/// Configuration of one streaming subscription.
#[derive(Debug, Clone)]
pub struct SseConfig {
    pub url: String,
    pub api_key: String,
    pub heartbeat_interval_ms: u64,
    pub reconnect_delay_ms: u64,
    pub max_reconnect_attempts: u32,
    pub connection_timeout_ms: u64,
}

/// What the url crate turns a URL string into, when it parses: the
/// normalized rendering.
pub uninterp spec fn spec_url_normalized(url: Seq<char>) -> Option<Seq<char>>;

/// What the url crate yields for a URL with the credential attached as an
/// `api_key` query pair; nothing when the URL does not parse.
pub uninterp spec fn spec_url_with_key(url: Seq<char>, api_key: Seq<char>) -> Option<Seq<char>>;

/// Relies on `url::Url::parse` and `Url::to_string`: parsing either fails,
/// or yields a normalized rendering that depends on the input alone.
#[verifier::external_body]
fn normalize_url(url: &str) -> (r: Option<String>)
    ensures
        match r {
            Some(s) => spec_url_normalized(url@) == Some(s@),
            None => spec_url_normalized(url@) is None,
        },
{
    match url::Url::parse(url) {
        Ok(u) => Some(u.to_string()),
        Err(_) => None,
    }
}

/// Relies on `url::Url::parse`, `Url::query_pairs_mut` /
/// `append_pair` and `Url::to_string`: the rendering with the appended
/// query pair depends on the inputs alone.
#[verifier::external_body]
fn url_with_key(url: &str, api_key: &str) -> (r: Option<String>)
    ensures
        match r {
            Some(s) => spec_url_with_key(url@, api_key@) == Some(s@),
            None => spec_url_with_key(url@, api_key@) is None,
        },
{
    match url::Url::parse(url) {
        Ok(mut u) => {
            u.query_pairs_mut().append_pair("api_key", api_key);
            Some(u.to_string())
        },
        Err(_) => None,
    }
}

impl SseConfig {
    /// A subscription configuration with the stock timings: thirty-second
    /// heartbeat, one-second reconnect delay, ten reconnect attempts,
    /// thirty-second connection timeout.
    pub fn new(url: String, api_key: String) -> (r: Self)
        ensures
            r.url@ == url@,
            r.api_key@ == api_key@,
            r.heartbeat_interval_ms == 30000,
            r.reconnect_delay_ms == 1000,
            r.max_reconnect_attempts == 10,
            r.connection_timeout_ms == 30000,
    {
        SseConfig {
            url,
            api_key,
            heartbeat_interval_ms: 30000,
            reconnect_delay_ms: 1000,
            max_reconnect_attempts: 10,
            connection_timeout_ms: 30000,
        }
    }

    pub fn with_heartbeat_interval(self, heartbeat_interval_ms: u64) -> (r: Self)
        ensures
            r == (SseConfig { heartbeat_interval_ms, ..self }),
    {
        SseConfig { heartbeat_interval_ms, ..self }
    }

    pub fn with_reconnect_delay(self, reconnect_delay_ms: u64) -> (r: Self)
        ensures
            r == (SseConfig { reconnect_delay_ms, ..self }),
    {
        SseConfig { reconnect_delay_ms, ..self }
    }

    pub fn with_max_reconnect_attempts(self, max_reconnect_attempts: u32) -> (r: Self)
        ensures
            r == (SseConfig { max_reconnect_attempts, ..self }),
    {
        SseConfig { max_reconnect_attempts, ..self }
    }

    /// The URL the stream connects to: the configured URL normalized, with
    /// the credential attached as a query pair when one is set.
    pub open spec fn spec_build_url(self) -> Option<Seq<char>> {
        if self.api_key@.len() == 0 {
            spec_url_normalized(self.url@)
        } else {
            spec_url_with_key(self.url@, self.api_key@)
        }
    }

    /// Build the URL to connect to; a URL that does not parse is a
    /// connection error.
    pub fn build_url(&self) -> (r: Result<String, SecureNotifyError>)
        ensures
            match r {
                Ok(s) => self.spec_build_url() == Some(s@),
                Err(e) => {
                    &&& self.spec_build_url() is None
                    &&& e matches SecureNotifyError::ConnectionError(m) && m@ == "Invalid SSE URL"@
                },
            },
    {
        let built: Option<String> = if self.api_key.as_str().unicode_len() == 0 {
            normalize_url(self.url.as_str())
        } else {
            url_with_key(self.url.as_str(), self.api_key.as_str())
        };
        match built {
            Some(s) => Ok(s),
            None => Err(SecureNotifyError::ConnectionError(String::from_str("Invalid SSE URL"))),
        }
    }
}

/// The index of the first newline in a character string, if any.
pub open spec fn spec_find_nl(s: Seq<char>) -> Option<int>
    decreases s.len(),
{
    if s.len() == 0 {
        None
    } else if s[0] == '\n' {
        Some(0)
    } else {
        match spec_find_nl(s.drop_first()) {
            Some(i) => Some(i + 1),
            None => None,
        }
    }
}

/// What `spec_find_nl` returns: the first newline index, or nothing when
/// the string holds none.
pub proof fn lemma_find_nl(s: Seq<char>)
    ensures
        match spec_find_nl(s) {
            Some(i) => 0 <= i < s.len() && s[i] == '\n' && forall|j: int|
                0 <= j < i ==> s[j] != '\n',
            None => forall|j: int| 0 <= j < s.len() ==> s[j] != '\n',
        },
    decreases s.len(),
{
    if s.len() == 0 {
    } else if s[0] == '\n' {
    } else {
        lemma_find_nl(s.drop_first());
        assert forall|j: int| 1 <= j < s.len() implies s[j] == s.drop_first()[j - 1] by {}
    }
}

/// One step of event-stream framing. A line is trimmed first; a blank
/// line dispatches the accumulated event (when any data was carried) and
/// resets the pending type and data; `event:` sets the pending type;
/// `data:` appends a payload line, newline-joined; anything else — a
/// comment or an unknown field — is ignored. The result is the new pending
/// type, the new accumulated data, and the dispatched event, if any, as a
/// (type label, payload) pair.
pub open spec fn spec_process_line(etype: Seq<char>, data: Seq<char>, line: Seq<char>) -> (
    Seq<char>,
    Seq<char>,
    Option<(Seq<char>, Seq<char>)>,
) {
    let t = spec_trim(line);
    if t.len() == 0 {
        (
            "message"@,
            Seq::empty(),
            if data.len() > 0 {
                Some((etype, data))
            } else {
                None
            },
        )
    } else if spec_starts_with(t, "event:"@) {
        (spec_trim(t.subrange(6, t.len() as int)), data, None)
    } else if spec_starts_with(t, "data:"@) {
        let v = spec_trim(t.subrange(5, t.len() as int));
        (
            etype,
            if data.len() == 0 {
                v
            } else {
                data + "\n"@ + v
            },
            None,
        )
    } else {
        (etype, data, None)
    }
}

/// Framing over a whole buffer: every complete line is processed in
/// order, the events dispatched along the way are collected, and the
/// trailing text after the last newline stays buffered. The result is the
/// final pending type, the final accumulated data, the leftover buffer,
/// and the dispatched events.
pub open spec fn spec_feed(etype: Seq<char>, data: Seq<char>, buf: Seq<char>) -> (
    Seq<char>,
    Seq<char>,
    Seq<char>,
    Seq<(Seq<char>, Seq<char>)>,
)
    decreases buf.len(),
{
    match spec_find_nl(buf) {
        None => (etype, data, buf, Seq::empty()),
        Some(p) => {
            if 0 <= p < buf.len() {
                let line = buf.subrange(0, p);
                let rest = buf.subrange(p + 1, buf.len() as int);
                let step = spec_process_line(etype, data, line);
                let tail = spec_feed(step.0, step.1, rest);
                (
                    tail.0,
                    tail.1,
                    tail.2,
                    match step.2 {
                        Some(e) => seq![e] + tail.3,
                        None => tail.3,
                    },
                )
            } else {
                (etype, data, buf, Seq::empty())
            }
        },
    }
}

/// Whether a message is the dispatch of the given (type label, payload)
/// pair: an event message whose type matches the label, whose data is the
/// payload, and which carries no id or name.
pub open spec fn is_dispatch_of(m: SseMessage, e: (Seq<char>, Seq<char>)) -> bool {
    &&& m matches SseMessage::Event(ev)
    &&& event_type_matches(ev.event_type, e.0)
    &&& ev.data@ == e.1
    &&& ev.id is None
    &&& ev.name is None
}

/// An incremental event-stream parser: bytes arrive in arbitrary chunks,
/// complete lines are framed into events.
#[derive(Debug)]
pub struct SseParser {
    /// Text after the last newline seen so far.
    pub buffer: String,
    /// The pending event type; `message` when none was set.
    pub event_type: String,
    /// The accumulated data lines of the pending event, newline-joined.
    pub data: String,
}

impl SseParser {
    pub fn new() -> (r: Self)
        ensures
            r.buffer@ == Seq::<char>::empty(),
            r.event_type@ == "message"@,
            r.data@ == Seq::<char>::empty(),
    {
        SseParser {
            buffer: String::new(),
            event_type: String::from_str("message"),
            data: String::new(),
        }
    }

    /// Process one complete line (without its newline).
    fn feed_line(&mut self, line: &str) -> (r: Option<SseMessage>)
        ensures
            final(self).buffer@ == old(self).buffer@,
            ({
                let step = spec_process_line(old(self).event_type@, old(self).data@, line@);
                &&& final(self).event_type@ == step.0
                &&& final(self).data@ == step.1
                &&& match step.2 {
                    Some(e) => r matches Some(m) && is_dispatch_of(m, e),
                    None => r is None,
                }
            }),
    {
        let t: String = trim(line);
        let tlen: usize = t.as_str().unicode_len();
        proof {
            reveal_strlit("event:");
            reveal_strlit("data:");
        }
        if tlen == 0 {
            let had_data: bool = self.data.as_str().unicode_len() > 0;
            let msg: Option<SseMessage> = if had_data {
                Some(
                    SseMessage::Event(
                        SseEvent {
                            event_type: SseEventType::from_label(self.event_type.as_str()),
                            data: self.data.clone(),
                            id: None,
                            name: None,
                        },
                    ),
                )
            } else {
                None
            };
            self.event_type = String::from_str("message");
            self.data = String::new();
            msg
        } else if starts_with(t.as_str(), "event:") {
            let rest = t.as_str().substring_char(6, tlen);
            self.event_type = trim(rest);
            None
        } else if starts_with(t.as_str(), "data:") {
            let rest = t.as_str().substring_char(5, tlen);
            let v: String = trim(rest);
            if self.data.as_str().unicode_len() == 0 {
                self.data = v;
            } else {
                self.data.append("\n");
                self.data.append(v.as_str());
            }
            None
        } else {
            None
        }
    }

    /// Feed a chunk of stream text: complete lines are framed, dispatched
    /// events come back in order, and the trailing partial line stays
    /// buffered for the next chunk.
    pub fn push_chunk(&mut self, chunk: &str) -> (msgs: Vec<SseMessage>)
        ensures
            ({
                let f = spec_feed(
                    old(self).event_type@,
                    old(self).data@,
                    old(self).buffer@ + chunk@,
                );
                &&& final(self).event_type@ == f.0
                &&& final(self).data@ == f.1
                &&& final(self).buffer@ == f.2
                &&& msgs@.len() == f.3.len()
                &&& forall|k: int|
                    0 <= k < msgs@.len() ==> is_dispatch_of(#[trigger] msgs@[k], f.3[k])
            }),
    {
        self.buffer.append(chunk);
        let ghost target = spec_feed(self.event_type@, self.data@, self.buffer@);
        let mut msgs: Vec<SseMessage> = Vec::new();
        let ghost mut done: Seq<(Seq<char>, Seq<char>)> = Seq::empty();
        proof {
            assert(done + target.3 =~= target.3);
        }
        loop
            invariant
                target == spec_feed(
                    old(self).event_type@,
                    old(self).data@,
                    old(self).buffer@ + chunk@,
                ),
                ({
                    let cur = spec_feed(self.event_type@, self.data@, self.buffer@);
                    &&& target.0 == cur.0
                    &&& target.1 == cur.1
                    &&& target.2 == cur.2
                    &&& target.3 == done + cur.3
                }),
                msgs@.len() == done.len(),
                forall|k: int| 0 <= k < done.len() ==> is_dispatch_of(#[trigger] msgs@[k], done[k]),
            decreases self.buffer@.len(),
        {
            let found = find_char(self.buffer.as_str(), '\n');
            match found {
                None => {
                    proof {
                        lemma_find_nl(self.buffer@);
                        let nl = spec_find_nl(self.buffer@);
                        if nl is Some {
                            assert(self.buffer@[nl->0] == '\n');
                        }
                        assert(nl is None);
                        let f = spec_feed(
                            old(self).event_type@,
                            old(self).data@,
                            old(self).buffer@ + chunk@,
                        );
                        let cur = spec_feed(self.event_type@, self.data@, self.buffer@);
                        assert(cur.3 =~= Seq::<(Seq<char>, Seq<char>)>::empty());
                        assert(f == target);
                        assert(f.3 =~= done);
                        assert forall|k: int| 0 <= k < msgs@.len() implies is_dispatch_of(
                            #[trigger] msgs@[k],
                            f.3[k],
                        ) by {
                            assert(f.3[k] == done[k]);
                        }
                    }
                    return msgs;
                },
                Some(pos) => {
                    let ghost et0 = self.event_type@;
                    let ghost d0 = self.data@;
                    let ghost buf0 = self.buffer@;
                    proof {
                        lemma_find_nl(buf0);
                        let nl = spec_find_nl(buf0);
                        assert(nl is Some) by {
                            if nl is None {
                                assert(buf0[pos as int] != '\n');
                            }
                        }
                        assert(nl->0 == pos) by {
                            if nl->0 < pos {
                                assert(buf0[nl->0] != '\n');
                            }
                            if nl->0 > pos {
                                assert(buf0[pos as int] != '\n');
                            }
                        }
                    }
                    let blen: usize = self.buffer.as_str().unicode_len();
                    let line: String = self.buffer.as_str().substring_char(0, pos).to_owned();
                    let rest: String = self.buffer.as_str().substring_char(
                        pos + 1,
                        blen,
                    ).to_owned();
                    self.buffer = rest;
                    let m = self.feed_line(line.as_str());
                    proof {
                        let step = spec_process_line(et0, d0, buf0.subrange(0, pos as int));
                        let cur = spec_feed(self.event_type@, self.data@, self.buffer@);
                        let f0 = spec_feed(et0, d0, buf0);
                        assert(f0.0 == cur.0 && f0.1 == cur.1 && f0.2 == cur.2);
                        match step.2 {
                            Some(e) => {
                                assert(f0.3 =~= seq![e] + cur.3);
                            },
                            None => {
                                assert(f0.3 =~= cur.3);
                            },
                        }
                    }
                    match m {
                        Some(msg) => {
                            let ghost step = spec_process_line(
                                et0,
                                d0,
                                buf0.subrange(0, pos as int),
                            );
                            msgs.push(msg);
                            proof {
                                done = done + seq![step.2->0];
                                assert(done + spec_feed(
                                    self.event_type@,
                                    self.data@,
                                    self.buffer@,
                                ).3 =~= target.3);
                            }
                        },
                        None => {},
                    }
                },
            }
        }
    }
}

/// The reconnect backoff: the configured delay doubled once per attempt
/// made so far, capped at sixty seconds. This policy is deliberately
/// separate from the request retry policy and grows by a fixed factor of
/// two.
pub fn reconnect_backoff(attempts: u32, reconnect_delay_ms: u64) -> (d: u64)
    ensures
        d as nat == crate::retry::spec_backoff_ms(
            reconnect_delay_ms as nat,
            200,
            60000,
            attempts as nat,
        ),
        d <= 60000,
{
    let mut d: u64 = if reconnect_delay_ms <= 60000 {
        reconnect_delay_ms
    } else {
        60000
    };
    let mut i: u32 = 0;
    while i < attempts
        invariant
            i <= attempts,
            d as nat == crate::retry::spec_backoff_ms(
                reconnect_delay_ms as nat,
                200,
                60000,
                i as nat,
            ),
            d <= 60000,
        decreases attempts - i,
    {
        let grown: u64 = 2 * d;
        proof {
            vstd::arithmetic::div_mod::lemma_div_multiples_vanish(2 * (d as int), 100);
            assert((d as int) * 200 == 100 * (2 * (d as int))) by (nonlinear_arith);
            assert((d as nat) * 200 / 100 == 2 * (d as nat));
        }
        if grown >= 60000 {
            d = 60000;
        } else {
            d = grown;
        }
        i = i + 1;
    }
    d
}

/// Classify the HTTP status a stream request came back with: a success
/// status opens the stream, and any other status is an `ApiError`
/// carrying the status, its decimal rendering as the code, and a message
/// naming it.
pub fn connect_outcome(status: u16) -> (r: Result<(), SecureNotifyError>)
    ensures
        crate::http::spec_is_success_status(status) ==> r is Ok,
        !crate::http::spec_is_success_status(status) ==> (r matches Err(e) && e matches
            SecureNotifyError::ApiError { code, message, status: st } && code@
            == crate::strutil::spec_dec(status as nat) && message@
            == "SSE connection failed with status: "@ + crate::strutil::spec_dec(status as nat)
            && st == status),
{
    if 200 <= status && status < 300 {
        Ok(())
    } else {
        let code: String = crate::strutil::u64_to_string(status as u64);
        let message: String = String::from_str("SSE connection failed with status: ").concat(
            code.as_str(),
        );
        Err(SecureNotifyError::ApiError { code, message, status })
    }
}

/// Whether a subscription state accepts no further transitions.
pub open spec fn spec_terminal(s: SseState) -> bool {
    s == SseState::Failed || s == SseState::Disconnected
}

/// The state machine of one streaming subscription. The surrounding task
/// owns the transport; it reports what happened — connected, stream error,
/// stream end, a heartbeat interval, an explicit disconnect — and performs
/// what the transition decides: the messages to deliver, and how long to
/// sleep before reconnecting.
#[derive(Debug, Clone, Copy, PartialEq, Eq, Structural)]
pub struct SseDriver {
    /// The authoritative connection state.
    pub state: SseState,
    /// How many reconnects have been attempted.
    pub attempts: u32,
    /// The base reconnect delay, doubled per attempt.
    pub reconnect_delay_ms: u64,
    /// How many reconnects are allowed before giving up.
    pub max_reconnect_attempts: u32,
}

impl SseDriver {
    pub fn new(config: &SseConfig) -> (r: Self)
        ensures
            r.state == SseState::Disconnected,
            r.attempts == 0,
            r.reconnect_delay_ms == config.reconnect_delay_ms,
            r.max_reconnect_attempts == config.max_reconnect_attempts,
    {
        SseDriver {
            state: SseState::Disconnected,
            attempts: 0,
            reconnect_delay_ms: config.reconnect_delay_ms,
            max_reconnect_attempts: config.max_reconnect_attempts,
        }
    }

    /// The URL could not be built: fail before any network attempt,
    /// reporting the error.
    pub fn on_url_invalid(&mut self, error: SecureNotifyError) -> (msgs: Vec<SseMessage>)
        requires
            old(self).state == SseState::Disconnected,
        ensures
            final(self).state == SseState::Failed,
            final(self).attempts == old(self).attempts,
            final(self).reconnect_delay_ms == old(self).reconnect_delay_ms,
            final(self).max_reconnect_attempts == old(self).max_reconnect_attempts,
            msgs@.len() == 1,
            msgs@[0] == SseMessage::Error(error),
    {
        self.state = SseState::Failed;
        let mut msgs: Vec<SseMessage> = Vec::new();
        msgs.push(SseMessage::Error(error));
        msgs
    }

    /// Begin the first connection attempt.
    pub fn on_connect_start(&mut self)
        requires
            old(self).state == SseState::Disconnected,
        ensures
            final(self).state == SseState::Connecting,
            final(self).attempts == old(self).attempts,
            final(self).reconnect_delay_ms == old(self).reconnect_delay_ms,
            final(self).max_reconnect_attempts == old(self).max_reconnect_attempts,
    {
        self.state = SseState::Connecting;
    }

    /// The stream opened.
    pub fn on_connected(&mut self) -> (msgs: Vec<SseMessage>)
        requires
            old(self).state == SseState::Connecting || old(self).state == SseState::Reconnecting,
        ensures
            final(self).state == SseState::Connected,
            final(self).attempts == old(self).attempts,
            final(self).reconnect_delay_ms == old(self).reconnect_delay_ms,
            final(self).max_reconnect_attempts == old(self).max_reconnect_attempts,
            msgs@.len() == 1,
            msgs@[0] is Connected,
    {
        self.state = SseState::Connected;
        let mut msgs: Vec<SseMessage> = Vec::new();
        msgs.push(SseMessage::Connected);
        msgs
    }

    /// The stream failed to open or broke. The error is always reported;
    /// while the reconnect budget lasts, the next attempt follows after a
    /// doubling backoff (the returned delay), and once it is spent a final
    /// terminal error is reported and the subscription fails for good (no
    /// delay is returned).
    pub fn on_stream_error(&mut self, error: SecureNotifyError) -> (r: (
        Vec<SseMessage>,
        Option<u64>,
    ))
        requires
            !spec_terminal(old(self).state),
        ensures
            final(self).reconnect_delay_ms == old(self).reconnect_delay_ms,
            final(self).max_reconnect_attempts == old(self).max_reconnect_attempts,
            r.0@.len() >= 1 && r.0@[0] == SseMessage::Error(error),
            if old(self).attempts >= old(self).max_reconnect_attempts {
                &&& final(self).state == SseState::Failed
                &&& final(self).attempts == old(self).attempts
                &&& r.1 is None
                &&& r.0@.len() == 2
                &&& (r.0@[1] matches SseMessage::Error(e) && e matches
                    SecureNotifyError::ConnectionError(m) && m@
                    == "Max reconnect attempts reached"@)
            } else {
                &&& final(self).state == SseState::Reconnecting
                &&& final(self).attempts == old(self).attempts + 1
                &&& r.0@.len() == 1
                &&& (r.1 matches Some(delay) && delay as nat == crate::retry::spec_backoff_ms(
                    old(self).reconnect_delay_ms as nat,
                    200,
                    60000,
                    final(self).attempts as nat,
                ))
            },
    {
        let mut msgs: Vec<SseMessage> = Vec::new();
        msgs.push(SseMessage::Error(error));
        if self.attempts >= self.max_reconnect_attempts {
            msgs.push(
                SseMessage::Error(
                    SecureNotifyError::ConnectionError(
                        String::from_str("Max reconnect attempts reached"),
                    ),
                ),
            );
            self.state = SseState::Failed;
            (msgs, None)
        } else {
            self.attempts = self.attempts + 1;
            self.state = SseState::Reconnecting;
            let delay: u64 = reconnect_backoff(self.attempts, self.reconnect_delay_ms);
            (msgs, Some(delay))
        }
    }

    /// The stream ended gracefully: report the close and stop.
    pub fn on_stream_end(&mut self) -> (msgs: Vec<SseMessage>)
        requires
            !spec_terminal(old(self).state),
        ensures
            final(self).state == SseState::Disconnected,
            final(self).attempts == old(self).attempts,
            final(self).reconnect_delay_ms == old(self).reconnect_delay_ms,
            final(self).max_reconnect_attempts == old(self).max_reconnect_attempts,
            msgs@.len() == 1,
            msgs@[0] is Disconnected,
    {
        self.state = SseState::Disconnected;
        let mut msgs: Vec<SseMessage> = Vec::new();
        msgs.push(SseMessage::Disconnected);
        msgs
    }

    /// An idle heartbeat interval elapsed: produce the keep-alive signal,
    /// but only while connected.
    pub fn on_heartbeat(&self) -> (r: Option<SseMessage>)
        ensures
            if self.state == SseState::Connected {
                r matches Some(m) && m is Heartbeat
            } else {
                r is None
            },
    {
        if self.is_connected() {
            Some(SseMessage::Heartbeat)
        } else {
            None
        }
    }

    /// The caller asked to stop. In a live state this closes the
    /// subscription and reports the close; in a terminal state nothing
    /// further is emitted, so the close is reported at most once.
    pub fn disconnect(&mut self) -> (msgs: Vec<SseMessage>)
        ensures
            final(self).attempts == old(self).attempts,
            final(self).reconnect_delay_ms == old(self).reconnect_delay_ms,
            final(self).max_reconnect_attempts == old(self).max_reconnect_attempts,
            if spec_terminal(old(self).state) {
                final(self).state == old(self).state && msgs@.len() == 0
            } else {
                final(self).state == SseState::Disconnected && msgs@.len() == 1 && msgs@[0] is Disconnected
            },
    {
        let mut msgs: Vec<SseMessage> = Vec::new();
        match self.state {
            SseState::Failed => {},
            SseState::Disconnected => {},
            _ => {
                self.state = SseState::Disconnected;
                msgs.push(SseMessage::Disconnected);
            },
        }
        msgs
    }

    /// The current connection state.
    pub fn state(&self) -> (r: SseState)
        ensures
            r == self.state,
    {
        self.state
    }

    /// Whether the stream is currently connected.
    pub fn is_connected(&self) -> (r: bool)
        ensures
            r == (self.state == SseState::Connected),
    {
        match self.state {
            SseState::Connected => true,
            _ => false,
        }
    }
}

} // verus!
