//! The state shared by the Socket.IO streaming sessions (UART and RTT):
//! the receive buffer and how each incoming event changes it, while the
//! session opens and while it runs. Both namespaces speak the same dialect
//! (data rides as hex strings under a `data` key), so one machine serves
//! both; the transport owns the socket and hands events in one by one.

use vstd::prelude::*;
use vstd::string::StringExecFns;
use crate::codec::{hex_decode, hex_decoded, hex_encode, hex_of, hex_splits, hex_splits_char};
use crate::error::{Error, Result};
use crate::json::{member, member_str, with_member, Json};

verus! {

/// Which streaming namespace a session speaks.
#[derive(Debug, Clone, Copy, PartialEq, Eq, Structural)]
pub enum SessionKind {
    /// `/uart`: serial ports.
    Uart,
    /// `/rtt`: SEGGER RTT over a debug probe.
    Rtt,
}

/// One event delivered by a session's socket.
#[derive(Debug)]
pub enum SessionEvent {
    /// The box confirmed the session: UART reports the device path and baud
    /// rate, RTT the debug backend (the other fields are empty).
    Connected { device_path: String, baudrate: u64, backend: String },
    /// Bytes from the device.
    Data(Vec<u8>),
    /// An informational status notification (UART reconnects).
    Status(String),
    /// The box reported a session error.
    Error(String),
    /// The box stopped the session.
    Stopped,
}

/// What one wait on the event channel produced.
#[derive(Debug)]
pub enum Received {
    /// An event arrived.
    Event(SessionEvent),
    /// The wait ran out with nothing received.
    TimedOut,
    /// The channel closed: no further event will come.
    Disconnected,
}

/// The namespace's name for its session, in messages.
pub open spec fn kind_name(kind: SessionKind) -> Seq<char> {
    match kind {
        SessionKind::Uart => "UART"@,
        SessionKind::Rtt => "RTT"@,
    }
}

fn kind_text(kind: SessionKind) -> (s: &'static str)
    ensures
        s@ == kind_name(kind),
{
    match kind {
        SessionKind::Uart => "UART",
        SessionKind::Rtt => "RTT",
    }
}

/// `"<kind> session closed unexpectedly"`.
pub open spec fn closed_text(kind: SessionKind) -> Seq<char> {
    kind_name(kind) + " session closed unexpectedly"@
}

fn closed_error(kind: SessionKind) -> (e: Error)
    ensures
        e matches Error::Stream(m) && m@ == closed_text(kind),
{
    let mut m = String::from_str(kind_text(kind));
    m.append(" session closed unexpectedly");
    Error::Stream(m)
}

// ---------------------------------------------------------------------------
// Decoding socket events
// ---------------------------------------------------------------------------

/// The payload's `data` text would make hex decoding slice inside a
/// multi-byte character.
pub open spec fn data_splits(payload: Option<Json>) -> bool {
    payload matches Some(p) && (member_str(p, "data"@) matches Some(h) && hex_splits_char(h))
}

/// Whether the payload's `data` text would make hex decoding slice inside
/// a multi-byte character.
pub fn payload_data_splits(payload: &Option<Json>) -> (b: bool)
    ensures
        b == data_splits(*payload),
{
    match payload {
        Some(p) => match p.get_str("data") {
            Some(h) => hex_splits(h),
            None => false,
        },
        None => false,
    }
}

/// The string member `key` of an optional payload.
pub open spec fn payload_str(payload: Option<Json>, key: Seq<char>) -> Option<Seq<char>> {
    match payload {
        Some(p) => member_str(p, key),
        None => None,
    }
}

fn payload_get_str<'a>(payload: &'a Option<Json>, key: &str) -> (r: Option<&'a str>)
    ensures
        r matches Some(s) ==> payload_str(*payload, key@) == Some(s@),
        r is None ==> payload_str(*payload, key@) is None,
{
    match payload {
        Some(p) => p.get_str(key),
        None => None,
    }
}

/// The bytes a data event carries: its `data` member decoded from hex.
pub open spec fn payload_bytes(payload: Option<Json>) -> Option<Seq<u8>> {
    match payload_str(payload, "data"@) {
        Some(h) => hex_decoded(h),
        None => None,
    }
}

/// The event names of a namespace: connected, data, stopped.
pub open spec fn event_names(kind: SessionKind) -> (Seq<char>, Seq<char>, Seq<char>) {
    match kind {
        SessionKind::Uart => ("uart_connected"@, "uart_data"@, "uart_stopped"@),
        SessionKind::Rtt => ("rtt_connected"@, "rtt_data"@, "rtt_stopped"@),
    }
}

/// `e` is the event a socket message with this name and payload becomes.
/// Messages that carry nothing usable (data that is not hex, a status
/// without text, an unknown name) become no event.
pub open spec fn decoded_event(kind: SessionKind, name: Seq<char>, payload: Option<Json>, e: Option<SessionEvent>) -> bool {
    let (connected, data, stopped) = event_names(kind);
    if name == connected {
        match kind {
            SessionKind::Uart => e matches Some(SessionEvent::Connected { device_path, baudrate, backend })
                && device_path@ == (match payload_str(payload, "device_path"@) { Some(d) => d, None => Seq::empty() })
                && baudrate == (match payload { Some(p) => match member(p, "baudrate"@) {
                    Some(b) => match crate::json::json_u64(b) { Some(n) => n, None => 0u64 },
                    None => 0u64,
                }, None => 0u64 })
                && backend@ == Seq::<char>::empty(),
            SessionKind::Rtt => e matches Some(SessionEvent::Connected { device_path, baudrate, backend })
                && device_path@ == Seq::<char>::empty() && baudrate == 0
                && backend@ == (match payload_str(payload, "backend"@) { Some(b) => b, None => Seq::empty() }),
        }
    } else if name == data {
        match payload_bytes(payload) {
            Some(b) => e matches Some(SessionEvent::Data(v)) && v@ == b,
            None => e is None,
        }
    } else if name == "uart_status"@ && kind == SessionKind::Uart {
        match payload_str(payload, "status"@) {
            Some(st) => e matches Some(SessionEvent::Status(s)) && s@ == st,
            None => e is None,
        }
    } else if name == "error"@ {
        e matches Some(SessionEvent::Error(m)) && m@ == (match payload_str(payload, "message"@) {
            Some(msg) => msg,
            None => "unknown "@ + kind_name(kind) + " error"@,
        })
    } else if name == stopped {
        e == Some(SessionEvent::Stopped)
    } else {
        e is None
    }
}

/// A data message delivers its bytes on both namespaces: when the
/// `uart_data` (UART) or `rtt_data` (RTT) message carries hex text that
/// decodes to `b`, the event is `Data` holding exactly `b`; in particular
/// the bytes a write payload carries come back unchanged.
pub proof fn law_data_messages_deliver_their_bytes(
    kind: SessionKind,
    p: Json,
    h: Seq<char>,
    b: Seq<u8>,
    e: Option<SessionEvent>,
)
    requires
        member_str(p, "data"@) == Some(h),
        hex_decoded(h) == Some(b),
        decoded_event(
            kind,
            match kind {
                SessionKind::Uart => "uart_data"@,
                SessionKind::Rtt => "rtt_data"@,
            },
            Some(p),
            e,
        ),
    ensures
        e matches Some(SessionEvent::Data(v)) && v@ == b,
{
    reveal_strlit("uart_connected");
    reveal_strlit("uart_data");
    reveal_strlit("rtt_connected");
    reveal_strlit("rtt_data");
    assert("uart_data"@ != "uart_connected"@) by {
        assert("uart_data"@[5] != "uart_connected"@[5]);
    }
    assert("rtt_data"@ != "rtt_connected"@) by {
        assert("rtt_data"@[4] != "rtt_connected"@[4]);
    }
}

/// Writing then receiving is the identity on bytes: a data message whose
/// payload is a write payload of `data` delivers exactly `data`, on both
/// namespaces.
pub proof fn law_write_payload_round_trips(kind: SessionKind, data: Seq<u8>, p: Json, e: Option<SessionEvent>)
    requires
        member_str(p, "data"@) == Some(hex_of(data)),
        decoded_event(
            kind,
            match kind {
                SessionKind::Uart => "uart_data"@,
                SessionKind::Rtt => "rtt_data"@,
            },
            Some(p),
            e,
        ),
    ensures
        e matches Some(SessionEvent::Data(v)) && v@ == data,
{
    crate::codec::law_hex_roundtrip(data);
    law_data_messages_deliver_their_bytes(kind, p, hex_of(data), data, e);
}

fn str_eq(a: &str, b: &str) -> (r: bool)
    ensures
        r == (a@ == b@),
{
    crate::json::string_eq(&String::from_str(a), b)
}

/// Turn one socket message (its event name and first JSON payload) into a
/// session event.
pub fn session_event(kind: SessionKind, name: &str, payload: Option<Json>) -> (e: Option<SessionEvent>)
    requires
        !data_splits(payload),
    ensures
        decoded_event(kind, name@, payload, e),
{
    proof {
        reveal_strlit("uart_connected");
        reveal_strlit("uart_data");
        reveal_strlit("uart_stopped");
        reveal_strlit("rtt_connected");
        reveal_strlit("rtt_data");
        reveal_strlit("rtt_stopped");
        reveal_strlit("uart_status");
        reveal_strlit("error");
    }
    let (connected, data, stopped) = match kind {
        SessionKind::Uart => ("uart_connected", "uart_data", "uart_stopped"),
        SessionKind::Rtt => ("rtt_connected", "rtt_data", "rtt_stopped"),
    };
    if str_eq(name, connected) {
        match kind {
            SessionKind::Uart => {
                let device_path = match payload_get_str(&payload, "device_path") {
                    Some(d) => String::from_str(d),
                    None => String::new(),
                };
                let baudrate = match &payload {
                    Some(p) => match p.get("baudrate") {
                        Some(b) => match b.as_u64() {
                            Some(n) => n,
                            None => 0,
                        },
                        None => 0,
                    },
                    None => 0,
                };
                Some(SessionEvent::Connected { device_path, baudrate, backend: String::new() })
            },
            SessionKind::Rtt => {
                let backend = match payload_get_str(&payload, "backend") {
                    Some(b) => String::from_str(b),
                    None => String::new(),
                };
                Some(SessionEvent::Connected { device_path: String::new(), baudrate: 0, backend })
            },
        }
    } else if str_eq(name, data) {
        match payload_get_str(&payload, "data") {
            Some(h) => match hex_decode(h) {
                Some(b) => Some(SessionEvent::Data(b)),
                None => None,
            },
            None => None,
        }
    } else if kind == SessionKind::Uart && str_eq(name, "uart_status") {
        match payload_get_str(&payload, "status") {
            Some(st) => Some(SessionEvent::Status(String::from_str(st))),
            None => None,
        }
    } else if str_eq(name, "error") {
        let m = match payload_get_str(&payload, "message") {
            Some(msg) => String::from_str(msg),
            None => {
                let mut m = String::from_str("unknown ");
                m.append(kind_text(kind));
                m.append(" error");
                m
            },
        };
        Some(SessionEvent::Error(m))
    } else if str_eq(name, stopped) {
        Some(SessionEvent::Stopped)
    } else {
        None
    }
}

/// The payload of a write event: `{"data": <lowercase hex of the bytes>}`.
pub fn write_payload(data: &[u8]) -> (j: Json)
    ensures
        member_str(j, "data"@) == Some(hex_of(data@)),
        crate::wire::keyed(j, set!["data"@]),
{
    let j = with_member(Json::empty_object(), "data", Json::Str(hex_encode(data)));
    assert(set!["data"@] =~= Set::<Seq<char>>::empty().insert("data"@));
    j
}

// ---------------------------------------------------------------------------
// The receive buffer
// ---------------------------------------------------------------------------

/// What a session has received and not yet handed out.
pub struct SessionBuffer {
    kind: SessionKind,
    buf: Vec<u8>,
    last_status: Option<String>,
}

/// Abstract state of a [`SessionBuffer`].
pub struct SessionBufferView {
    /// The namespace.
    pub kind: SessionKind,
    /// Bytes received and not yet read, oldest first.
    pub pending: Seq<u8>,
    /// The most recent status notification, if any.
    pub last_status: Option<Seq<char>>,
}

impl View for SessionBuffer {
    type V = SessionBufferView;

    closed spec fn view(&self) -> SessionBufferView {
        SessionBufferView {
            kind: self.kind,
            pending: self.buf@,
            last_status: crate::auth::opt_view(self.last_status),
        }
    }
}

/// What the opening handshake does after one wait.
#[derive(Debug)]
pub enum OpenStep {
    /// Keep waiting (until the connect deadline).
    Wait,
    /// The box confirmed the session with these details.
    Ready { device_path: String, baudrate: u64, backend: String },
    /// The session could not be opened.
    Failed(Error),
}

/// What a drain of the event channel does after one wait.
#[derive(Debug, PartialEq, Eq)]
pub enum PumpStep {
    /// Data arrived: keep draining what is already queued, without waiting.
    Drain,
    /// Keep waiting as before.
    Wait,
    /// The wait ran out: the drain is over.
    Done,
}

/// `"box did not confirm <kind> session for '<netname>' within <n>s"`
/// with the namespace's connect budget (15 s for UART, 30 s for RTT).
pub open spec fn open_timeout_text(kind: SessionKind, netname: Seq<char>) -> Seq<char> {
    "box did not confirm "@ + kind_name(kind) + " session for '"@ + netname + "' within "@
        + (match kind {
        SessionKind::Uart => "15s"@,
        SessionKind::Rtt => "30s"@,
    })
}

/// How long the box gets to confirm a new session, in milliseconds.
pub fn connect_budget_ms(kind: SessionKind) -> (ms: u64)
    ensures
        ms == (match kind {
            SessionKind::Uart => 15000u64,
            SessionKind::Rtt => 30000u64,
        }),
{
    match kind {
        SessionKind::Uart => 15000,
        SessionKind::Rtt => 30000,
    }
}

/// The error of a session the box did not confirm within the budget.
pub fn open_timeout_error(kind: SessionKind, netname: &str) -> (e: Error)
    ensures
        e matches Error::Timeout(m) && m@ == open_timeout_text(kind, netname@),
{
    let mut m = String::from_str("box did not confirm ");
    m.append(kind_text(kind));
    m.append(" session for '");
    m.append(netname);
    m.append("' within ");
    match kind {
        SessionKind::Uart => m.append("15s"),
        SessionKind::Rtt => m.append("30s"),
    }
    Error::Timeout(m)
}

/// `"'<needle>' did not appear on <kind> '<netname>' within <timeout>"`.
pub open spec fn wait_timeout_text(
    kind: SessionKind,
    needle_text: Seq<char>,
    netname: Seq<char>,
    timeout_text: Seq<char>,
) -> Seq<char> {
    "'"@ + needle_text + "' did not appear on "@ + kind_name(kind) + " '"@ + netname
        + "' within "@ + timeout_text
}

/// The error of a `wait_for` whose needle did not appear in time;
/// `needle_text` and `timeout_text` are the needle and the timeout as the
/// caller prints them.
pub fn wait_timeout_error(kind: SessionKind, needle_text: &str, netname: &str, timeout_text: &str) -> (e: Error)
    ensures
        e matches Error::Timeout(m) && m@ == wait_timeout_text(kind, needle_text@, netname@, timeout_text@),
{
    let mut m = String::from_str("'");
    m.append(needle_text);
    m.append("' did not appear on ");
    m.append(kind_text(kind));
    m.append(" '");
    m.append(netname);
    m.append("' within ");
    m.append(timeout_text);
    Error::Timeout(m)
}

/// `pat` occurs in `s` at `i`.
pub open spec fn occurs_at(s: Seq<u8>, pat: Seq<u8>, i: int) -> bool {
    0 <= i && i + pat.len() <= s.len() && s.subrange(i, i + pat.len()) == pat
}

fn window_matches(buf: &Vec<u8>, needle: &[u8], i: usize) -> (b: bool)
    requires
        i + needle@.len() <= buf@.len(),
    ensures
        b == occurs_at(buf@, needle@, i as int),
{
    let mut k: usize = 0;
    while k < needle.len()
        invariant
            k <= needle@.len(),
            i + needle@.len() <= buf@.len(),
            buf@.len() == buf.len(),
            forall|m: int| 0 <= m < k ==> buf@[i + m] == needle@[m],
        decreases needle@.len() - k,
    {
        if buf[i + k] != needle[k] {
            assert(buf@.subrange(i as int, i + needle@.len())[k as int] != needle@[k as int]);
            return false;
        }
        k = k + 1;
    }
    assert(buf@.subrange(i as int, i + needle@.len()) =~= needle@);
    true
}

impl SessionBuffer {
    /// An empty buffer for a new session.
    pub fn new(kind: SessionKind) -> (b: SessionBuffer)
        ensures
            b@.kind == kind,
            b@.pending.len() == 0,
            b@.last_status is None,
    {
        SessionBuffer { kind, buf: Vec::new(), last_status: None }
    }

    /// The most recent status notification from the box (e.g.
    /// `"reconnecting"` / `"reconnected"` while the adapter re-enumerates).
    pub fn last_status(&self) -> (s: Option<&str>)
        ensures
            match s {
                Some(x) => self@.last_status == Some(x@),
                None => self@.last_status is None,
            },
    {
        match &self.last_status {
            Some(x) => Some(x.as_str()),
            None => None,
        }
    }

    /// Number of bytes received and not yet read.
    pub fn pending_len(&self) -> (n: usize)
        ensures
            n == self@.pending.len(),
    {
        self.buf.len()
    }

    fn append(&mut self, bytes: Vec<u8>)
        ensures
            final(self)@ == (SessionBufferView { pending: old(self)@.pending + bytes@, ..old(self)@ }),
    {
        let mut b = bytes;
        self.buf.append(&mut b);
    }

    /// Handle one wait while the session is opening. Data that beats the
    /// confirmation is kept; an error or a closed channel fails the open;
    /// anything else keeps waiting.
    pub fn on_open(&mut self, received: Received) -> (step: OpenStep)
        ensures
            match received {
                Received::Event(SessionEvent::Connected { device_path, baudrate, backend }) =>
                    final(self)@ == old(self)@ && step == (OpenStep::Ready { device_path, baudrate, backend }),
                Received::Event(SessionEvent::Data(bytes)) =>
                    final(self)@ == (SessionBufferView { pending: old(self)@.pending + bytes@, ..old(self)@ })
                    && step == OpenStep::Wait,
                Received::Event(SessionEvent::Error(m)) =>
                    final(self)@ == old(self)@ && step == OpenStep::Failed(Error::Stream(m)),
                Received::Disconnected => final(self)@ == old(self)@
                    && (step matches OpenStep::Failed(Error::Stream(m)) && m@ == closed_text(old(self)@.kind)),
                _ => final(self)@ == old(self)@ && step == OpenStep::Wait,
            },
    {
        match received {
            Received::Event(SessionEvent::Connected { device_path, baudrate, backend }) =>
                OpenStep::Ready { device_path, baudrate, backend },
            Received::Event(SessionEvent::Data(bytes)) => {
                self.append(bytes);
                OpenStep::Wait
            },
            Received::Event(SessionEvent::Error(m)) => OpenStep::Failed(Error::Stream(m)),
            Received::Disconnected => OpenStep::Failed(closed_error(self.kind)),
            _ => OpenStep::Wait,
        }
    }

    /// Handle one wait while draining a running session. Data is buffered
    /// (and the drain goes on without waiting), a UART status is
    /// remembered, a session error or a closed channel is an error, and a
    /// wait that runs out ends the drain.
    pub fn on_pump(&mut self, received: Received) -> (r: Result<PumpStep>)
        ensures
            match received {
                Received::Event(SessionEvent::Data(bytes)) =>
                    final(self)@ == (SessionBufferView { pending: old(self)@.pending + bytes@, ..old(self)@ })
                    && r == Ok::<PumpStep, Error>(PumpStep::Drain),
                Received::Event(SessionEvent::Error(m)) =>
                    final(self)@ == old(self)@ && r == Err::<PumpStep, Error>(Error::Stream(m)),
                Received::Event(SessionEvent::Status(st)) =>
                    final(self)@ == (SessionBufferView { last_status: Some(st@), ..old(self)@ })
                    && r == Ok::<PumpStep, Error>(PumpStep::Wait),
                Received::TimedOut => final(self)@ == old(self)@ && r == Ok::<PumpStep, Error>(PumpStep::Done),
                Received::Disconnected => final(self)@ == old(self)@
                    && (r matches Err(Error::Stream(m)) && m@ == closed_text(old(self)@.kind)),
                _ => final(self)@ == old(self)@ && r == Ok::<PumpStep, Error>(PumpStep::Wait),
            },
    {
        match received {
            Received::Event(SessionEvent::Data(bytes)) => {
                self.append(bytes);
                Ok(PumpStep::Drain)
            },
            Received::Event(SessionEvent::Error(m)) => Err(Error::Stream(m)),
            Received::Event(SessionEvent::Status(st)) => {
                self.last_status = Some(st);
                Ok(PumpStep::Wait)
            },
            Received::TimedOut => Ok(PumpStep::Done),
            Received::Disconnected => Err(closed_error(self.kind)),
            _ => Ok(PumpStep::Wait),
        }
    }

    /// Hand out everything received so far, leaving the buffer empty.
    pub fn take_all(&mut self) -> (out: Vec<u8>)
        ensures
            out@ == old(self)@.pending,
            final(self)@ == (SessionBufferView { pending: Seq::empty(), ..old(self)@ }),
    {
        let mut out: Vec<u8> = Vec::new();
        core::mem::swap(&mut out, &mut self.buf);
        out
    }

    /// Hand out everything up to and including the first occurrence of
    /// `needle`, keeping the bytes after it buffered; `None` (and nothing
    /// taken) when the needle has not arrived. An empty needle takes
    /// nothing.
    pub fn take_through(&mut self, needle: &[u8]) -> (r: Option<Vec<u8>>)
        ensures
            needle@.len() == 0 ==> (final(self)@ == old(self)@ && (r matches Some(out) && out@.len() == 0)),
            needle@.len() > 0 ==> match r {
                Some(out) => exists|pos: int| {
                    &&& occurs_at(old(self)@.pending, needle@, pos)
                    &&& forall|j: int| 0 <= j < pos ==> !occurs_at(old(self)@.pending, needle@, j)
                    &&& out@ == old(self)@.pending.take(pos + needle@.len())
                    &&& final(self)@ == (SessionBufferView {
                        pending: old(self)@.pending.skip(pos + needle@.len()),
                        ..old(self)@
                    })
                },
                None => final(self)@ == old(self)@ && forall|j: int| !occurs_at(old(self)@.pending, needle@, j),
            },
            r matches Some(out) ==> out@ + final(self)@.pending == old(self)@.pending,
            r matches Some(out) ==> out@.len() >= needle@.len() && out@.skip(
                out@.len() - needle@.len(),
            ) == needle@,
            final(self)@.kind == old(self)@.kind,
            final(self)@.last_status == old(self)@.last_status,
    {
        if needle.len() == 0 {
            let out: Vec<u8> = Vec::new();
            assert(out@ + self.buf@ =~= self.buf@);
            assert(out@.skip(0) =~= needle@);
            return Some(out);
        }
        let n = needle.len();
        if self.buf.len() < n {
            assert forall|j: int| !occurs_at(self.buf@, needle@, j) by {}
            return None;
        }
        let last = self.buf.len() - n;
        let mut i: usize = 0;
        while i <= last
            invariant
                last + n == self.buf@.len(),
                self.buf@.len() == self.buf.len(),
                n == needle@.len(),
                n > 0,
                self@ == old(self)@,
                forall|j: int| 0 <= j < i ==> !occurs_at(self.buf@, needle@, j),
            decreases last + 1 - i,
        {
            if window_matches(&self.buf, needle, i) {
                let ghost before = self.buf@;
                let rest = self.buf.split_off(i + n);
                let mut taken = rest;
                core::mem::swap(&mut taken, &mut self.buf);
                assert(taken@ =~= before.take(i + n));
                assert(self.buf@ =~= before.skip(i + n));
                assert(taken@ + self.buf@ =~= before);
                assert(taken@.skip(taken@.len() - n) =~= before.subrange(i as int, i + n));
                assert({
                    let pos = i as int;
                    &&& occurs_at(old(self)@.pending, needle@, pos)
                    &&& forall|j: int| 0 <= j < pos ==> !occurs_at(old(self)@.pending, needle@, j)
                    &&& taken@ == old(self)@.pending.take(pos + needle@.len())
                    &&& self@ == (SessionBufferView {
                        pending: old(self)@.pending.skip(pos + needle@.len()),
                        ..old(self)@
                    })
                });
                return Some(taken);
            }
            i = i + 1;
        }
        assert forall|j: int| !occurs_at(self.buf@, needle@, j) by {
            if 0 <= j && j + n <= self.buf@.len() {
                assert(j < i);
            }
        }
        None
    }

    /// One round of a `wait_for`: hand out everything through the first
    /// occurrence of `needle` when it has arrived; otherwise fail with the
    /// wait's timeout error once the deadline has passed, or ask for another
    /// pump (`Ok(None)`) while time is left. An empty needle is found at
    /// once, taking nothing.
    pub fn wait_step(
        &mut self,
        needle: &[u8],
        deadline_passed: bool,
        needle_text: &str,
        netname: &str,
        timeout_text: &str,
    ) -> (r: Result<Option<Vec<u8>>>)
        ensures
            final(self)@.kind == old(self)@.kind,
            final(self)@.last_status == old(self)@.last_status,
            needle@.len() == 0 ==> (final(self)@ == old(self)@ && (r matches Ok(Some(out)) && out@.len() == 0)),
            needle@.len() > 0 ==> match r {
                Ok(Some(out)) => exists|pos: int| {
                    &&& occurs_at(old(self)@.pending, needle@, pos)
                    &&& forall|j: int| 0 <= j < pos ==> !occurs_at(old(self)@.pending, needle@, j)
                    &&& out@ == old(self)@.pending.take(pos + needle@.len())
                    &&& final(self)@.pending == old(self)@.pending.skip(pos + needle@.len())
                },
                Ok(None) => !deadline_passed && final(self)@ == old(self)@ && forall|j: int|
                    !occurs_at(old(self)@.pending, needle@, j),
                Err(e) => deadline_passed && final(self)@ == old(self)@ && (forall|j: int|
                    !occurs_at(old(self)@.pending, needle@, j)) && (e matches Error::Timeout(m) && m@
                    == wait_timeout_text(old(self)@.kind, needle_text@, netname@, timeout_text@)),
            },
    {
        match self.take_through(needle) {
            Some(out) => Ok(Some(out)),
            None => if deadline_passed {
                Err(wait_timeout_error(self.kind, needle_text, netname, timeout_text))
            } else {
                Ok(None)
            },
        }
    }
}

} // verus!
