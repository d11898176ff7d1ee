//! Debug tunnels: raw TCP to a box's debug ports through its gateway.
//!
//! A gated box does not publish its raw-TCP debug ports; its gateway
//! accepts an HTTP `CONNECT` on the debug-service port instead and, once
//! the request is authorized, splices the connection. This module is the
//! transport-independent half: building the request, parsing the response
//! head, and classifying a refusal. The transports drive the socket.

use vstd::prelude::*;
use vstd::string::{StringExecFns, StrSliceExecFns, StringSliceAdditionalSpecFns};
use vstd::utf8::{decode_utf8, encode_utf8, valid_utf8};
use crate::auth::{
    before_char, before_char_chars, denial_error, split_once_char, split_once_chars, GatewayAuth,
    GatewayAuthView,
};
use crate::error::Error;
use crate::text::{
    chars_of, decimal, decimal_chars, eq_ignore_case, eq_ignore_case_chars, find, find_chars,
    parse_unsigned, parse_unsigned_chars, rfind_char, rfind_char_in, slice_chars, starts_with,
    starts_with_chars, string_of, strip_end, strip_end_chars, strip_start, strip_start_chars,
    trim, trim_chars,
};

verus! {

/// Upper bound on the response head we will buffer before giving up.
pub const MAX_HEAD_BYTES: usize = 64 * 1024;

/// Upper bound on a refusal body we read to quote in the error.
pub const MAX_BODY_BYTES: usize = 4096;

/// The text of the `CONNECT` request for `port` on `box_host`.
pub open spec fn connect_text(port: u16, box_host: Seq<char>, token: Option<Seq<char>>) -> Seq<char> {
    let head = "CONNECT "@ + decimal(port as nat) + " HTTP/1.1\r\nHost: "@ + box_host + ":"@
        + decimal(port as nat) + "\r\n"@;
    let auth = match token {
        Some(t) => "Authorization: Bearer "@ + t + "\r\n"@,
        None => Seq::empty(),
    };
    head + auth + "\r\n"@
}

/// The `CONNECT` request that asks the gateway for a tunnel to `port`,
/// carrying the bearer token when there is one.
pub fn connect_request(port: u16, box_host: &str, token: Option<&str>) -> (req: Vec<u8>)
    ensures
        req@ == encode_utf8(connect_text(port, box_host@, match token {
            Some(t) => Some(t@),
            None => None,
        })),
{
    let p = string_of(decimal_chars(port as u64).as_slice());
    let mut r = String::from_str("CONNECT ");
    r.append(p.as_str());
    r.append(" HTTP/1.1\r\nHost: ");
    r.append(box_host);
    r.append(":");
    r.append(p.as_str());
    r.append("\r\n");
    if let Some(t) = token {
        r.append("Authorization: Bearer ");
        r.append(t);
        r.append("\r\n");
    }
    r.append("\r\n");
    let out = r.as_str().as_bytes_vec();
    assert(r@ =~= connect_text(port, box_host@, match token {
        Some(t) => Some(t@),
        None => None,
    }));
    out
}

/// `std::str::from_utf8`, which succeeds exactly on valid UTF-8 and then
/// yields the decoded text.
#[verifier::external_body]
fn utf8_text(raw: &[u8]) -> (r: Option<&str>)
    ensures
        r is Some <==> valid_utf8(raw@),
        r matches Some(s) ==> s@ == decode_utf8(raw@),
{
    std::str::from_utf8(raw).ok()
}

/// What `String::from_utf8_lossy` yields for `raw`: the decoded text, with
/// U+FFFD in place of each invalid sequence.
pub uninterp spec fn lossy_text(raw: Seq<u8>) -> Seq<char>;

/// `String::from_utf8_lossy`, owned; valid UTF-8 comes back decoded as it is.
#[verifier::external_body]
fn lossy_utf8(raw: &[u8]) -> (s: String)
    ensures
        s@ == lossy_text(raw@),
        valid_utf8(raw@) ==> s@ == decode_utf8(raw@),
{
    String::from_utf8_lossy(raw).into_owned()
}

/// The part of a refusal body that is quoted: at most [`MAX_BODY_BYTES`].
pub open spec fn quoted_part(raw: Seq<u8>) -> Seq<u8> {
    if raw.len() <= MAX_BODY_BYTES {
        raw
    } else {
        raw.take(MAX_BODY_BYTES as int)
    }
}

/// The text a refusal body adds to the error, given the decoded body:
/// the text without surrounding whitespace.
pub fn body_text(decoded: &str) -> (s: String)
    ensures
        s@ == trim(decoded@),
{
    let t = trim_chars(chars_of(decoded).as_slice());
    string_of(t.as_slice())
}

/// The text a refusal body adds to the error: its first
/// [`MAX_BODY_BYTES`] bytes, decoded (invalid sequences replaced) and
/// trimmed.
pub fn refusal_body(raw: &[u8]) -> (s: String)
    ensures
        s@ == trim(lossy_text(quoted_part(raw@))),
{
    let n = if raw.len() <= MAX_BODY_BYTES { raw.len() } else { MAX_BODY_BYTES };
    let mut part: Vec<u8> = Vec::new();
    let mut i: usize = 0;
    while i < n
        invariant
            n <= raw@.len(),
            n == quoted_part(raw@).len(),
            i <= n,
            part@ == raw@.take(i as int),
        decreases n - i,
    {
        part.push(raw[i]);
        i = i + 1;
        assert(part@ =~= raw@.take(i as int));
    }
    assert(part@ =~= quoted_part(raw@));
    let decoded = lossy_utf8(part.as_slice());
    body_text(decoded.as_str())
}

/// `t.split("\r\n")` (pieces between line breaks; always at least one).
pub open spec fn split_lines(t: Seq<char>) -> Seq<Seq<char>>
    decreases t.len(),
{
    match find(t, "\r\n"@) {
        Some(i) => if "\r\n"@.len() > 0 && i + "\r\n"@.len() <= t.len() {
            seq![t.take(i as int)] + split_lines(t.skip((i + "\r\n"@.len()) as int))
        } else {
            seq![t]
        },
        None => seq![t],
    }
}

/// The fields of a parsed response head.
pub struct Head {
    /// HTTP status code.
    pub status: u16,
    /// Value of the gateway discovery header, when present.
    pub discovery: Option<String>,
    /// Value of `Content-Length` (0 when absent or unparsable).
    pub content_length: usize,
}

/// Discovery header and content length gathered from header lines; a
/// later line overrides an earlier one.
pub open spec fn head_fields(lines: Seq<Seq<char>>) -> (Option<Seq<char>>, nat)
    decreases lines.len(),
{
    if lines.len() == 0 {
        (None, 0)
    } else {
        let (d, c) = head_fields(lines.drop_last());
        match split_once_char(lines.last(), ':') {
            Some((name, value)) => if eq_ignore_case(trim(name), "x-gateway-auth-url"@) {
                (Some(trim(value)), c)
            } else if eq_ignore_case(trim(name), "content-length"@) {
                (d, match parse_unsigned(trim(value), usize::MAX as nat) {
                    Some(n) => n,
                    None => 0,
                })
            } else {
                (d, c)
            },
            None => (d, c),
        }
    }
}

/// The status a status line carries: its first word must start with
/// `HTTP/`, its second must be a `u16`.
pub open spec fn status_of(line: Seq<char>) -> Option<u16> {
    if !starts_with(before_char(line, ' '), "HTTP/"@) {
        None
    } else {
        match split_once_char(line, ' ') {
            Some((_, rest)) => match parse_unsigned(before_char(rest, ' '), u16::MAX as nat) {
                Some(n) => Some(n as u16),
                None => None,
            },
            None => None,
        }
    }
}

/// What a response head parses to: `None` unless it is UTF-8 and starts
/// with an HTTP status line.
pub open spec fn head_of(raw: Seq<u8>) -> Option<(u16, Option<Seq<char>>, nat)> {
    if !valid_utf8(raw) {
        None
    } else {
        let lines = split_lines(decode_utf8(raw));
        match status_of(lines[0]) {
            Some(status) => {
                let (d, c) = head_fields(lines.skip(1));
                Some((status, d, c))
            },
            None => None,
        }
    }
}

} // verus!

verus! {

/// `t.split("\r\n")` over characters.
pub fn split_lines_chars(t: &[char]) -> (r: Vec<Vec<char>>)
    ensures
        r@.len() == split_lines(t@).len(),
        forall|i: int| 0 <= i < r@.len() ==> (#[trigger] r@[i])@ == split_lines(t@)[i],
{
    let sep = chars_of("\r\n");
    proof { reveal_strlit("\r\n"); }
    assert(sep@.len() == 2);
    let mut out: Vec<Vec<char>> = Vec::new();
    let mut rest = slice_chars(t, 0, t.len());
    assert(rest@ =~= t@);
    loop
        invariant
            sep@ == "\r\n"@,
            sep@.len() == 2,
            out@.len() + split_lines(rest@).len() == split_lines(t@).len(),
            forall|i: int| 0 <= i < out@.len() ==> (#[trigger] out@[i])@ == split_lines(t@)[i],
            forall|i: int| 0 <= i < split_lines(rest@).len() ==> split_lines(rest@)[i]
                == split_lines(t@)[out@.len() + i],
        decreases rest@.len(),
    {
        match find_chars(rest.as_slice(), sep.as_slice()) {
            Some(i) => {
                proof { crate::text::lemma_find_from_found(rest@, sep@, 0); }
                let n = rest.len();
                let piece = slice_chars(rest.as_slice(), 0, i);
                let next = slice_chars(rest.as_slice(), i + 2, n);
                assert(piece@ =~= rest@.take(i as int));
                assert(next@ =~= rest@.skip(i + 2));
                assert(split_lines(rest@) == seq![rest@.take(i as int)] + split_lines(next@));
                assert(split_lines(rest@)[0] == piece@);
                assert forall|k: int| 0 <= k < split_lines(next@).len() implies split_lines(
                    next@,
                )[k] == split_lines(t@)[out@.len() + 1 + k] by {
                    assert(split_lines(rest@)[k + 1] == split_lines(next@)[k]);
                }
                out.push(piece);
                rest = next;
            },
            None => {
                assert(split_lines(rest@) == seq![rest@]);
                assert(split_lines(rest@)[0] == rest@);
                out.push(rest);
                return out;
            },
        }
    }
}

fn status_from_line(line: &[char]) -> (r: Option<u16>)
    ensures
        r == status_of(line@),
{
    let word = before_char_chars(line, ' ');
    let http = chars_of("HTTP/");
    if !starts_with_chars(word.as_slice(), http.as_slice()) {
        return None;
    }
    match split_once_chars(line, ' ') {
        Some((_, rest)) => {
            let second = before_char_chars(rest.as_slice(), ' ');
            match parse_unsigned_chars(second.as_slice(), 65535) {
                Some(n) => Some(n as u16),
                None => None,
            }
        },
        None => None,
    }
}

/// Parse a response head (everything before the blank line). `None` when
/// it is not UTF-8 or does not start with an HTTP status line.
pub fn parse_head(raw: &[u8]) -> (r: Option<Head>)
    ensures
        r matches Some(h) ==> head_of(raw@) == Some((h.status, match h.discovery {
            Some(d) => Some(d@),
            None => None,
        }, h.content_length as nat)),
        r is None ==> head_of(raw@) is None,
{
    let text = match utf8_text(raw) {
        Some(t) => t,
        None => return None,
    };
    let lines = split_lines_chars(chars_of(text).as_slice());
    let ghost sl = split_lines(decode_utf8(raw@));
    assert(lines@[0]@ == sl[0]);
    let status = match status_from_line(lines[0].as_slice()) {
        Some(s) => s,
        None => return None,
    };
    let gateway = chars_of("x-gateway-auth-url");
    let clen = chars_of("content-length");
    let mut discovery: Option<Vec<char>> = None;
    let mut content_length: usize = 0;
    let mut i: usize = 1;
    assert(sl.skip(1).take(0) =~= Seq::<Seq<char>>::empty());
    while i < lines.len()
        invariant
            1 <= i <= lines@.len(),
            lines@.len() == sl.len(),
            forall|k: int| 0 <= k < lines@.len() ==> (#[trigger] lines@[k])@ == sl[k],
            gateway@ == "x-gateway-auth-url"@,
            clen@ == "content-length"@,
            head_fields(sl.skip(1).take(i - 1)) == (match discovery {
                Some(d) => Some(d@),
                None => None,
            }, content_length as nat),
        decreases lines@.len() - i,
    {
        assert(sl.skip(1).take(i as int).drop_last() =~= sl.skip(1).take(i - 1));
        assert(sl.skip(1).take(i as int).last() == lines@[i as int]@);
        match split_once_chars(lines[i].as_slice(), ':') {
            Some((name, value)) => {
                let n = trim_chars(name.as_slice());
                let v = trim_chars(value.as_slice());
                if eq_ignore_case_chars(n.as_slice(), gateway.as_slice()) {
                    discovery = Some(v);
                } else if eq_ignore_case_chars(n.as_slice(), clen.as_slice()) {
                    content_length = match parse_unsigned_chars(v.as_slice(), usize::MAX as u64) {
                        Some(x) => x as usize,
                        None => 0,
                    };
                }
            },
            None => {},
        }
        i = i + 1;
    }
    assert(sl.skip(1).take(i - 1) =~= sl.skip(1));
    let discovery = match discovery {
        Some(d) => Some(string_of(d.as_slice())),
        None => None,
    };
    Some(Head { status, discovery, content_length })
}

} // verus!

verus! {

/// Why a tunnel request was refused.
#[derive(Debug)]
pub enum Refusal {
    /// A gateway denial (401/403/503 carrying the discovery header).
    Denied { status: u16, auth_url: String },
    /// 403 without the header: the port is outside the debug ranges.
    NotDebugPort { body: String },
    /// 502: nothing is listening on the port yet.
    NothingListening { body: String },
    /// Anything else: the gateway does not support tunnels.
    Unsupported { status: Option<u16> },
}

/// Classify a refused tunnel response from its head and (short) body.
pub fn classify(head: &Head, body: String) -> (r: Refusal)
    ensures
        ((head.status == 401 || head.status == 403 || head.status == 503) && head.discovery is Some)
            ==> (r matches Refusal::Denied { status, auth_url } && status == head.status
            && auth_url@ == head.discovery->0@),
        !((head.status == 401 || head.status == 403 || head.status == 503) && head.discovery is Some)
            ==> (if head.status == 403 {
            r matches Refusal::NotDebugPort { body: b } && b == body
        } else if head.status == 502 {
            r matches Refusal::NothingListening { body: b } && b == body
        } else {
            r matches Refusal::Unsupported { status } && status == Some(head.status)
        }),
{
    if crate::auth::is_denial(head.status) {
        if let Some(auth_url) = &head.discovery {
            return Refusal::Denied { status: head.status, auth_url: auth_url.clone() };
        }
    }
    if head.status == 403 {
        Refusal::NotDebugPort { body }
    } else if head.status == 502 {
        Refusal::NothingListening { body }
    } else {
        Refusal::Unsupported { status: Some(head.status) }
    }
}

/// ` (<body>)`, or nothing for an empty body.
pub open spec fn detail_of(body: Seq<char>) -> Seq<char> {
    if body.len() == 0 { Seq::empty() } else { " ("@ + body + ")"@ }
}

fn detail(body: &String) -> (s: String)
    ensures
        s@ == detail_of(body@),
{
    if body.as_str().unicode_len() == 0 {
        String::new()
    } else {
        let mut s = String::from_str(" (");
        s.append(body.as_str());
        s.append(")");
        s
    }
}

/// The error a refused tunnel turns into.
pub open spec fn refusal_message(refusal: Refusal, box_host: Seq<char>, port: u16) -> Seq<char> {
    let p = decimal(port as nat);
    match refusal {
        Refusal::NotDebugPort { body } => "the gateway of box "@ + box_host
            + " does not tunnel port "@ + p + detail_of(body@)
            + ": gateways tunnel only the debug ports (GDB 2331-2342, OpenOCD 4444-4447 and 6666-6669, RTT 9090-9097)"@,
        Refusal::NothingListening { body } => "nothing is listening on port "@ + p + " on box "@
            + box_host + detail_of(body@) + ": start the debug server first (DebugNet::connect)"@,
        _ => "port "@ + p + " on box "@ + box_host
            + " is reachable only through its gateway, and that gateway does not support debug tunnels yet; ask the box's administrator to update it"@,
    }
}

/// Turn a refusal into an [`Error`]: denials go through the gateway-auth
/// classification, the others become box errors with an actionable
/// message.
pub fn refusal_error(refusal: &Refusal, box_host: &str, port: u16) -> (e: Error)
    ensures
        refusal matches Refusal::Denied { status, auth_url } ==> crate::auth::is_denial_error(
            e, *status, box_host@, auth_url@, true),
        refusal matches Refusal::NotDebugPort { .. } ==> (e matches Error::Box { status, message }
            && status == 403 && message@ == refusal_message(*refusal, box_host@, port)),
        refusal matches Refusal::NothingListening { .. } ==> (e matches Error::Box { status, message }
            && status == 502 && message@ == refusal_message(*refusal, box_host@, port)),
        refusal matches Refusal::Unsupported { status: st } ==> (e matches Error::Box { status, message }
            && status == (match st { Some(s) => *s, None => 0 })
            && message@ == refusal_message(*refusal, box_host@, port)),
{
    let p = string_of(decimal_chars(port as u64).as_slice());
    match refusal {
        Refusal::NotDebugPort { body } => {
            let mut m = String::from_str("the gateway of box ");
            m.append(box_host);
            m.append(" does not tunnel port ");
            m.append(p.as_str());
            m.append(detail(body).as_str());
            m.append(
                ": gateways tunnel only the debug ports (GDB 2331-2342, OpenOCD 4444-4447 and 6666-6669, RTT 9090-9097)",
            );
            Error::Box { status: 403, message: m }
        },
        Refusal::NothingListening { body } => {
            let mut m = String::from_str("nothing is listening on port ");
            m.append(p.as_str());
            m.append(" on box ");
            m.append(box_host);
            m.append(detail(body).as_str());
            m.append(": start the debug server first (DebugNet::connect)");
            Error::Box { status: 502, message: m }
        },
        Refusal::Unsupported { status } => {
            let mut m = String::from_str("port ");
            m.append(p.as_str());
            m.append(" on box ");
            m.append(box_host);
            m.append(
                " is reachable only through its gateway, and that gateway does not support debug tunnels yet; ask the box's administrator to update it",
            );
            let s = match status {
                Some(s) => *s,
                None => 0,
            };
            Error::Box { status: s, message: m }
        },
        Refusal::Denied { status, auth_url } => denial_error(*status, box_host, auth_url.as_str(), true),
    }
}

} // verus!

verus! {

/// How long a tunnel request waits out "nothing is listening" (502) while
/// a debug server that was just started opens its port, in milliseconds.
pub const START_BUDGET_MS: u64 = 5000;

/// The pause between attempts while waiting, in milliseconds.
pub const RETRY_PAUSE_MS: u64 = 250;

/// What follows a refused tunnel request.
#[derive(Debug)]
pub enum TunnelNext {
    /// Nothing listens on the port yet: try again after this pause.
    Retry { after_ms: u64 },
    /// A 401 gateway denial with no pinned token: resolve a fresh token for
    /// this auth server (avoiding the one just sent) and try once more.
    Resolve { auth_url: String },
    /// The debug-service port does not tunnel, and neither a token nor a
    /// known gateway is involved: a plain box, whose debug ports are
    /// published; connect to the port directly.
    Direct,
    /// Give up with this error.
    Fail(Error),
}

/// Decide what follows a refused tunnel request. A gateway denial teaches
/// the client the box's auth server (the returned flag says whether that
/// changed, and so should be written back to the token store); a 401
/// without a pinned token, not yet retried, asks for a fresh token; every
/// other denial is final. "Nothing listening" is retried every
/// [`RETRY_PAUSE_MS`] while the next attempt still starts within
/// [`START_BUDGET_MS`] of the first (`waited_ms` is the time since then). A
/// service that does not tunnel means a plain box when no token was sent
/// and no auth server is known. `sent_token` is whether the request
/// carried a token, `token_retried` whether it was already the retry with
/// a fresh one.
pub fn after_refusal(
    auth: &mut GatewayAuth,
    refusal: Refusal,
    port: u16,
    sent_token: bool,
    token_retried: bool,
    waited_ms: u64,
) -> (r: (TunnelNext, bool))
    ensures
        match refusal {
            Refusal::Denied { status, auth_url } => {
                &&& final(auth)@ == (GatewayAuthView { auth_url: Some(auth_url@), ..old(auth)@ })
                &&& r.1 == (old(auth)@.auth_url != Some(auth_url@))
                &&& if status == 401 && old(auth)@.static_token is None && !token_retried {
                    r.0 matches TunnelNext::Resolve { auth_url: u } && u@ == auth_url@
                } else {
                    r.0 matches TunnelNext::Fail(e) && crate::auth::is_denial_error(
                        e,
                        status,
                        old(auth)@.box_host,
                        auth_url@,
                        sent_token,
                    )
                }
            },
            Refusal::NothingListening { .. } => {
                &&& final(auth)@ == old(auth)@
                &&& !r.1
                &&& if waited_ms + RETRY_PAUSE_MS <= START_BUDGET_MS {
                    r.0 == TunnelNext::Retry { after_ms: RETRY_PAUSE_MS }
                } else {
                    r.0 matches TunnelNext::Fail(Error::Box { status, message }) && status == 502
                        && message@ == refusal_message(refusal, old(auth)@.box_host, port)
                }
            },
            Refusal::NotDebugPort { .. } => {
                &&& final(auth)@ == old(auth)@
                &&& !r.1
                &&& r.0 matches TunnelNext::Fail(Error::Box { status, message }) && status == 403
                    && message@ == refusal_message(refusal, old(auth)@.box_host, port)
            },
            Refusal::Unsupported { status: st } => {
                &&& final(auth)@ == old(auth)@
                &&& !r.1
                &&& if !sent_token && old(auth)@.auth_url is None {
                    r.0 == TunnelNext::Direct
                } else {
                    r.0 matches TunnelNext::Fail(Error::Box { status, message }) && status == (match st {
                        Some(s) => s,
                        None => 0,
                    }) && message@ == refusal_message(refusal, old(auth)@.box_host, port)
                }
            },
        },
{
    match refusal {
        Refusal::Denied { status, auth_url } => {
            let learned = auth.learn_auth_server(auth_url.as_str());
            if status == 401 && !auth.has_static_token() && !token_retried {
                (TunnelNext::Resolve { auth_url }, learned)
            } else {
                let e = denial_error(status, auth.box_host(), auth_url.as_str(), sent_token);
                (TunnelNext::Fail(e), learned)
            }
        },
        Refusal::NothingListening { .. } => {
            if waited_ms <= START_BUDGET_MS - RETRY_PAUSE_MS {
                (TunnelNext::Retry { after_ms: RETRY_PAUSE_MS }, false)
            } else {
                (TunnelNext::Fail(refusal_error(&refusal, auth.box_host(), port)), false)
            }
        },
        Refusal::NotDebugPort { .. } => (
            TunnelNext::Fail(refusal_error(&refusal, auth.box_host(), port)),
            false,
        ),
        Refusal::Unsupported { .. } => {
            if !sent_token && auth.auth_url().is_none() {
                (TunnelNext::Direct, false)
            } else {
                (TunnelNext::Fail(refusal_error(&refusal, auth.box_host(), port)), false)
            }
        },
    }
}

} // verus!

verus! {

/// Host and port named by a debug-service base URL, or `None` when it names
/// no usable port. The host loses IPv6 brackets.
pub open spec fn host_port_of(base: Seq<char>) -> Option<(Seq<char>, u16)> {
    let rest0 = match find(base, "://"@) {
        Some(i) => base.skip(i as int + 3),
        None => base,
    };
    let rest = before_char(rest0, '/');
    match rfind_char(rest, ':') {
        Some(k) => match parse_unsigned(rest.skip(k as int + 1), u16::MAX as nat) {
            Some(p) => Some((strip_end(strip_start(rest.take(k as int), '['), ']'), p as u16)),
            None => None,
        },
        None => None,
    }
}

/// Whether the base URL has a `:` (port separator) at all.
pub open spec fn has_port_separator(base: Seq<char>) -> bool {
    let rest0 = match find(base, "://"@) {
        Some(i) => base.skip(i as int + 3),
        None => base,
    };
    rfind_char(before_char(rest0, '/'), ':') is Some
}

/// Split a debug-service base URL (`http://host:8765`) into host and port.
pub fn host_port(base: &str) -> (r: crate::error::Result<(String, u16)>)
    ensures
        r matches Ok((h, p)) ==> host_port_of(base@) == Some((h@, p)),
        r is Err ==> host_port_of(base@) is None,
        r matches Err(e) ==> (e matches Error::Config(m) && m@ == (if has_port_separator(base@) {
            "bad port in debug-service URL '"@
        } else {
            "no port in debug-service URL '"@
        }) + base@ + "'"@),
{
    let v = chars_of(base);
    let sep = chars_of("://");
    proof { reveal_strlit("://"); }
    let rest0 = match find_chars(v.as_slice(), sep.as_slice()) {
        Some(i) => {
            proof { crate::text::lemma_find_from_found(v@, sep@, 0); }
            let n = v.len();
            let r = slice_chars(v.as_slice(), i + 3, n);
            assert(r@ =~= v@.skip(i as int + 3));
            r
        },
        None => {
            let r = slice_chars(v.as_slice(), 0, v.len());
            assert(r@ =~= v@);
            r
        },
    };
    let rest = before_char_chars(rest0.as_slice(), '/');
    match rfind_char_in(rest.as_slice(), ':') {
        Some(k) => {
            let n = rest.len();
            let port_text = slice_chars(rest.as_slice(), k + 1, n);
            assert(port_text@ =~= rest@.skip(k as int + 1));
            match parse_unsigned_chars(port_text.as_slice(), 65535) {
                Some(p) => {
                    let h = slice_chars(rest.as_slice(), 0, k);
                    assert(h@ =~= rest@.take(k as int));
                    let h = strip_end_chars(strip_start_chars(h.as_slice(), '[').as_slice(), ']');
                    Ok((string_of(h.as_slice()), p as u16))
                },
                None => {
                    let mut m = String::from_str("bad port in debug-service URL '");
                    m.append(base);
                    m.append("'");
                    Err(Error::Config(m))
                },
            }
        },
        None => {
            let mut m = String::from_str("no port in debug-service URL '");
            m.append(base);
            m.append("'");
            Err(Error::Config(m))
        },
    }
}

/// The error for a failed socket operation during tunnel setup: a timeout
/// (`TimedOut`/`WouldBlock`) or a connection failure, labelled with what
/// was being done. `detail` is the I/O error's own text.
pub fn io_error(context: &str, timed_out: bool, detail: &str) -> (e: Error)
    ensures
        timed_out ==> (e matches Error::Timeout(m) && m@ == context@ + ": "@ + detail@),
        !timed_out ==> (e matches Error::Connection(m) && m@ == context@ + ": "@ + detail@),
{
    let mut m = String::from_str(context);
    m.append(": ");
    m.append(detail);
    if timed_out {
        Error::Timeout(m)
    } else {
        Error::Connection(m)
    }
}

} // verus!
