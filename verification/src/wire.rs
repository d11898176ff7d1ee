//! Sans-io wire layer: request builders and response interpretation for the
//! Lager box HTTP API on port 9000 and the debug service on port 8765.
//!
//! Everything in this module is pure data in, data out; the transports only
//! execute what it builds.

use vstd::prelude::*;
use vstd::string::StringExecFns;
use crate::error::{Error, Result};
use crate::codec::{
    encode_query_value, hex_decoded, hex_pairs, hex_splits_char, pct_of, utf8_len,
    utf8_len_is_even, walk_hex_pairs, HexPairs, PairWalk,
};
use crate::text::{joined, join_with, starts_with, views_of};
use vstd::utf8::encode_utf8;
use crate::json::{distinct_keys, member, member_str, obj_keys, take_member, with_member, Json};
use crate::text::{
    chars_of, contains, contains_chars, decimal, decimal_chars, extend_chars, find, find_chars, has_char, slice_chars,
    strip_end, strip_end_chars, string_of, trim, trim_chars, rfind_char, rfind_char_in,
};

verus! {

/// Default port of the box HTTP server.
pub const DEFAULT_PORT: u16 = 9000;

/// Port of the box debug service, published on the box host.
pub const DEBUG_SERVICE_PORT: u16 = 8765;

/// Default HTTP timeout for quick net commands, in seconds (the Lager CLI's
/// 10-second budget).
pub const DEFAULT_TIMEOUT_SECS: u64 = 10;

/// HTTP method of a request.
#[derive(Debug, Clone, Copy, PartialEq, Eq, Structural)]
pub enum Method {
    /// HTTP GET.
    Get,
    /// HTTP POST with a JSON body.
    Post,
    /// HTTP PUT with a JSON body.
    Put,
}

/// Client-side timeout policy for one request.
#[derive(Debug, Clone, Copy, PartialEq, Eq, Structural)]
pub enum Timeout {
    /// Use the client's configured default (10s unless overridden).
    Default,
    /// Use this specific timeout, in milliseconds.
    After(u64),
    /// No client-side timeout at all (e.g. an unbounded `wait_for_level`).
    Unbounded,
}

// ---------------------------------------------------------------------------
// Base URLs
// ---------------------------------------------------------------------------

/// Split a URL-ish text at its first `://` into scheme and rest; without a
/// scheme separator the scheme is `http` and the rest is the whole text.
pub open spec fn split_scheme(s: Seq<char>) -> (Seq<char>, Seq<char>) {
    match find(s, "://"@) {
        Some(i) => (s.take(i as int), s.skip(i as int + 3)),
        None => ("http"@, s),
    }
}

/// The normalized base URL for a user-supplied host, or `None` when the
/// host is unusable.
pub open spec fn base_url_for(host: Seq<char>, default_port: u16) -> Option<Seq<char>> {
    let (scheme, rest0) = split_scheme(trim(host));
    let rest = strip_end(rest0, '/');
    if scheme.len() == 0 || rest.len() == 0 {
        None
    } else if rest.contains(':') {
        Some(scheme + "://"@ + rest)
    } else {
        Some(scheme + "://"@ + rest + ":"@ + decimal(default_port as nat))
    }
}

/// The error for an unusable host string.
pub open spec fn invalid_host_message(host: Seq<char>) -> Seq<char> {
    "invalid box host '"@ + host + "'"@
}

fn split_scheme_chars(s: &[char]) -> (r: (Vec<char>, Vec<char>))
    ensures
        (r.0@, r.1@) == split_scheme(s@),
{
    let sep = chars_of("://");
    proof { reveal_strlit("://"); }
    match find_chars(s, sep.as_slice()) {
        Some(i) => {
            proof { crate::text::lemma_find_from_found(s@, sep@, 0); }
            assert(sep@.len() == 3);
            assert(i + 3 <= s@.len());
            let scheme = slice_chars(s, 0, i);
            let n = s.len();
            let rest = slice_chars(s, i + 3, n);
            assert(scheme@ =~= s@.take(i as int));
            assert(rest@ =~= s@.skip(i + 3));
            (scheme, rest)
        },
        None => (chars_of("http"), slice_chars(s, 0, s.len())),
    }
}

/// Normalize a user-supplied host string into a base URL, using
/// `default_port` when the host names no port. Accepts a bare host/IP, a
/// `host:port` pair, or a full URL; the scheme defaults to `http`.
pub fn base_url_with_port(host: &str, default_port: u16) -> (r: Result<String>)
    ensures
        r matches Ok(u) ==> base_url_for(host@, default_port) == Some(u@),
        r matches Err(e) ==> (base_url_for(host@, default_port) is None
            && (e matches Error::Config(m) && m@ == invalid_host_message(host@))),
{
    let input = trim_chars(chars_of(host).as_slice());
    let (scheme, rest0) = split_scheme_chars(input.as_slice());
    let rest = strip_end_chars(rest0.as_slice(), '/');
    if scheme.len() == 0 || rest.len() == 0 {
        let mut m = String::from_str("invalid box host '");
        m.append(host);
        m.append("'");
        return Err(Error::Config(m));
    }
    let mut out = scheme;
    extend_chars(&mut out, chars_of("://").as_slice());
    extend_chars(&mut out, rest.as_slice());
    if !has_char(rest.as_slice(), ':') {
        extend_chars(&mut out, chars_of(":").as_slice());
        extend_chars(&mut out, decimal_chars(default_port as u64).as_slice());
    }
    Ok(string_of(out.as_slice()))
}

/// Normalize a user-supplied host string into a base URL on the box HTTP
/// server's port (9000) unless the host names one.
pub fn base_url(host: &str) -> (r: Result<String>)
    ensures
        r matches Ok(u) ==> base_url_for(host@, DEFAULT_PORT) == Some(u@),
        r matches Err(e) ==> (base_url_for(host@, DEFAULT_PORT) is None
            && (e matches Error::Config(m) && m@ == invalid_host_message(host@))),
{
    base_url_with_port(host, DEFAULT_PORT)
}

/// The scheme separator does not occur in the scheme `split_scheme` finds.
proof fn lemma_scheme_has_no_separator(t: Seq<char>, j: int)
    requires
        0 <= j,
        j + 3 <= split_scheme(t).0.len(),
    ensures
        split_scheme(t).0.subrange(j, j + 3) != "://"@,
{
    reveal_strlit("://");
    reveal_strlit("http");
    match find(t, "://"@) {
        Some(i) => {
            crate::text::lemma_find_from_found(t, "://"@, 0);
            crate::text::lemma_find_from_first(t, "://"@, 0, j);
            assert(t.take(i as int).subrange(j, j + 3) =~= t.subrange(j, j + 3));
        },
        None => {
            assert(split_scheme(t).0.subrange(j, j + 3)[0] != ':');
        },
    }
}

/// Normalizing a normalized base URL changes nothing (`base_url` accepts
/// its own output), unless that output ends in whitespace: a host such as
/// `"a: /"` normalizes to `"http://a: "`, which trims to something else.
pub proof fn law_base_url_is_idempotent(host: Seq<char>, port: u16)
    requires
        base_url_for(host, port) is Some,
        !crate::text::is_ws(base_url_for(host, port)->0.last()),
    ensures
        base_url_for(base_url_for(host, port)->0, port) == base_url_for(host, port),
{
    reveal_strlit("://");
    reveal_strlit("http");
    reveal_strlit(":");
    let sep = "://"@;
    let t = trim(host);
    let (scheme, rest0) = split_scheme(t);
    let rest = strip_end(rest0, '/');
    let tail = if rest.contains(':') { rest } else { rest + ":"@ + decimal(port as nat) };
    let u = scheme + sep + tail;
    assert(base_url_for(host, port) == Some(u));
    let n = scheme.len();
    // The URL is already trimmed.
    crate::text::lemma_trim_shape(host);
    assert(!crate::text::is_ws(u[0])) by {
        assert(u[0] == scheme[0]);
        match find(t, sep) {
            Some(i) => {
                crate::text::lemma_find_from_found(t, sep, 0);
                assert(scheme[0] == t[0]);
            },
            None => {
                assert(scheme[0] == 'h');
            },
        }
    }
    crate::text::lemma_trim_of_ends(u);
    // Its first separator follows the scheme.
    assert(crate::text::occurs_at(u, sep, n as int)) by {
        assert(u.subrange(n as int, n as int + 3) =~= sep);
    }
    assert forall|j: int| 0 <= j < n implies !crate::text::occurs_at(u, sep, j) by {
        if j + 3 <= n {
            lemma_scheme_has_no_separator(t, j);
            assert(u.subrange(j, j + 3) =~= scheme.subrange(j, j + 3));
        } else if j == n - 1 {
            assert(u.subrange(j, j + 3)[1] == ':');
        } else {
            assert(j == n - 2);
            assert(u.subrange(j, j + 3)[2] == ':');
        }
    }
    crate::text::lemma_find_from_at(u, sep, 0, n);
    assert(u.take(n as int) =~= scheme);
    assert(u.skip(n as int + 3) =~= tail);
    assert(split_scheme(u) == (scheme, tail));
    // Nothing to strip, and a port is already there.
    crate::text::lemma_strip_end_shape(rest0, '/');
    crate::text::lemma_decimal_last(port as nat);
    if rest.contains(':') {
        assert(tail.last() != '/');
    } else {
        assert(tail.last() == decimal(port as nat).last());
        assert(tail[rest.len() as int] == ':');
        assert(tail.contains(':'));
    }
    assert(strip_end(tail, '/') == tail);
}

/// A sibling service base URL on the same host as `base` but on `port`.
pub open spec fn service_base_for(base: Seq<char>, port: u16) -> Seq<char> {
    let (scheme, rest) = split_scheme(base);
    let host = match rfind_char(rest, ':') {
        Some(i) => rest.take(i as int),
        None => rest,
    };
    scheme + "://"@ + host + ":"@ + decimal(port as nat)
}

/// Derive a sibling service base URL on the same host but a different port,
/// e.g. turn `http://192.168.1.42:9000` into `http://192.168.1.42:8765`.
pub fn service_base(base: &str, port: u16) -> (r: String)
    ensures
        r@ == service_base_for(base@, port),
{
    let (scheme, rest) = split_scheme_chars(chars_of(base).as_slice());
    let host = match rfind_char_in(rest.as_slice(), ':') {
        Some(i) => {
            let h = slice_chars(rest.as_slice(), 0, i);
            assert(h@ =~= rest@.take(i as int));
            h
        },
        None => {
            let h = slice_chars(rest.as_slice(), 0, rest.len());
            assert(h@ =~= rest@);
            h
        },
    };
    assert(host@ == (match rfind_char(rest@, ':') {
        Some(i) => rest@.take(i as int),
        None => rest@,
    }));
    let mut out = scheme;
    extend_chars(&mut out, chars_of("://").as_slice());
    extend_chars(&mut out, host.as_slice());
    extend_chars(&mut out, chars_of(":").as_slice());
    extend_chars(&mut out, decimal_chars(port as u64).as_slice());
    string_of(out.as_slice())
}

// ---------------------------------------------------------------------------
// Requests
// ---------------------------------------------------------------------------

/// One fully-described HTTP request to the box, transport-agnostic.
#[derive(Debug)]
pub struct HttpRequest {
    /// HTTP method.
    pub method: Method,
    /// Path relative to the box base URL, e.g. `"/net/command"`.
    pub path: String,
    /// JSON body for POST requests.
    pub body: Option<Json>,
    /// Client-side timeout policy.
    pub timeout: Timeout,
}

/// `b` is an object with distinct keys, exactly `keys`.
pub open spec fn keyed(b: Json, keys: Set<Seq<char>>) -> bool {
    distinct_keys(b) && obj_keys(b) == keys
}

/// The `{netname, action, params}` fields of a command body.
pub open spec fn command_fields(b: Json, netname: Seq<char>, action: Seq<char>, params: Json) -> bool {
    &&& member_str(b, "netname"@) == Some(netname)
    &&& member_str(b, "action"@) == Some(action)
    &&& member(b, "params"@) == Some(params)
}

/// A POST request to `path` whose body is `{netname, action, params}`.
pub open spec fn command_request(
    r: HttpRequest,
    path: Seq<char>,
    netname: Seq<char>,
    action: Seq<char>,
    params: Json,
) -> bool {
    &&& r.method == Method::Post
    &&& r.path@ == path
    &&& r.timeout == Timeout::Default
    &&& r.body matches Some(b) && command_fields(b, netname, action, params)
        && keyed(b, set!["netname"@, "action"@, "params"@])
}

fn command_body(netname: &str, action: &str, params: Json) -> (b: Json)
    ensures
        command_fields(b, netname@, action@, params),
        keyed(b, set!["netname"@, "action"@, "params"@]),
        b is Object,
{
    proof {
        reveal_strlit("netname");
        reveal_strlit("action");
        reveal_strlit("params");
    }
    assert("netname"@.len() == 7 && "action"@.len() == 6 && "params"@.len() == 6);
    assert("action"@[0] != "params"@[0]);
    let b0 = Json::empty_object();
    let b1 = with_member(b0, "netname", Json::str_of(netname));
    let b2 = with_member(b1, "action", Json::str_of(action));
    assert(member(b2, "netname"@) == member(b1, "netname"@));
    let b = with_member(b2, "params", params);
    assert(member(b, "netname"@) == member(b1, "netname"@));
    assert(member(b, "action"@) == member(b2, "action"@));
    assert(set!["netname"@, "action"@, "params"@] =~= Set::<Seq<char>>::empty().insert(
        "netname"@,
    ).insert("action"@).insert("params"@));
    b
}

/// Build a `POST /net/command` request (gpio, adc, dac, thermocouple,
/// watt-meter, eload, spi, i2c, energy-analyzer).
///
/// The `role` is sent as a hint; the box resolves the authoritative role
/// from its saved nets and verifies the hint. `role: None` omits the hint
/// and defers fully to the box's resolution.
pub fn net_command(
    netname: &str,
    role: Option<&str>,
    action: &str,
    params: Json,
    timeout: Timeout,
) -> (r: HttpRequest)
    ensures
        r.method == Method::Post,
        r.path@ == "/net/command"@,
        r.timeout == timeout,
        r.body matches Some(b) && command_fields(b, netname@, action@, params) && match role {
            Some(x) => member_str(b, "role"@) == Some(x@) && keyed(
                b,
                set!["netname"@, "action"@, "params"@, "role"@],
            ),
            None => keyed(b, set!["netname"@, "action"@, "params"@]),
        },
{
    proof {
        reveal_strlit("netname");
        reveal_strlit("action");
        reveal_strlit("params");
        reveal_strlit("role");
    }
    let b = command_body(netname, action, params);
    let body = match role {
        Some(x) => {
            assert("role"@.len() == 4 && "action"@.len() == 6 && "params"@.len() == 6
                && "netname"@.len() == 7);
            let b2 = with_member(b, "role", Json::str_of(x));
            assert(member(b2, "netname"@) == member(b, "netname"@));
            assert(member(b2, "action"@) == member(b, "action"@));
            assert(member(b2, "params"@) == member(b, "params"@));
            assert(set!["netname"@, "action"@, "params"@, "role"@] =~= set![
                "netname"@,
                "action"@,
                "params"@,
            ].insert("role"@));
            b2
        },
        None => b,
    };
    HttpRequest {
        method: Method::Post,
        path: String::from_str("/net/command"),
        body: Some(body),
        timeout,
    }
}

/// The `params` object a request body carries (`null` when there is
/// none).
pub open spec fn params_of(r: HttpRequest) -> Json {
    match r.body {
        Some(b) => match member(b, "params"@) {
            Some(p) => p,
            None => Json::Null,
        },
        None => Json::Null,
    }
}

/// `r` is a `POST /net/command` request for `action` on `netname` with the
/// role hint `role` and this timeout policy.
pub open spec fn net_request(
    r: HttpRequest,
    netname: Seq<char>,
    role: Seq<char>,
    action: Seq<char>,
    timeout: Timeout,
) -> bool {
    &&& r.method == Method::Post
    &&& r.path@ == "/net/command"@
    &&& r.timeout == timeout
    &&& r.body matches Some(b) && member_str(b, "netname"@) == Some(netname) && member_str(
        b,
        "action"@,
    ) == Some(action) && member_str(b, "role"@) == Some(role) && keyed(
        b,
        set!["netname"@, "action"@, "params"@, "role"@],
    )
}

/// Build a `POST /net/command` request with a role hint (the common case).
pub fn role_command(netname: &str, role: &str, action: &str, params: Json, timeout: Timeout) -> (r: HttpRequest)
    ensures
        net_request(r, netname@, role@, action@, timeout),
        params_of(r) == params,
{
    net_command(netname, Some(role), action, params, timeout)
}

/// An object with one string member.
pub fn str_params(key: &str, value: &str) -> (p: Json)
    ensures
        member_str(p, key@) == Some(value@),
        keyed(p, set![key@]),
{
    let p = with_member(Json::empty_object(), key, Json::str_of(value));
    assert(obj_keys(p) =~= set![key@]);
    p
}

/// An object with two string members under distinct keys.
pub fn str_params2(k1: &str, v1: &str, k2: &str, v2: &str) -> (p: Json)
    requires
        k1@ != k2@,
    ensures
        member_str(p, k1@) == Some(v1@),
        member_str(p, k2@) == Some(v2@),
        keyed(p, set![k1@, k2@]),
{
    let p1 = with_member(Json::empty_object(), k1, Json::str_of(v1));
    let p = with_member(p1, k2, Json::str_of(v2));
    assert(member(p, k1@) == member(p1, k1@));
    assert(obj_keys(p) =~= set![k1@, k2@]);
    p
}

/// A `POST /net/command` request for an action without parameters.
pub fn plain_action(netname: &str, role: Option<&str>, action: &str, timeout: Timeout) -> (r: HttpRequest)
    ensures
        r.method == Method::Post,
        r.path@ == "/net/command"@,
        r.timeout == timeout,
        r.body matches Some(b) && member_str(b, "netname"@) == Some(netname@) && member_str(
            b,
            "action"@,
        ) == Some(action@) && match role {
            Some(x) => member_str(b, "role"@) == Some(x@),
            None => member(b, "role"@) is None,
        },
        keyed(params_of(r), Set::empty()),
{
    proof {
        reveal_strlit("role");
        reveal_strlit("netname");
        reveal_strlit("action");
        reveal_strlit("params");
    }
    let r = net_command(netname, role, action, Json::empty_object(), timeout);
    assert(obj_keys(params_of(r)) =~= Set::<Seq<char>>::empty());
    proof {
        if role is None {
            if r.body is Some {
                let b = r.body->0;
                crate::json::lemma_member_key(b, "role"@);
                assert("role"@.len() == 4 && "netname"@.len() == 7 && "action"@.len() == 6
                    && "params"@.len() == 6);
                assert(!set!["netname"@, "action"@, "params"@].contains("role"@));
            }
        }
    }
    r
}

/// Build a `POST /supply/command` request.
pub fn supply_command(netname: &str, action: &str, params: Json) -> (r: HttpRequest)
    ensures
        command_request(r, "/supply/command"@, netname@, action@, params),
{
    HttpRequest {
        method: Method::Post,
        path: String::from_str("/supply/command"),
        body: Some(command_body(netname, action, params)),
        timeout: Timeout::Default,
    }
}

/// Build a `POST /battery/command` request.
pub fn battery_command(netname: &str, action: &str, params: Json) -> (r: HttpRequest)
    ensures
        command_request(r, "/battery/command"@, netname@, action@, params),
{
    HttpRequest {
        method: Method::Post,
        path: String::from_str("/battery/command"),
        body: Some(command_body(netname, action, params)),
        timeout: Timeout::Default,
    }
}

/// Build a `POST /usb/command` request (no `params` object on this
/// endpoint).
pub fn usb_command(netname: &str, action: &str) -> (r: HttpRequest)
    ensures
        r.method == Method::Post,
        r.path@ == "/usb/command"@,
        r.timeout == Timeout::Default,
        r.body matches Some(b) && member_str(b, "netname"@) == Some(netname@) && member_str(
            b,
            "action"@,
        ) == Some(action@) && keyed(b, set!["netname"@, "action"@]),
{
    proof {
        reveal_strlit("netname");
        reveal_strlit("action");
    }
    assert("netname"@.len() == 7 && "action"@.len() == 6);
    let b0 = Json::empty_object();
    let b1 = with_member(b0, "netname", Json::str_of(netname));
    let b = with_member(b1, "action", Json::str_of(action));
    assert(member(b, "netname"@) == member(b1, "netname"@));
    assert(set!["netname"@, "action"@] =~= Set::<Seq<char>>::empty().insert("netname"@).insert(
        "action"@,
    ));
    HttpRequest {
        method: Method::Post,
        path: String::from_str("/usb/command"),
        body: Some(b),
        timeout: Timeout::Default,
    }
}

/// Build a box-level command request (`POST /ble/command`,
/// `/wifi/command`, `/blufi/command`, `/usb/dfu`): the body carries only
/// `{action, params}`, no `netname`.
pub fn box_command(path: &str, action: &str, params: Json, timeout: Timeout) -> (r: HttpRequest)
    ensures
        r.method == Method::Post,
        r.path@ == path@,
        r.timeout == timeout,
        r.body matches Some(b) && member_str(b, "action"@) == Some(action@) && member(
            b,
            "params"@,
        ) == Some(params) && keyed(b, set!["action"@, "params"@]),
{
    proof {
        reveal_strlit("action");
        reveal_strlit("params");
    }
    assert("action"@[0] != "params"@[0]);
    let b0 = Json::empty_object();
    let b1 = with_member(b0, "action", Json::str_of(action));
    let b = with_member(b1, "params", params);
    assert(member(b, "action"@) == member(b1, "action"@));
    assert(set!["action"@, "params"@] =~= Set::<Seq<char>>::empty().insert("action"@).insert(
        "params"@,
    ));
    HttpRequest { method: Method::Post, path: String::from_str(path), body: Some(b), timeout }
}

/// Build a plain GET request (discovery/health endpoints).
pub fn get(path: &str) -> (r: HttpRequest)
    ensures
        r.method == Method::Get,
        r.path@ == path@,
        r.body is None,
        r.timeout == Timeout::Default,
{
    HttpRequest {
        method: Method::Get,
        path: String::from_str(path),
        body: None,
        timeout: Timeout::Default,
    }
}

/// Build a `POST /debug/<op>` request for the debug service.
pub fn debug_request(path: &str, body: Json, timeout: Timeout) -> (r: HttpRequest)
    ensures
        r.method == Method::Post,
        r.path@ == path@,
        r.body == Some(body),
        r.timeout == timeout,
{
    HttpRequest { method: Method::Post, path: String::from_str(path), body: Some(body), timeout }
}

// ---------------------------------------------------------------------------
// Response envelope
// ---------------------------------------------------------------------------

/// The common response envelope every box command endpoint returns:
/// `{"success": bool, "action": ..., "message": ..., "value": ...,
/// "state": ...}`, with any other top-level fields in `extra`.
#[derive(Debug)]
pub struct CommandResponse {
    /// Whether the box executed the command.
    pub success: bool,
    /// Echo of the action that ran.
    pub action: Option<String>,
    /// Human-readable result message.
    pub message: Option<String>,
    /// Structured result value, shape depends on the action.
    pub value: Option<Json>,
    /// Structured state object (supply/battery `state`, usb port state).
    pub state: Option<Json>,
    /// Error message when `success` is false.
    pub error: Option<String>,
    /// Any endpoint-specific extra top-level fields.
    pub extra: Vec<(String, Json)>,
}

/// `"HTTP <status>"`.
pub open spec fn http_text(status: u16) -> Seq<char> {
    "HTTP "@ + decimal(status as nat)
}

fn http_status_text(status: u16) -> (s: String)
    ensures
        s@ == http_text(status),
{
    let mut v = chars_of("HTTP ");
    extend_chars(&mut v, decimal_chars(status as u64).as_slice());
    string_of(v.as_slice())
}

/// The message a failed command reports: its `error`, else its `message`,
/// else the HTTP status.
pub open spec fn failure_text(status: u16, resp: CommandResponse) -> Seq<char> {
    match resp.error {
        Some(e) => e@,
        None => match resp.message {
            Some(m) => m@,
            None => http_text(status),
        },
    }
}

/// `e` is the error a failed command with this status and envelope maps
/// to: 501 means the box image predates the endpoint, anything else is a
/// box error carrying the status.
pub open spec fn is_command_error(e: Error, status: u16, resp: CommandResponse) -> bool {
    if status == 501 {
        e matches Error::UnsupportedByBox { message } && message@ == failure_text(status, resp)
    } else {
        e matches Error::Box { status: s, message } && s == status && message@ == failure_text(
            status,
            resp,
        )
    }
}

/// Interpret a `(status, envelope)` pair with the box's error conventions:
/// 200 with `success: true` is the only success shape; 501 means the box
/// image predates the endpoint; everything else (including `success:
/// false` with HTTP 200, which the box uses for cross-role instrument
/// conflicts) is a box error.
pub fn parse_command(status: u16, resp: CommandResponse) -> (r: Result<CommandResponse>)
    ensures
        r is Ok <==> (status == 200 && resp.success),
        r matches Ok(x) ==> x == resp,
        r matches Err(e) ==> is_command_error(e, status, resp),
{
    if status == 200 && resp.success {
        return Ok(resp);
    }
    let message = match resp.error {
        Some(e) => e,
        None => match resp.message {
            Some(m) => m,
            None => http_status_text(status),
        },
    };
    if status == 501 {
        Err(Error::UnsupportedByBox { message })
    } else {
        Err(Error::Box { status, message })
    }
}

/// The reply to one request: the transport's error, or the HTTP status and
/// the decoded response envelope.
pub type Exchange = Result<(u16, CommandResponse)>;

/// The envelope of a successful exchange, or the error it ends with.
pub open spec fn exchange_ok(x: Exchange) -> bool {
    x matches Ok((status, resp)) && status == 200 && resp.success
}

/// `e` is the error an exchange that did not succeed ends with: the
/// transport's own, or the command error its envelope maps to.
pub open spec fn exchange_error(x: Exchange, e: Error) -> bool {
    match x {
        Err(t) => e == t,
        Ok((status, resp)) => is_command_error(e, status, resp),
    }
}

/// Run the envelope check on an exchange.
pub fn command_reply(x: Exchange) -> (r: Result<CommandResponse>)
    ensures
        r is Ok <==> exchange_ok(x),
        r matches Ok(resp) ==> x == Ok::<(u16, CommandResponse), Error>((200, resp)),
        r matches Err(e) ==> exchange_error(x, e),
{
    match x {
        Err(e) => Err(e),
        Ok((status, resp)) => parse_command(status, resp),
    }
}

/// Discard the payload, keeping only success.
pub fn unit(resp: CommandResponse) -> (r: Result<()>)
    ensures
        r is Ok,
{
    Ok(())
}

/// Keep the whole envelope (for callers that want `message` etc.).
pub fn envelope(resp: CommandResponse) -> (r: Result<CommandResponse>)
    ensures
        r == Ok::<CommandResponse, Error>(resp),
{
    Ok(resp)
}

/// The `value` field, for decoding into a typed result.
pub fn value_field(resp: CommandResponse) -> (r: Result<Json>)
    ensures
        match resp.value {
            Some(v) => r == Ok::<Json, Error>(v),
            None => r matches Err(Error::Decode(m)) && m@ == "response has no 'value' field"@,
        },
{
    match resp.value {
        Some(v) => Ok(v),
        None => Err(Error::Decode(String::from_str("response has no 'value' field"))),
    }
}

/// The `state` field, for decoding into a typed result.
pub fn state_field(resp: CommandResponse) -> (r: Result<Json>)
    ensures
        match resp.state {
            Some(v) => r == Ok::<Json, Error>(v),
            None => r matches Err(Error::Decode(m)) && m@ == "response has no 'state' field"@,
        },
{
    match resp.state {
        Some(v) => Ok(v),
        None => Err(Error::Decode(String::from_str("response has no 'state' field"))),
    }
}

/// The member `field` of the `value` object, if both exist.
pub open spec fn value_member(resp: CommandResponse, field: Seq<char>) -> Option<Json> {
    match resp.value {
        Some(v) => member(v, field),
        None => None,
    }
}

/// A named list field out of the `value` object (e.g. `devices` from a
/// BLE scan, `access_points` from a WiFi scan), for decoding.
pub fn value_list_field(resp: CommandResponse, field: &str) -> (r: Result<Json>)
    ensures
        match value_member(resp, field@) {
            Some(l) => r == Ok::<Json, Error>(l),
            None => r matches Err(Error::Decode(m)) && m@ == "response 'value' has no '"@
                + field@ + "' list"@,
        },
{
    let found = match resp.value {
        Some(v) => take_member(v, field),
        None => None,
    };
    match found {
        Some(l) => Ok(l),
        None => {
            let mut m = String::from_str("response 'value' has no '");
            m.append(field);
            m.append("' list");
            Err(Error::Decode(m))
        },
    }
}

/// The saved-net records of a nets-list body: `/nets/list` returns a bare
/// array; the older `/uart/nets/list` wraps it in `{"nets": [...]}`.
pub open spec fn nets_list_of(body: Json) -> Seq<Json> {
    match body {
        Json::Array(a) => a@,
        Json::Object(_) => match member(body, "nets"@) {
            Some(Json::Array(a)) => a@,
            _ => Seq::empty(),
        },
        _ => Seq::empty(),
    }
}

/// Interpret a nets-list body into its raw records.
pub fn nets_list_values(body: Json) -> (r: Vec<Json>)
    ensures
        r@ == nets_list_of(body),
{
    match body {
        Json::Array(a) => a,
        Json::Object(entries) => {
            let j = Json::Object(entries);
            match take_member(j, "nets") {
                Some(Json::Array(a)) => a,
                _ => Vec::new(),
            }
        },
        _ => Vec::new(),
    }
}

// ---------------------------------------------------------------------------
// Debug service (:8765)
// ---------------------------------------------------------------------------

/// The message of a failed debug-service reply: its `error`, else its
/// `message`, else a generic text.
pub open spec fn debug_failure_text(body: Json) -> Seq<char> {
    match member_str(body, "error"@) {
        Some(m) => m,
        None => match member_str(body, "message"@) {
            Some(m) => m,
            None => "debug service request failed"@,
        },
    }
}

/// Interpret a debug-service `(status, body)` pair. The debug service does
/// not use the `success` envelope: 200 is success, and errors arrive as
/// `{"error": msg, "status": "error"}` with a 4xx/5xx code.
pub fn parse_debug(status: u16, body: Json) -> (r: Result<Json>)
    ensures
        r is Ok <==> status == 200,
        r matches Ok(b) ==> b == body,
        r matches Err(e) ==> e matches Error::Box { status: s, message } && s == status
            && message@ == debug_failure_text(body),
{
    if status == 200 {
        return Ok(body);
    }
    let message = match body.get_str("error") {
        Some(m) => String::from_str(m),
        None => match body.get_str("message") {
            Some(m) => String::from_str(m),
            None => String::from_str("debug service request failed"),
        },
    };
    Err(Error::Box { status, message })
}

/// The message decoding `s` as hex fails with.
pub open spec fn hex_error_text(s: Seq<char>) -> Seq<char> {
    if utf8_len(trim(s)) % 2 != 0 {
        "odd-length hex string"@
    } else {
        match hex_pairs(trim(s)) {
            HexPairs::BadPair(p) => "invalid hex byte '"@ + p + "'"@,
            _ => Seq::empty(),
        }
    }
}

/// Decode a hex string (surrounding whitespace ignored) into bytes.
pub fn decode_hex(s: &str) -> (r: Result<Vec<u8>>)
    requires
        !hex_splits_char(s@),
    ensures
        match hex_decoded(s@) {
            Some(b) => r matches Ok(v) && v@ == b,
            None => r matches Err(Error::Decode(m)) && m@ == hex_error_text(s@),
        },
{
    let t = trim_chars(chars_of(s).as_slice());
    if !utf8_len_is_even(t.as_slice()) {
        return Err(Error::Decode(String::from_str("odd-length hex string")));
    }
    match walk_hex_pairs(t.as_slice()) {
        PairWalk::Bytes(b) => Ok(b),
        PairWalk::BadPair(p) => {
            let mut v = chars_of("invalid hex byte '");
            extend_chars(&mut v, p.as_slice());
            extend_chars(&mut v, chars_of("'").as_slice());
            Err(Error::Decode(string_of(v.as_slice())))
        },
    }
}

/// Extract the hex `data` field from a `/debug/memrd` response into bytes.
pub fn debug_memory_bytes(body: &Json) -> (r: Result<Vec<u8>>)
    requires
        member_str(*body, "data"@) matches Some(h) ==> !hex_splits_char(h),
    ensures
        match member_str(*body, "data"@) {
            None => r matches Err(Error::Decode(m)) && m@ == "memrd response missing 'data'"@,
            Some(h) => match hex_decoded(h) {
                Some(b) => r matches Ok(v) && v@ == b,
                None => r matches Err(Error::Decode(m)) && m@ == hex_error_text(h),
            },
        },
{
    match body.get_str("data") {
        Some(h) => decode_hex(h),
        None => Err(Error::Decode(String::from_str("memrd response missing 'data'"))),
    }
}

// ---------------------------------------------------------------------------
// Compatibility mapping
// ---------------------------------------------------------------------------

/// `e` is a route-missing 404 (Flask's non-JSON default page).
pub open spec fn is_route_missing(e: Error) -> bool {
    e matches Error::Box { status, message } && status == 404 && contains(message@, "non-JSON"@)
}

/// Map a route-missing 404 to the endpoint's "unsupported" error; real box
/// errors carry JSON bodies and pass through untouched.
pub fn map_route_missing(err: Error, unsupported: Error) -> (r: Error)
    ensures
        is_route_missing(err) ==> r == unsupported,
        !is_route_missing(err) ==> r == err,
{
    let missing = match &err {
        Error::Box { status, message } => *status == 404 && contains_chars(
            chars_of(message.as_str()).as_slice(),
            chars_of("non-JSON").as_slice(),
        ),
        _ => false,
    };
    if missing {
        unsupported
    } else {
        err
    }
}

/// The error for a box that does not serve `GET /usb/devices`.
pub fn usb_devices_unsupported() -> (e: Error)
    ensures
        e matches Error::UnsupportedByBox { message } && message@
            == "this box does not serve GET /usb/devices (requires box software >= 0.33.0)"@,
{
    Error::UnsupportedByBox {
        message: String::from_str(
            "this box does not serve GET /usb/devices (requires box software >= 0.33.0)",
        ),
    }
}

/// The error for a box that does not serve `POST /usb/dfu`.
pub fn dfu_unsupported() -> (e: Error)
    ensures
        e matches Error::UnsupportedByBox { message } && message@
            == "this box does not serve POST /usb/dfu (requires box software >= 0.33.0)"@,
{
    Error::UnsupportedByBox {
        message: String::from_str(
            "this box does not serve POST /usb/dfu (requires box software >= 0.33.0)",
        ),
    }
}

/// The error for a box that does not serve the `/lock` endpoints.
pub fn lock_unsupported() -> (e: Error)
    ensures
        e matches Error::UnsupportedByBox { message } && message@
            == "this box does not serve the /lock endpoints on port 9000; update the box software"@,
{
    Error::UnsupportedByBox {
        message: String::from_str(
            "this box does not serve the /lock endpoints on port 9000; update the box software",
        ),
    }
}

// ---------------------------------------------------------------------------
// USB bus enumeration (GET /usb/devices)
// ---------------------------------------------------------------------------

/// Optional box-side filters for `GET /usb/devices`. `vid`/`pid` are hex
/// strings (with or without `0x`); `serial` is an exact iSerial match. An
/// empty filter returns every device.
#[derive(Debug)]
pub struct UsbDeviceFilter {
    /// USB vendor id, hex (e.g. `"0483"`).
    pub vid: Option<String>,
    /// USB product id, hex (e.g. `"df11"`).
    pub pid: Option<String>,
    /// Exact iSerial string.
    pub serial: Option<String>,
}

impl Default for UsbDeviceFilter {
    fn default() -> (f: Self)
        ensures
            f.vid is None && f.pid is None && f.serial is None,
    {
        UsbDeviceFilter { vid: None, pid: None, serial: None }
    }
}

/// `key=<percent-encoded value>` when the filter value is set.
pub open spec fn query_param(key: Seq<char>, v: Option<String>) -> Seq<Seq<char>> {
    match v {
        Some(x) => seq![key + "="@ + pct_of(encode_utf8(x@))],
        None => Seq::empty(),
    }
}

/// The request path for a device listing with these filters.
pub open spec fn usb_devices_path(f: UsbDeviceFilter) -> Seq<char> {
    let parts = query_param("vid"@, f.vid) + query_param("pid"@, f.pid) + query_param(
        "serial"@,
        f.serial,
    );
    if parts.len() == 0 {
        "/usb/devices"@
    } else {
        "/usb/devices?"@ + joined(parts, "&"@)
    }
}

fn push_query_param(parts: &mut Vec<Vec<char>>, key: &str, v: &Option<String>)
    ensures
        views_of(final(parts)@) == views_of(old(parts)@) + query_param(key@, *v),
{
    match v {
        Some(x) => {
            let mut p = chars_of(key);
            extend_chars(&mut p, chars_of("=").as_slice());
            let enc = encode_query_value(x.as_str());
            extend_chars(&mut p, chars_of(enc.as_str()).as_slice());
            parts.push(p);
            assert(views_of(parts@) =~= views_of(old(parts)@) + query_param(key@, *v));
        },
        None => {
            assert(views_of(parts@) =~= views_of(old(parts)@) + query_param(key@, *v));
        },
    }
}

/// Build a `GET /usb/devices` request with optional box-side filters.
pub fn usb_devices(filter: &UsbDeviceFilter) -> (r: HttpRequest)
    ensures
        r.method == Method::Get,
        r.path@ == usb_devices_path(*filter),
        r.body is None,
        r.timeout == Timeout::Default,
{
    let mut parts: Vec<Vec<char>> = Vec::new();
    assert(views_of(parts@) =~= Seq::<Seq<char>>::empty());
    push_query_param(&mut parts, "vid", &filter.vid);
    push_query_param(&mut parts, "pid", &filter.pid);
    push_query_param(&mut parts, "serial", &filter.serial);
    assert(views_of(parts@) =~= query_param("vid"@, filter.vid) + query_param("pid"@, filter.pid)
        + query_param("serial"@, filter.serial));
    let path = if parts.len() == 0 {
        chars_of("/usb/devices")
    } else {
        let mut p = chars_of("/usb/devices?");
        extend_chars(&mut p, join_with(parts.as_slice(), chars_of("&").as_slice()).as_slice());
        p
    };
    HttpRequest {
        method: Method::Get,
        path: string_of(path.as_slice()),
        body: None,
        timeout: Timeout::Default,
    }
}

/// `key` ends right before index `k` of `s`.
spec fn ends_before(s: Seq<char>, k: int, key: Seq<char>) -> bool {
    key.len() <= k && s.subrange(k - key.len(), k) == key
}

/// Every `=` in `s` follows one of the enabled filter keys.
spec fn eqs_follow_keys(s: Seq<char>, vid: bool, pid: bool, serial: bool) -> bool {
    forall|k: int| 0 <= k < s.len() && #[trigger] s[k] == '=' ==> (vid && ends_before(s, k, "vid"@)) || (
    pid && ends_before(s, k, "pid"@)) || (serial && ends_before(s, k, "serial"@))
}

proof fn lemma_eqs_concat(a: Seq<char>, b: Seq<char>, v: bool, p: bool, sr: bool)
    requires
        eqs_follow_keys(a, v, p, sr),
        eqs_follow_keys(b, v, p, sr),
    ensures
        eqs_follow_keys(a + b, v, p, sr),
{
    let c = a + b;
    assert forall|k: int| 0 <= k < c.len() && #[trigger] c[k] == '=' implies (v && ends_before(c, k, "vid"@))
        || (p && ends_before(c, k, "pid"@)) || (sr && ends_before(c, k, "serial"@)) by {
        if k < a.len() {
            assert(a[k] == '=');
            assert forall|key: Seq<char>| ends_before(a, k, key) implies ends_before(c, k, key) by {
                assert(c.subrange(k - key.len(), k) =~= a.subrange(k - key.len(), k));
            }
        } else {
            let j = k - a.len();
            assert(b[j] == '=');
            assert forall|key: Seq<char>| ends_before(b, j, key) implies ends_before(c, k, key) by {
                assert(c.subrange(k - key.len(), k) =~= b.subrange(j - key.len(), j));
            }
        }
    }
}

proof fn lemma_pct_has_no_eq(x: Seq<u8>)
    ensures
        forall|i: int| 0 <= i < pct_of(x).len() ==> pct_of(x)[i] != '=',
    decreases x.len(),
{
    if x.len() > 0 {
        lemma_pct_has_no_eq(x.drop_last());
        let b = x.last();
        assert(pct_of(x) == pct_of(x.drop_last()) + crate::codec::pct_byte(b));
        assert forall|i: int| 0 <= i < pct_of(x).len() implies pct_of(x)[i] != '=' by {
            if i >= pct_of(x.drop_last()).len() {
                let j = i - pct_of(x.drop_last()).len();
                assert(pct_of(x)[i] == crate::codec::pct_byte(b)[j]);
                if crate::codec::unreserved(b) {
                    assert(b != 61u8);
                }
            }
        }
    }
}

/// A `key=value` query part of an enabled key keeps the `=` rule.
proof fn lemma_param_follows(key: Seq<char>, x: Seq<u8>, v: bool, p: bool, sr: bool)
    requires
        (key == "vid"@ && v) || (key == "pid"@ && p) || (key == "serial"@ && sr),
    ensures
        eqs_follow_keys(key + "="@ + pct_of(x), v, p, sr),
{
    reveal_strlit("vid");
    reveal_strlit("pid");
    reveal_strlit("serial");
    reveal_strlit("=");
    lemma_pct_has_no_eq(x);
    let s = key + "="@ + pct_of(x);
    assert forall|k: int| 0 <= k < s.len() && #[trigger] s[k] == '=' implies (v && ends_before(s, k, "vid"@))
        || (p && ends_before(s, k, "pid"@)) || (sr && ends_before(s, k, "serial"@)) by {
        if k > key.len() {
            assert(s[k] == pct_of(x)[k - key.len() - 1]);
        } else if k < key.len() {
            assert(s[k] == key[k]);
        } else {
            assert(s.subrange(k - key.len(), k) =~= key);
        }
    }
}

proof fn lemma_joined_follows(parts: Seq<Seq<char>>, v: bool, p: bool, sr: bool)
    requires
        forall|i: int| 0 <= i < parts.len() ==> eqs_follow_keys(#[trigger] parts[i], v, p, sr),
    ensures
        eqs_follow_keys(joined(parts, "&"@), v, p, sr),
    decreases parts.len(),
{
    reveal_strlit("&");
    if parts.len() == 1 {
        assert(eqs_follow_keys(parts[0], v, p, sr));
    } else if parts.len() > 1 {
        assert forall|i: int| 0 <= i < parts.drop_last().len() implies eqs_follow_keys(
            #[trigger] parts.drop_last()[i],
            v,
            p,
            sr,
        ) by {
            assert(parts.drop_last()[i] == parts[i]);
        }
        lemma_joined_follows(parts.drop_last(), v, p, sr);
        assert(eqs_follow_keys("&"@, v, p, sr));
        assert(eqs_follow_keys(parts.last(), v, p, sr));
        lemma_eqs_concat(joined(parts.drop_last(), "&"@), "&"@, v, p, sr);
        lemma_eqs_concat(joined(parts.drop_last(), "&"@) + "&"@, parts.last(), v, p, sr);
    }
}

/// A text whose `=` signs all follow enabled keys holds no `key=` of a
/// disabled key.
proof fn lemma_no_disabled_key(s: Seq<char>, v: bool, p: bool, sr: bool)
    requires
        eqs_follow_keys(s, v, p, sr),
    ensures
        !v ==> !contains(s, "vid="@),
        !p ==> !contains(s, "pid="@),
        !sr ==> !contains(s, "serial="@),
{
    reveal_strlit("vid");
    reveal_strlit("pid");
    reveal_strlit("serial");
    reveal_strlit("vid=");
    reveal_strlit("pid=");
    reveal_strlit("serial=");
    crate::text::lemma_contains_iff(s, "vid="@);
    crate::text::lemma_contains_iff(s, "pid="@);
    crate::text::lemma_contains_iff(s, "serial="@);
    assert forall|i: int| !v implies !crate::text::occurs_at(s, "vid="@, i) by {
        if crate::text::occurs_at(s, "vid="@, i) {
            let k = i + 3;
            assert(s.subrange(i, i + 4) == "vid="@);
            assert(s[k] == s.subrange(i, i + 4)[3]);
            assert(s[i] == s.subrange(i, i + 4)[0] && s[i + 2] == s.subrange(i, i + 4)[2]);
            assert("vid="@[0] == 'v' && "vid="@[2] == 'd');
            assert(s[k - 1] == 'd' && s[k - 3] == 'v');
            if ends_before(s, k, "pid"@) {
                assert(s[k - 3] == s.subrange(k - 3, k)[0]);
            }
            if ends_before(s, k, "serial"@) {
                assert(s[k - 1] == s.subrange(k - 6, k)[5]);
            }
        }
    }
    assert forall|i: int| !p implies !crate::text::occurs_at(s, "pid="@, i) by {
        if crate::text::occurs_at(s, "pid="@, i) {
            let k = i + 3;
            assert(s.subrange(i, i + 4) == "pid="@);
            assert(s[k] == s.subrange(i, i + 4)[3]);
            assert(s[i] == s.subrange(i, i + 4)[0] && s[i + 2] == s.subrange(i, i + 4)[2]);
            assert("pid="@[0] == 'p' && "pid="@[2] == 'd');
            assert(s[k - 1] == 'd' && s[k - 3] == 'p');
            if ends_before(s, k, "vid"@) {
                assert(s[k - 3] == s.subrange(k - 3, k)[0]);
            }
            if ends_before(s, k, "serial"@) {
                assert(s[k - 1] == s.subrange(k - 6, k)[5]);
            }
        }
    }
    assert forall|i: int| !sr implies !crate::text::occurs_at(s, "serial="@, i) by {
        if crate::text::occurs_at(s, "serial="@, i) {
            let k = i + 6;
            assert(s.subrange(i, i + 7) == "serial="@);
            assert(s[k] == s.subrange(i, i + 7)[6]);
            assert(s[i + 5] == s.subrange(i, i + 7)[5]);
            assert("serial="@[5] == 'l');
            assert(s[k - 1] == 'l');
            if ends_before(s, k, "vid"@) {
                assert(s[k - 1] == s.subrange(k - 3, k)[2]);
            }
            if ends_before(s, k, "pid"@) {
                assert(s[k - 1] == s.subrange(k - 3, k)[2]);
            }
        }
    }
}

/// The query parts of a filter, in order.
spec fn filter_parts(f: UsbDeviceFilter) -> Seq<Seq<char>> {
    query_param("vid"@, f.vid) + query_param("pid"@, f.pid) + query_param("serial"@, f.serial)
}

proof fn lemma_parts_follow(f: UsbDeviceFilter)
    ensures
        forall|i: int| 0 <= i < filter_parts(f).len() ==> eqs_follow_keys(
            #[trigger] filter_parts(f)[i],
            f.vid is Some,
            f.pid is Some,
            f.serial is Some,
        ),
{
    let v = f.vid is Some;
    let p = f.pid is Some;
    let sr = f.serial is Some;
    let qv = query_param("vid"@, f.vid);
    let qp = query_param("pid"@, f.pid);
    let qs = query_param("serial"@, f.serial);
    let parts = filter_parts(f);
    assert forall|i: int| 0 <= i < parts.len() implies eqs_follow_keys(#[trigger] parts[i], v, p, sr) by {
        if i < qv.len() {
            assert(parts[i] == qv[i]);
            lemma_param_follows("vid"@, encode_utf8(f.vid->0@), v, p, sr);
        } else if i < qv.len() + qp.len() {
            assert(parts[i] == qp[i - qv.len()]);
            lemma_param_follows("pid"@, encode_utf8(f.pid->0@), v, p, sr);
        } else {
            assert(parts[i] == qs[i - qv.len() - qp.len()]);
            lemma_param_follows("serial"@, encode_utf8(f.serial->0@), v, p, sr);
        }
    }
}

proof fn lemma_path_keys(f: UsbDeviceFilter)
    ensures
        eqs_follow_keys(usb_devices_path(f), f.vid is Some, f.pid is Some, f.serial is Some),
        starts_with(usb_devices_path(f), "/usb/devices"@),
        filter_parts(f).len() == 0 ==> usb_devices_path(f) == "/usb/devices"@,
        filter_parts(f).len() > 0 ==> usb_devices_path(f) == "/usb/devices?"@ + joined(filter_parts(f), "&"@),
{
    reveal_strlit("/usb/devices");
    reveal_strlit("/usb/devices?");
    let v = f.vid is Some;
    let p = f.pid is Some;
    let sr = f.serial is Some;
    let parts = filter_parts(f);
    let path = usb_devices_path(f);
    lemma_parts_follow(f);
    if parts.len() == 0 {
        assert(path.take("/usb/devices"@.len() as int) =~= "/usb/devices"@);
        assert(eqs_follow_keys(path, v, p, sr));
    } else {
        let pre = "/usb/devices?"@;
        let q = joined(parts, "&"@);
        assert(path.take("/usb/devices"@.len() as int) =~= "/usb/devices"@);
        lemma_joined_follows(parts, v, p, sr);
        assert(eqs_follow_keys(pre, v, p, sr));
        lemma_eqs_concat(pre, q, v, p, sr);
    }
}

proof fn lemma_path_has_part(f: UsbDeviceFilter, i: int)
    requires
        0 <= i < filter_parts(f).len(),
    ensures
        contains(usb_devices_path(f), filter_parts(f)[i]),
{
    reveal_strlit("vid");
    reveal_strlit("pid");
    reveal_strlit("serial");
    reveal_strlit("=");
    lemma_path_keys(f);
    let parts = filter_parts(f);
    let path = usb_devices_path(f);
    let pre = "/usb/devices?"@;
    let q = joined(parts, "&"@);
    crate::text::lemma_joined_has_piece(parts, "&"@, i);
    let off = choose|off: int| crate::text::occurs_at(q, parts[i], off);
    assert(path.subrange(pre.len() + off, pre.len() + off + parts[i].len()) =~= q.subrange(
        off,
        off + parts[i].len(),
    ));
    assert(crate::text::occurs_at(path, parts[i], pre.len() + off));
    assert(parts[i].len() > 0);
    crate::text::lemma_contains_iff(path, parts[i]);
}

/// Each filter that is set reaches the query of the device listing under
/// its own key, percent-encoded (`vid=..`, `pid=..`, `serial=..`), and a
/// filter that is not set does not appear at all; with no filter the path
/// is the bare listing.
pub proof fn law_usb_device_filters_reach_the_query(f: UsbDeviceFilter)
    ensures
        starts_with(usb_devices_path(f), "/usb/devices"@),
        (f.vid is None && f.pid is None && f.serial is None) ==> usb_devices_path(f) == "/usb/devices"@,
        f.vid matches Some(x) ==> contains(usb_devices_path(f), "vid="@ + pct_of(encode_utf8(x@))),
        f.pid matches Some(x) ==> contains(usb_devices_path(f), "pid="@ + pct_of(encode_utf8(x@))),
        f.serial matches Some(x) ==> contains(usb_devices_path(f), "serial="@ + pct_of(encode_utf8(x@))),
        f.vid is None ==> !contains(usb_devices_path(f), "vid="@),
        f.pid is None ==> !contains(usb_devices_path(f), "pid="@),
        f.serial is None ==> !contains(usb_devices_path(f), "serial="@),
{
    reveal_strlit("vid");
    reveal_strlit("pid");
    reveal_strlit("serial");
    reveal_strlit("=");
    reveal_strlit("vid=");
    reveal_strlit("pid=");
    reveal_strlit("serial=");
    let qv = query_param("vid"@, f.vid);
    let qp = query_param("pid"@, f.pid);
    let parts = filter_parts(f);
    lemma_path_keys(f);
    if let Some(x) = f.vid {
        lemma_path_has_part(f, 0);
        assert(parts[0] =~= "vid="@ + pct_of(encode_utf8(x@)));
    }
    if let Some(x) = f.pid {
        lemma_path_has_part(f, qv.len() as int);
        assert(parts[qv.len() as int] =~= "pid="@ + pct_of(encode_utf8(x@)));
    }
    if let Some(x) = f.serial {
        lemma_path_has_part(f, (qv.len() + qp.len()) as int);
        assert(parts[(qv.len() + qp.len()) as int] =~= "serial="@ + pct_of(encode_utf8(x@)));
    }
    lemma_no_disabled_key(usb_devices_path(f), f.vid is Some, f.pid is Some, f.serial is Some);
}

/// Parse a `GET /usb/devices` reply: 404 means the box predates the
/// endpoint; otherwise the envelope (or the error decoding it) is
/// interpreted and its top-level `devices` list returned for decoding.
pub fn parse_usb_devices(status: u16, envelope: Result<CommandResponse>) -> (r: Result<Json>)
    ensures
        status == 404 ==> (r matches Err(Error::UnsupportedByBox { message }) && message@
            == "this box does not serve GET /usb/devices (requires box software >= 0.33.0)"@),
        status != 404 ==> match envelope {
            Err(e) => r == Err::<Json, Error>(e),
            Ok(resp) => if status == 200 && resp.success {
                match crate::json::entry_value(resp.extra@, "devices"@) {
                    Some(d) => r == Ok::<Json, Error>(d),
                    None => r matches Err(Error::Decode(m)) && m@
                        == "response has no 'devices' list"@,
                }
            } else {
                (r matches Err(e) && is_command_error(e, status, resp))
            },
        },
{
    if status == 404 {
        return Err(usb_devices_unsupported());
    }
    let resp = match envelope {
        Err(e) => return Err(e),
        Ok(resp) => resp,
    };
    let resp = match parse_command(status, resp) {
        Err(e) => return Err(e),
        Ok(r) => r,
    };
    match take_member(Json::Object(resp.extra), "devices") {
        Some(d) => Ok(d),
        None => Err(Error::Decode(String::from_str("response has no 'devices' list"))),
    }
}

// ---------------------------------------------------------------------------
// Box lock / reservation (GET/POST /lock, /lock/heartbeat, /unlock)
// ---------------------------------------------------------------------------

/// Build a `GET /lock` request.
pub fn lock_status() -> (r: HttpRequest)
    ensures
        r.method == Method::Get,
        r.path@ == "/lock"@,
        r.body is None,
        r.timeout == Timeout::Default,
{
    get("/lock")
}

/// `j` is the JSON value of an optional non-negative integer.
pub open spec fn is_opt_uint(j: Json, n: Option<u64>) -> bool {
    match n {
        Some(x) => crate::json::is_uint(j, x as nat),
        None => j == Json::Null,
    }
}

/// Build a `POST /lock` request. `ttl_seconds: None` sends JSON `null`
/// (an eternal lock).
pub fn lock_acquire(user: &str, holder_type: &str, ttl_seconds: Option<u64>) -> (r: HttpRequest)
    ensures
        r.method == Method::Post,
        r.path@ == "/lock"@,
        r.timeout == Timeout::Default,
        r.body matches Some(b) && member_str(b, "user"@) == Some(user@) && member_str(
            b,
            "holder_type"@,
        ) == Some(holder_type@) && (member(b, "ttl_seconds"@) matches Some(t) && is_opt_uint(
            t,
            ttl_seconds,
        )) && keyed(b, set!["user"@, "holder_type"@, "ttl_seconds"@]),
{
    proof {
        reveal_strlit("user");
        reveal_strlit("holder_type");
        reveal_strlit("ttl_seconds");
    }
    assert("user"@.len() == 4 && "holder_type"@.len() == 11 && "ttl_seconds"@.len() == 11);
    assert("holder_type"@[0] != "ttl_seconds"@[0]);
    let ttl = match ttl_seconds {
        Some(t) => Json::uint(t),
        None => Json::Null,
    };
    let b0 = Json::empty_object();
    let b1 = with_member(b0, "user", Json::str_of(user));
    let b2 = with_member(b1, "holder_type", Json::str_of(holder_type));
    let b = with_member(b2, "ttl_seconds", ttl);
    assert(member(b, "user"@) == member(b1, "user"@));
    assert(member(b, "holder_type"@) == member(b2, "holder_type"@));
    assert(set!["user"@, "holder_type"@, "ttl_seconds"@] =~= Set::<Seq<char>>::empty().insert(
        "user"@,
    ).insert("holder_type"@).insert("ttl_seconds"@));
    HttpRequest {
        method: Method::Post,
        path: String::from_str("/lock"),
        body: Some(b),
        timeout: Timeout::Default,
    }
}

/// Build a `POST /lock/heartbeat` request.
pub fn lock_heartbeat(user: &str) -> (r: HttpRequest)
    ensures
        r.method == Method::Post,
        r.path@ == "/lock/heartbeat"@,
        r.timeout == Timeout::Default,
        r.body matches Some(b) && member_str(b, "user"@) == Some(user@) && keyed(b, set!["user"@]),
{
    let b = with_member(Json::empty_object(), "user", Json::str_of(user));
    assert(set!["user"@] =~= Set::<Seq<char>>::empty().insert("user"@));
    HttpRequest {
        method: Method::Post,
        path: String::from_str("/lock/heartbeat"),
        body: Some(b),
        timeout: Timeout::Default,
    }
}

/// Build a `POST /unlock` request.
pub fn unlock(user: &str, force: bool) -> (r: HttpRequest)
    ensures
        r.method == Method::Post,
        r.path@ == "/unlock"@,
        r.timeout == Timeout::Default,
        r.body matches Some(b) && member_str(b, "user"@) == Some(user@) && member(b, "force"@)
            == Some(Json::Bool(force)) && keyed(b, set!["user"@, "force"@]),
{
    proof {
        reveal_strlit("user");
        reveal_strlit("force");
    }
    assert("user"@.len() == 4 && "force"@.len() == 5);
    let b1 = with_member(Json::empty_object(), "user", Json::str_of(user));
    let b = with_member(b1, "force", Json::Bool(force));
    assert(member(b, "user"@) == member(b1, "user"@));
    assert(set!["user"@, "force"@] =~= Set::<Seq<char>>::empty().insert("user"@).insert(
        "force"@,
    ));
    HttpRequest {
        method: Method::Post,
        path: String::from_str("/unlock"),
        body: Some(b),
        timeout: Timeout::Default,
    }
}

/// The message of a failed discovery request: its `error`, else a generic
/// text.
pub open spec fn get_failure_text(body: Json) -> Seq<char> {
    match member_str(body, "error"@) {
        Some(m) => m,
        None => "request failed"@,
    }
}

/// Interpret the reply to a plain GET (nets list, health, status): the
/// body on 200, else a box error carrying the body's `error` text.
pub fn parse_get(status: u16, body: Json) -> (r: Result<Json>)
    ensures
        r is Ok <==> status == 200,
        r matches Ok(b) ==> b == body,
        r matches Err(e) ==> e matches Error::Box { status: s, message } && s == status
            && message@ == get_failure_text(body),
{
    if status == 200 {
        return Ok(body);
    }
    let message = match body.get_str("error") {
        Some(m) => String::from_str(m),
        None => String::from_str("request failed"),
    };
    Err(Error::Box { status, message })
}

/// The message of a refused lock request: its `error`, else a generic
/// text.
pub open spec fn lock_failure_text(body: Json) -> Seq<char> {
    match member_str(body, "error"@) {
        Some(m) => m,
        None => "lock request failed"@,
    }
}

/// Interpret a `/lock` family reply. These endpoints return the raw lock
/// state on 200 (handed back for decoding) and `{"error": ..., "lock":
/// {...}}` on contention (409 acquire, 403 heartbeat/unlock, 404 heartbeat
/// on an unlocked box).
pub fn parse_lock(status: u16, body: Json) -> (r: Result<Json>)
    ensures
        r is Ok <==> status == 200,
        r matches Ok(b) ==> b == body,
        r matches Err(e) ==> e matches Error::Box { status: s, message } && s == status
            && message@ == lock_failure_text(body),
{
    if status == 200 {
        return Ok(body);
    }
    let message = match body.get_str("error") {
        Some(m) => String::from_str(m),
        None => String::from_str("lock request failed"),
    };
    Err(Error::Box { status, message })
}

// ---------------------------------------------------------------------------
// Live net state (GET /nets/state)
// ---------------------------------------------------------------------------

/// A reply from a box that has no such route: a 404 whose body is not JSON.
pub open spec fn route_missing_reply(status: u16, body: Json) -> bool {
    status == 404 && body == Json::Null
}

/// The error for a box that does not serve `GET /nets/state`.
pub fn nets_state_unsupported() -> (e: Error)
    ensures
        e matches Error::UnsupportedByBox { message } && message@
            == "this box does not serve GET /nets/state (requires box software >= 0.34.0)"@,
{
    Error::UnsupportedByBox {
        message: String::from_str(
            "this box does not serve GET /nets/state (requires box software >= 0.34.0)",
        ),
    }
}

/// Interpret a `GET /nets/state` reply: the list of per-net states on 200
/// (handed back for decoding), "unsupported" for a box without the route,
/// else a box error carrying the body's `error` text.
pub fn parse_nets_state(status: u16, body: Json) -> (r: Result<Json>)
    ensures
        status == 200 ==> r == Ok::<Json, Error>(body),
        status != 200 && route_missing_reply(status, body) ==> (r matches Err(
            Error::UnsupportedByBox { message },
        ) && message@ == "this box does not serve GET /nets/state (requires box software >= 0.34.0)"@),
        status != 200 && !route_missing_reply(status, body) ==> (r matches Err(
            Error::Box { status: s, message },
        ) && s == status && message@ == get_failure_text(body)),
{
    if status == 200 {
        return Ok(body);
    }
    if status == 404 && matches!(body, Json::Null) {
        return Err(nets_state_unsupported());
    }
    parse_get(status, body)
}

// ---------------------------------------------------------------------------
// Per-net safety limits (PUT /nets/<name>/safety-limits)
// ---------------------------------------------------------------------------

/// `/nets/<name>/safety-limits`.
pub open spec fn safety_limits_path(name: Seq<char>) -> Seq<char> {
    "/nets/"@ + name + "/safety-limits"@
}

/// Build the `PUT` that replaces a net's whole safety-limits record with
/// `limits` (an object of the set ceilings; `{}` clears them).
pub fn safety_limits_request(name: &str, limits: Json) -> (r: HttpRequest)
    ensures
        r.method == Method::Put,
        r.path@ == safety_limits_path(name@),
        r.body == Some(limits),
        r.timeout == Timeout::Default,
{
    let mut path = String::from_str("/nets/");
    path.append(name);
    path.append("/safety-limits");
    HttpRequest { method: Method::Put, path, body: Some(limits), timeout: Timeout::Default }
}

/// The error for a box that does not serve the safety-limits route.
pub fn safety_limits_unsupported() -> (e: Error)
    ensures
        e matches Error::UnsupportedByBox { message } && message@
            == "this box does not serve PUT /nets/<name>/safety-limits (requires box software >= 0.35.0)"@,
{
    Error::UnsupportedByBox {
        message: String::from_str(
            "this box does not serve PUT /nets/<name>/safety-limits (requires box software >= 0.35.0)",
        ),
    }
}

/// A limits value as the library reports it: absent and `null` both mean
/// "unrestricted".
pub open spec fn limits_of(v: Option<Json>) -> Option<Json> {
    match v {
        Some(Json::Null) => None,
        Some(x) => Some(x),
        None => None,
    }
}

fn present(v: Option<Json>) -> (r: Option<Json>)
    ensures
        r == limits_of(v),
{
    match v {
        Some(Json::Null) => None,
        other => other,
    }
}

/// Interpret the reply to a safety-limits `PUT`: the limits the box stored
/// (its `safety_limits` echo; `None` once cleared) on 200, "unsupported"
/// for a box without the route, else the box's refusal verbatim.
pub fn parse_safety_limits(status: u16, body: Json) -> (r: Result<Option<Json>>)
    ensures
        status == 200 ==> r == Ok::<Option<Json>, Error>(limits_of(member(body, "safety_limits"@))),
        status != 200 && route_missing_reply(status, body) ==> (r matches Err(
            Error::UnsupportedByBox { message },
        ) && message@
            == "this box does not serve PUT /nets/<name>/safety-limits (requires box software >= 0.35.0)"@),
        status != 200 && !route_missing_reply(status, body) ==> (r matches Err(
            Error::Box { status: s, message },
        ) && s == status && message@ == get_failure_text(body)),
{
    if status == 200 {
        return Ok(present(take_member(body, "safety_limits")));
    }
    if status == 404 && matches!(body, Json::Null) {
        return Err(safety_limits_unsupported());
    }
    match parse_get(status, body) {
        Err(e) => Err(e),
        Ok(_) => Ok(None),
    }
}

/// The first record named `name` in a raw nets list.
pub open spec fn first_named(records: Seq<Json>, name: Seq<char>) -> Option<Json>
    decreases records.len(),
{
    if records.len() == 0 {
        None
    } else if member_str(records[0], "name"@) == Some(name) {
        Some(records[0])
    } else {
        first_named(records.drop_first(), name)
    }
}

/// Read a net's safety limits back from a raw nets list: the `safety_limits`
/// of the first record with that name (`None` when it has none: the net
/// is unrestricted), or a 404 box error when no net has that name.
pub fn find_safety_limits(records: Vec<Json>, name: &str) -> (r: Result<Option<Json>>)
    ensures
        match first_named(records@, name@) {
            Some(rec) => r == Ok::<Option<Json>, Error>(limits_of(member(rec, "safety_limits"@))),
            None => r matches Err(Error::Box { status, message }) && status == 404 && message@
                == "no saved net named '"@ + name@ + "'"@,
        },
{
    let mut i: usize = 0;
    assert(records@.skip(0) =~= records@);
    while i < records.len()
        invariant
            i <= records@.len(),
            first_named(records@, name@) == first_named(records@.skip(i as int), name@),
        decreases records@.len() - i,
    {
        assert(records@.skip(i as int)[0] == records@[i as int]);
        assert(records@.skip(i as int).drop_first() =~= records@.skip(i + 1));
        let named = match records[i].get_str("name") {
            Some(n) => crate::json::string_eq(&String::from_str(n), name),
            None => false,
        };
        if named {
            assert(first_named(records@, name@) == Some(records@[i as int]));
            let mut v = records;
            let rec = v.remove(i);
            return Ok(present(take_member(rec, "safety_limits")));
        }
        i = i + 1;
    }
    assert(records@.skip(i as int) =~= Seq::<Json>::empty());
    let mut m = String::from_str("no saved net named '");
    m.append(name);
    m.append("'");
    Err(Error::Box { status: 404, message: m })
}

} // verus!

verus! {

// ---------------------------------------------------------------------------
// Response records (decoded from the JSON bodies by the transports)
// ---------------------------------------------------------------------------

/// GDB-server sub-object of a [`DebugConnection`].
#[derive(Debug)]
pub struct GdbServer {
    /// Server state, e.g. `"started"` or `"already_running"`.
    pub status: Option<String>,
    /// GDB protocol port.
    pub gdb_port: Option<i64>,
    /// SWO output port (J-Link only).
    pub swo_port: Option<i64>,
    /// Telnet I/O port.
    pub telnet_port: Option<i64>,
    /// TCL/RPC port (OpenOCD only).
    pub tcl_port: Option<i64>,
    /// RTT telnet port.
    pub rtt_telnet_port: Option<i64>,
    /// Server process id.
    pub pid: Option<i64>,
}

/// Result of a debug `connect`.
#[derive(Debug)]
pub struct DebugConnection {
    /// Connection status, e.g. `"connected"`.
    pub status: Option<String>,
    /// Resolved device/target type.
    pub device: Option<String>,
    /// Probe instrument name.
    pub probe: Option<String>,
    /// Probe serial.
    pub serial: Option<String>,
    /// Debug backend that started (`"jlink"` or `"openocd"`).
    pub backend: Option<String>,
    /// Human-readable message.
    pub message: Option<String>,
    /// Backend process id.
    pub pid: Option<i64>,
    /// GDB-server details, if a server was started.
    pub gdb_server: Option<GdbServer>,
}

/// Result of a debug `info` query.
#[derive(Debug)]
pub struct DebugInfo {
    /// Net name.
    pub net_name: Option<String>,
    /// Resolved device/target type.
    pub device: Option<String>,
    /// Target architecture.
    pub arch: Option<String>,
    /// Probe instrument name.
    pub probe: Option<String>,
    /// Probe serial.
    pub serial: Option<String>,
    /// Debug backend (`"jlink"` or `"openocd"`).
    pub backend: Option<String>,
    /// Whether a gdbserver/daemon is currently running for this probe.
    pub connected: bool,
}

/// Result of a debug `status` query.
#[derive(Debug)]
pub struct DebugStatus {
    /// Whether a gdbserver/daemon is currently running for this probe.
    pub connected: bool,
    /// Backend process id, when connected.
    pub pid: Option<i64>,
    /// Probe serial.
    pub serial: Option<String>,
    /// Debug backend (`"jlink"` or `"openocd"`).
    pub backend: Option<String>,
}

/// One saved-net record from `GET /nets/list`.
#[derive(Debug)]
pub struct NetRecord {
    /// Net name, e.g. `"supply1"`.
    pub name: String,
    /// Role string, e.g. `"power-supply"`, `"gpio"`, `"adc"`.
    pub role: String,
    /// Instrument backing this net.
    pub instrument: Option<String>,
    /// Pin / channel identifier (number or string depending on role).
    pub pin: Option<Json>,
    /// Channel (multi-channel instruments).
    pub channel: Option<Json>,
    /// VISA or device address.
    pub address: Option<String>,
    /// Role-specific saved parameters.
    pub params: Option<Vec<(String, Json)>>,
    /// Everything else in the record.
    pub extra: Vec<(String, Json)>,
}

/// Response of `GET /health`.
#[derive(Debug)]
pub struct Health {
    /// `"healthy"` when the box HTTP server is up.
    pub status: String,
    /// Service identifier.
    pub service: Option<String>,
    /// Service version string.
    pub version: Option<String>,
}

/// One net summary inside [`BoxStatus`].
#[derive(Debug)]
pub struct NetSummary {
    /// Net name.
    pub name: String,
    /// Net type name (e.g. `"PowerSupply"`, `"GPIO"`).
    pub net_type: String,
}

/// Capabilities advertised by the box in `GET /status`.
#[derive(Debug)]
pub struct BoxCapabilities {
    /// Whether the box serves `POST /net/command`.
    pub net_command: bool,
    /// Roles served by `POST /net/command` on this box.
    pub net_command_roles: Vec<String>,
    /// Whether the box serves `POST /ble/command`.
    pub ble_command: bool,
    /// Whether the box serves `POST /wifi/command`.
    pub wifi_command: bool,
    /// Whether the box serves `POST /blufi/command`.
    pub blufi_command: bool,
    /// Whether the box serves the `/custom-devices/*` endpoints.
    pub custom_devices: bool,
    /// Whether the box serves `/binaries/*` and `/download-file`.
    pub binaries: bool,
    /// Whether the box serves `PUT /nets/<name>/safety-limits`.
    pub safety_limits: bool,
}

impl Default for BoxCapabilities {
    fn default() -> (c: Self)
        ensures
            !c.net_command && c.net_command_roles@.len() == 0 && !c.ble_command
                && !c.wifi_command && !c.blufi_command && !c.custom_devices && !c.binaries
                && !c.safety_limits,
    {
        BoxCapabilities {
            net_command: false,
            net_command_roles: Vec::new(),
            ble_command: false,
            wifi_command: false,
            blufi_command: false,
            custom_devices: false,
            binaries: false,
            safety_limits: false,
        }
    }
}

/// Response of `GET /status`.
#[derive(Debug)]
pub struct BoxStatus {
    /// Whether the box reports itself healthy.
    pub healthy: bool,
    /// Box software version.
    pub version: String,
    /// Configured nets (name + type only).
    pub nets: Vec<NetSummary>,
    /// Endpoint capabilities.
    pub capabilities: BoxCapabilities,
}

/// Result of starting a webcam stream (`start` action).
#[derive(Debug)]
pub struct WebcamStream {
    /// MJPEG stream URL viewers should open.
    pub url: String,
    /// TCP port the stream is served on.
    pub port: Option<i64>,
    /// `true` when a stream was already up and the box reused it.
    pub already_running: bool,
}

/// Current state of a webcam stream (`status`/`url` actions).
#[derive(Debug)]
pub struct WebcamStatus {
    /// Whether a stream is currently running for this net.
    pub running: bool,
    /// Stream URL, when running.
    pub url: Option<String>,
    /// Stream TCP port, when running.
    pub port: Option<i64>,
    /// Backing video device, when running.
    pub video_device: Option<String>,
}

/// System information for a router net (`system_info` action).
#[derive(Debug)]
pub struct RouterSystemInfo {
    /// Router identity name.
    pub name: Option<String>,
    /// RouterOS version.
    pub version: Option<String>,
    /// Board model.
    pub board: Option<String>,
    /// CPU architecture.
    pub architecture: Option<String>,
    /// Uptime string, e.g. `"1w2d3h"`.
    pub uptime: Option<String>,
    /// CPU load (%).
    pub cpu_load: Option<i64>,
    /// Free RAM (bytes).
    pub free_memory: Option<i64>,
    /// Total RAM (bytes).
    pub total_memory: Option<i64>,
    /// Free storage (bytes).
    pub free_hdd_space: Option<i64>,
    /// Any extra fields.
    pub extra: Vec<(String, Json)>,
}

/// One device found by a BLE or BluFi scan.
#[derive(Debug)]
pub struct BleDevice {
    /// Advertised name (falls back to the address when unnamed).
    pub name: String,
    /// BLE MAC address, `XX:XX:XX:XX:XX:XX`.
    pub address: String,
    /// Signal strength (dBm).
    pub rssi: Option<i64>,
    /// Advertised service UUIDs.
    pub uuids: Vec<String>,
}

/// One GATT characteristic inside a [`BleService`].
#[derive(Debug)]
pub struct BleCharacteristic {
    /// Characteristic UUID.
    pub uuid: String,
    /// Human-readable description, when known.
    pub description: Option<String>,
    /// Supported operations, e.g. `["read", "notify"]`.
    pub properties: Vec<String>,
}

/// One GATT service enumerated from a connected BLE device.
#[derive(Debug)]
pub struct BleService {
    /// Service UUID.
    pub uuid: String,
    /// Human-readable description, when known.
    pub description: Option<String>,
    /// Characteristics under this service.
    pub characteristics: Vec<BleCharacteristic>,
}

/// Result of a BLE `info`/`connect`: the device's GATT database.
#[derive(Debug)]
pub struct BleDeviceInfo {
    /// Device address.
    pub address: String,
    /// Whether the box reached the device.
    pub connected: bool,
    /// Enumerated GATT services.
    pub services: Vec<BleService>,
}

/// Status of one wireless interface on the box (`wifi status`).
#[derive(Debug)]
pub struct WifiInterface {
    /// Interface name, e.g. `"wlan0"`.
    pub interface: String,
    /// Connected SSID, or a placeholder like `"Not Connected"`.
    pub ssid: String,
    /// Connection state, e.g. `"Connected"` / `"Disconnected"`.
    pub state: String,
}

/// One access point found by a box-side WiFi scan.
#[derive(Debug)]
pub struct WifiAccessPoint {
    /// Network SSID (`"Hidden"` for hidden networks).
    pub ssid: Option<String>,
    /// BSSID / AP MAC address.
    pub address: Option<String>,
    /// Signal strength (approximate %, 0-100).
    pub strength: Option<i64>,
    /// `"Open"` or `"Secured"`.
    pub security: Option<String>,
}

/// Result of connecting the box to a WiFi network.
#[derive(Debug)]
pub struct WifiConnection {
    /// SSID the box joined.
    pub ssid: String,
    /// Whether the connection succeeded.
    pub connected: bool,
    /// Interface used, e.g. `"wlan0"`.
    pub interface: Option<String>,
    /// Connection method, e.g. `"nmcli"` or `"wpa_supplicant"`.
    pub method: Option<String>,
}

/// WiFi state reported by a BluFi target device. Codes follow the ESP32
/// BluFi protocol.
#[derive(Debug)]
pub struct BlufiStatus {
    /// Target device name echo.
    pub device_name: Option<String>,
    /// Operation mode code (0 NULL, 1 STA, 2 SoftAP, 3 STA+SoftAP).
    pub op_mode: Option<i64>,
    /// Human-readable operation mode.
    pub op_mode_name: Option<String>,
    /// Station connection code (0 connected, 1 failed, 2 connecting, 3 no IP).
    pub sta_conn: Option<i64>,
    /// Human-readable station connection state.
    pub sta_conn_name: Option<String>,
    /// SoftAP connection count/state code.
    pub soft_ap_conn: Option<i64>,
}

/// Result of a BluFi `connect`: firmware version plus WiFi state.
#[derive(Debug)]
pub struct BlufiDeviceInfo {
    /// Target firmware version, when the device reports one.
    pub version: Option<String>,
    /// WiFi state of the target.
    pub status: BlufiStatus,
}

/// Result of a BluFi `provision`.
#[derive(Debug)]
pub struct BlufiProvisionResult {
    /// Target device name echo.
    pub device_name: Option<String>,
    /// SSID the target was provisioned onto.
    pub ssid: String,
    /// Station connection code after provisioning (0 = connected).
    pub sta_conn: Option<i64>,
    /// Human-readable station connection state.
    pub sta_conn_name: Option<String>,
}

/// One network seen by a BluFi target's own WiFi scan.
#[derive(Debug)]
pub struct BlufiNetwork {
    /// Network SSID.
    pub ssid: String,
    /// Signal strength at the target (dBm).
    pub rssi: Option<i64>,
}

/// One USB device on the box's bus, read from sysfs by `GET /usb/devices`.
#[derive(Debug)]
pub struct UsbDeviceInfo {
    /// sysfs entry name, e.g. `"1-1.4"`.
    pub sysfs_name: String,
    /// Vendor id, lowercase hex.
    pub vid: Option<String>,
    /// Product id, lowercase hex.
    pub pid: Option<String>,
    /// iSerial descriptor.
    pub serial: Option<String>,
    /// Product descriptor string.
    pub product: Option<String>,
    /// Manufacturer descriptor string.
    pub manufacturer: Option<String>,
    /// Bus number.
    pub busnum: Option<String>,
    /// Device number on the bus (changes on re-enumeration).
    pub devnum: Option<String>,
    /// Hub port path, e.g. `"1.4"`.
    pub devpath: Option<String>,
    /// bDeviceClass, hex.
    pub device_class: Option<String>,
    /// Negotiated speed in Mbps.
    pub speed: Option<String>,
}

/// One device reported by `dfu-util -l`.
#[derive(Debug)]
pub struct DfuDevice {
    /// `"DFU"` (in DFU mode) or `"Runtime"` (app running, DFU-capable).
    pub mode: String,
    /// Vendor id, lowercase hex.
    pub vid: String,
    /// Product id, lowercase hex.
    pub pid: String,
    /// Device number on the bus.
    pub devnum: Option<i64>,
    /// Configuration index.
    pub cfg: Option<i64>,
    /// Interface index.
    pub intf: Option<i64>,
    /// Alternate setting index.
    pub alt: Option<i64>,
    /// Interface name.
    pub name: Option<String>,
    /// Device serial.
    pub serial: Option<String>,
    /// Hub port path, e.g. `"1-1.4"`.
    pub path: Option<String>,
}

/// Captured output of one box-side `dfu-util` run.
#[derive(Debug)]
pub struct DfuOutput {
    /// dfu-util exit code (0 on the success envelope).
    pub exit_code: Option<i64>,
    /// Captured stdout.
    pub stdout: String,
    /// Captured stderr (dfu-util writes progress here).
    pub stderr: String,
}

/// Box lock state, as returned by the `/lock` family of endpoints.
/// `locked: false` with everything else `None` means the box is free.
#[derive(Debug)]
pub struct BoxLock {
    /// Whether the box is currently locked.
    pub locked: bool,
    /// Lock holder.
    pub user: Option<String>,
    /// Holder classification (`"user"`, `"ci"`, `"ephemeral"`, ...).
    pub holder_type: Option<String>,
    /// When the lock was acquired (ISO 8601 UTC).
    pub locked_at: Option<String>,
    /// Last heartbeat (ISO 8601 UTC).
    pub last_heartbeat: Option<String>,
    /// Lock TTL in seconds; `None` means the lock never auto-expires.
    pub ttl_seconds: Option<i64>,
    /// On acquire: the holder before this call (`None` when the box was
    /// free).
    pub previous_user: Option<String>,
}

/// Brief live state of one saved net, from `GET /nets/state`.
#[derive(Debug)]
pub struct NetState {
    /// Net name.
    pub name: String,
    /// Role string, e.g. `"usb"`, `"power-supply"`.
    pub role: String,
    /// Short live state (`"enabled"`, `"3.300V, ON"`), or `None` when the
    /// net could not be read.
    pub state: Option<String>,
    /// Why the state is missing (slow, wedged or absent instrument, or no
    /// live-state probe for the role).
    pub reason: Option<String>,
    /// Machine-readable form of `reason`, when the box gives one.
    pub reason_code: Option<String>,
}

} // verus!
