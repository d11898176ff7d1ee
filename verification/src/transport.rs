//! The decisions of one request/response exchange with the box, apart from
//! the I/O that carries it: how a round trip's outcome becomes a reply or
//! an error, and how a gateway denial is answered (learn the auth server,
//! resolve a fresh token, retry once). The blocking and async transports
//! perform the sends and token lookups these functions ask for.

use vstd::prelude::*;
use vstd::string::StringExecFns;
use crate::auth::{denial_error, is_denial, is_denial_error, GatewayAuth, GatewayAuthView};
use crate::error::{Error, Result};
use crate::json::Json;
use crate::text::{
    chars_of, contains, contains_chars, decimal, decimal_chars, extend_chars, lower_all,
    lower_chars, string_of,
};
use crate::wire::{debug_failure_text, parse_debug, Timeout};

verus! {

/// A body that could not be read as JSON.
#[derive(Debug)]
pub struct BodyError {
    /// The reader's error text.
    pub message: String,
    /// Whether reading the body timed out.
    pub timed_out: bool,
}

/// How one HTTP round trip ended, as plain values.
#[derive(Debug)]
pub enum RoundTrip {
    /// No response arrived (DNS, connect, transport failure).
    Failed {
        /// The transport's error text.
        message: String,
        /// Whether the failure was a timeout.
        timed_out: bool,
    },
    /// A response arrived.
    Response {
        /// HTTP status code.
        status: u16,
        /// The gateway discovery header's value, if the response carried one.
        discovery: Option<String>,
        /// The parsed JSON body, or why it could not be parsed.
        body: core::result::Result<Json, BodyError>,
    },
}

/// One response as the exchange sees it.
#[derive(Debug)]
pub struct Reply {
    /// HTTP status code.
    pub status: u16,
    /// The auth server URL of a gateway denial (401/403/503 carrying the
    /// discovery header); `None` for any other response.
    pub gateway: Option<String>,
    /// The JSON body (`null` for an error response without one).
    pub body: Json,
}

/// A transport error text that reports a timeout (it mentions "timed
/// out" or "timeout", in any case).
pub open spec fn mentions_timeout(message: Seq<char>) -> bool {
    contains(lower_all(message), "timed out"@) || contains(lower_all(message), "timeout"@)
}

/// Whether a transport error text reports a timeout.
pub fn transport_timed_out(message: &str) -> (b: bool)
    ensures
        b == mentions_timeout(message@),
{
    let low = lower_chars(chars_of(message).as_slice());
    contains_chars(low.as_slice(), chars_of("timed out").as_slice()) || contains_chars(
        low.as_slice(),
        chars_of("timeout").as_slice(),
    )
}

/// The client-side timeout a request runs with, in milliseconds (`None`:
/// no limit), given the client's default.
pub fn effective_timeout(t: Timeout, default_ms: u64) -> (r: Option<u64>)
    ensures
        r == (match t {
            Timeout::Default => Some(default_ms),
            Timeout::After(ms) => Some(ms),
            Timeout::Unbounded => None,
        }),
{
    match t {
        Timeout::Default => Some(default_ms),
        Timeout::After(ms) => Some(ms),
        Timeout::Unbounded => None,
    }
}

/// The full URL of a request path against a base URL.
pub fn request_url(base: &str, path: &str) -> (u: String)
    ensures
        u@ == base@ + path@,
{
    let mut u = String::from_str(base);
    u.append(path);
    u
}

/// The `Authorization` header value for a bearer token.
pub fn bearer_header(token: &str) -> (h: String)
    ensures
        h@ == "Bearer "@ + token@,
{
    let mut h = String::from_str("Bearer ");
    h.append(token);
    h
}

/// `"HTTP <status> (non-JSON body)"`.
pub open spec fn bodiless_text(status: u16) -> Seq<char> {
    "HTTP "@ + decimal(status as nat) + " (non-JSON body)"@
}

/// The auth URL a response with this status and discovery header counts
/// as a gateway denial for.
pub open spec fn gateway_of(status: u16, discovery: Option<String>) -> Option<String> {
    if status == 401 || status == 403 || status == 503 {
        discovery
    } else {
        None
    }
}

/// Turn one round trip into a reply or an error.
///
/// A failed transport is a timeout or a connection error. A body that is
/// not JSON is a decode error on a success status and `null` on an error
/// status (gateway denials may carry no body); a body read that timed out
/// is a timeout. With `reject_bodiless_errors`, an error status with no
/// JSON body and no gateway header is a box error of its own.
pub fn read_reply(trip: RoundTrip, reject_bodiless_errors: bool) -> (r: Result<Reply>)
    ensures
        match trip {
            RoundTrip::Failed { message, timed_out } => if timed_out {
                r == Err::<Reply, Error>(Error::Timeout(message))
            } else {
                r == Err::<Reply, Error>(Error::Connection(message))
            },
            RoundTrip::Response { status, discovery, body } => match body {
                Err(be) => if be.timed_out {
                    r == Err::<Reply, Error>(Error::Timeout(be.message))
                } else if status < 400 {
                    r matches Err(Error::Decode(m)) && m@ == "non-JSON response: "@ + be.message@
                } else if reject_bodiless_errors && gateway_of(status, discovery) is None {
                    r matches Err(Error::Box { status: s, message: m }) && s == status && m@
                        == bodiless_text(status)
                } else {
                    r == Ok::<Reply, Error>(
                        Reply { status, gateway: gateway_of(status, discovery), body: Json::Null },
                    )
                },
                Ok(b) => if reject_bodiless_errors && gateway_of(status, discovery) is None
                    && status >= 400 && b == Json::Null {
                    r matches Err(Error::Box { status: s, message: m }) && s == status && m@
                        == bodiless_text(status)
                } else {
                    r == Ok::<Reply, Error>(
                        Reply { status, gateway: gateway_of(status, discovery), body: b },
                    )
                },
            },
        },
{
    match trip {
        RoundTrip::Failed { message, timed_out } => {
            if timed_out {
                Err(Error::Timeout(message))
            } else {
                Err(Error::Connection(message))
            }
        },
        RoundTrip::Response { status, discovery, body } => {
            let gateway = if is_denial(status) {
                discovery
            } else {
                None
            };
            let body = match body {
                Ok(b) => b,
                Err(be) => {
                    if be.timed_out {
                        return Err(Error::Timeout(be.message));
                    }
                    if status < 400 {
                        let mut m = String::from_str("non-JSON response: ");
                        m.append(be.message.as_str());
                        return Err(Error::Decode(m));
                    }
                    Json::Null
                },
            };
            let bodiless = match body {
                Json::Null => true,
                _ => false,
            };
            if reject_bodiless_errors && gateway.is_none() && status >= 400 && bodiless {
                let mut v = chars_of("HTTP ");
                extend_chars(&mut v, decimal_chars(status as u64).as_slice());
                extend_chars(&mut v, chars_of(" (non-JSON body)").as_slice());
                return Err(Error::Box { status, message: string_of(v.as_slice()) });
            }
            Ok(Reply { status, gateway, body })
        },
    }
}

// ---------------------------------------------------------------------------
// Token to attach
// ---------------------------------------------------------------------------

/// Which token a request starts with.
#[derive(Debug)]
pub enum TokenPlan {
    /// Attach this token (or none).
    Use(Option<String>),
    /// The box is known to be gated and no token is cached: resolve one
    /// from the token store for this auth server first.
    Resolve(String),
}

/// Decide the token to attach right now: the pinned token, a cached store
/// token that is still fresh (`cached_fresh`, judged by the caller's
/// clock), or a store lookup when the box is already known to be gated.
pub fn token_plan(auth: &mut GatewayAuth, cached_fresh: bool) -> (p: TokenPlan)
    ensures
        old(auth)@.static_token is Some ==> (final(auth)@ == old(auth)@ && (p matches TokenPlan::Use(
            t,
        ) && crate::auth::opt_view(t) == old(auth)@.static_token)),
        old(auth)@.static_token is None && old(auth)@.token is Some && cached_fresh ==> (
        final(auth)@ == old(auth)@ && (p matches TokenPlan::Use(t) && crate::auth::opt_view(t)
            == old(auth)@.token)),
        old(auth)@.static_token is None && !(old(auth)@.token is Some && cached_fresh) ==> (
        final(auth)@ == (GatewayAuthView { token: None, ..old(auth)@ }) && match old(
            auth,
        )@.auth_url {
            Some(u) => p matches TokenPlan::Resolve(x) && x@ == u,
            None => p matches TokenPlan::Use(t) && t is None,
        }),
{
    if let Some(t) = auth.cached_token(cached_fresh) {
        return TokenPlan::Use(Some(t));
    }
    if auth.wants_store_token() {
        match auth.auth_url() {
            Some(u) => TokenPlan::Resolve(u),
            None => TokenPlan::Use(None),
        }
    } else {
        TokenPlan::Use(None)
    }
}

// ---------------------------------------------------------------------------
// Gateway denials
// ---------------------------------------------------------------------------

/// What follows the first reply of an exchange.
#[derive(Debug)]
pub enum AfterReply {
    /// The exchange is over: the `(status, body)` pair, or an error.
    Done(Result<(u16, Json)>),
    /// A 401 gateway denial with no pinned token: resolve a fresh token for
    /// this auth server (avoiding the one just sent) and continue with
    /// [`after_resolve`].
    Resolve {
        /// HTTP status of the denial.
        status: u16,
        /// The auth server named by the denial.
        auth_url: String,
    },
}

/// Interpret the first reply of an exchange. A gateway denial teaches the
/// client the box's auth server (the returned flag says whether that
/// changed, and so should be written back to the token store); a 401
/// without a pinned token asks for a fresh token, any other denial is
/// final. `sent_token` is whether the request carried a token.
pub fn after_first_reply(auth: &mut GatewayAuth, reply: Result<Reply>, sent_token: bool) -> (r: (
    AfterReply,
    bool,
))
    ensures
        match reply {
            Err(e) => final(auth)@ == old(auth)@ && !r.1 && r.0 == AfterReply::Done(
                Err::<(u16, Json), Error>(e),
            ),
            Ok(rep) => match rep.gateway {
                None => final(auth)@ == old(auth)@ && !r.1 && r.0 == AfterReply::Done(
                    Ok::<(u16, Json), Error>((rep.status, rep.body)),
                ),
                Some(u) => {
                    &&& final(auth)@ == (GatewayAuthView { auth_url: Some(u@), ..old(auth)@ })
                    &&& r.1 == (old(auth)@.auth_url != Some(u@))
                    &&& if rep.status == 401 && old(auth)@.static_token is None {
                        r.0 matches AfterReply::Resolve { status, auth_url } && status == 401
                            && auth_url@ == u@
                    } else {
                        r.0 matches AfterReply::Done(Err(e)) && is_denial_error(
                            e,
                            rep.status,
                            old(auth)@.box_host,
                            u@,
                            sent_token,
                        )
                    }
                },
            },
        },
{
    let rep = match reply {
        Err(e) => return (AfterReply::Done(Err(e)), false),
        Ok(rep) => rep,
    };
    let auth_url = match rep.gateway {
        None => return (AfterReply::Done(Ok((rep.status, rep.body))), false),
        Some(u) => u,
    };
    let learned = auth.learn_auth_server(auth_url.as_str());
    if rep.status == 401 && !auth.has_static_token() {
        return (AfterReply::Resolve { status: rep.status, auth_url }, learned);
    }
    let e = denial_error(rep.status, auth.box_host(), auth_url.as_str(), sent_token);
    (AfterReply::Done(Err(e)), learned)
}

/// What follows a token resolution.
#[derive(Debug)]
pub enum AfterResolve {
    /// Send the request once more with this token, and finish with
    /// [`after_retry_reply`].
    Retry(String),
    /// No fresh token: the exchange ends with this error.
    Done(Error),
}

/// Continue a 401 denial after the token store was consulted: retry with
/// the fresh token, or report the denial.
pub fn after_resolve(
    auth: &GatewayAuth,
    status: u16,
    auth_url: &str,
    sent_token: bool,
    fresh: Option<String>,
) -> (r: AfterResolve)
    ensures
        match fresh {
            Some(t) => r == AfterResolve::Retry(t),
            None => r matches AfterResolve::Done(e) && is_denial_error(
                e,
                status,
                auth@.box_host,
                auth_url@,
                sent_token,
            ),
        },
{
    match fresh {
        Some(t) => AfterResolve::Retry(t),
        None => AfterResolve::Done(denial_error(status, auth.box_host(), auth_url, sent_token)),
    }
}

/// Finish an exchange with the reply to its retry (which carried a
/// token): a second denial is final.
pub fn after_retry_reply(auth: &GatewayAuth, reply: Result<Reply>) -> (r: Result<(u16, Json)>)
    ensures
        match reply {
            Err(e) => r == Err::<(u16, Json), Error>(e),
            Ok(rep) => match rep.gateway {
                None => r == Ok::<(u16, Json), Error>((rep.status, rep.body)),
                Some(u) => r matches Err(e) && is_denial_error(
                    e,
                    rep.status,
                    auth@.box_host,
                    u@,
                    true,
                ),
            },
        },
{
    let rep = match reply {
        Err(e) => return Err(e),
        Ok(rep) => rep,
    };
    match rep.gateway {
        None => Ok((rep.status, rep.body)),
        Some(u) => Err(denial_error(rep.status, auth.box_host(), u.as_str(), true)),
    }
}

// ---------------------------------------------------------------------------
// Streaming debug responses (RTT over HTTP)
// ---------------------------------------------------------------------------

/// The error a refused streaming request ends with, and whether the box's
/// auth server was learned anew. A gateway denial (a denial status with
/// the discovery header) teaches the auth server and maps like any
/// denial; anything else is the debug service's own error.
pub fn stream_refusal(
    auth: &mut GatewayAuth,
    status: u16,
    discovery: Option<String>,
    body: Json,
    sent_token: bool,
) -> (r: (Error, bool))
    requires
        status != 200,
    ensures
        match gateway_of(status, discovery) {
            Some(u) => {
                &&& final(auth)@ == (GatewayAuthView { auth_url: Some(u@), ..old(auth)@ })
                &&& r.1 == (old(auth)@.auth_url != Some(u@))
                &&& is_denial_error(r.0, status, old(auth)@.box_host, u@, sent_token)
            },
            None => {
                &&& final(auth)@ == old(auth)@
                &&& !r.1
                &&& r.0 matches Error::Box { status: s, message } && s == status && message@
                    == debug_failure_text(body)
            },
        },
{
    if is_denial(status) {
        if let Some(u) = discovery {
            let learned = auth.learn_auth_server(u.as_str());
            let e = denial_error(status, auth.box_host(), u.as_str(), sent_token);
            return (e, learned);
        }
    }
    match parse_debug(status, body) {
        Err(e) => (e, false),
        Ok(_) => {
            assert(false);
            (Error::Stream(String::new()), false)
        },
    }
}

/// Whether a failed streaming request should be retried with a fresh
/// token: a sign-in denial (`AuthRequired`) when no token is pinned. The
/// auth server to resolve against is returned.
pub fn stream_retry_auth_url(auth: &GatewayAuth, err: &Error) -> (r: Option<String>)
    ensures
        match *err {
            Error::AuthRequired { auth_url, .. } => if auth@.static_token is None {
                r matches Some(u) && u@ == auth_url@
            } else {
                r is None
            },
            _ => r is None,
        },
{
    match err {
        Error::AuthRequired { auth_url, .. } => {
            if auth.has_static_token() {
                None
            } else {
                Some(auth_url.clone())
            }
        },
        _ => None,
    }
}

} // verus!
