//! Gateway auth and debug tunnels, decided by the library and driven here
//! the way the blocking client drives them: the test plays the network
//! (a box behind an authenticating gateway, the auth server's refresh
//! endpoint, the gateway's `CONNECT` handshake) and the clock.

use lager::auth::{self, GatewayAuth, ResolvePlan};
use lager::client::LagerBoxBuilder;
use lager::json::Json;
use lager::transport::{self, AfterReply, AfterResolve, BodyError, Reply, RoundTrip, TokenPlan};
use lager::tunnel::{self, Refusal, TunnelNext};
use lager::wire;
use lager::Error;
use serde_json::Value;

const AUTH_URL: &str = "https://auth.example.com";
const BOX: &str = "127.0.0.1:9000";
const BOX_HOST: &str = "127.0.0.1";

fn jv(text: &str) -> Value {
    serde_json::from_str(text).expect("test JSON parses")
}

fn to_json(v: Value) -> Json {
    match v {
        Value::Null => Json::Null,
        Value::Bool(b) => Json::Bool(b),
        Value::Number(n) => Json::Number(n.to_string()),
        Value::String(s) => Json::Str(s),
        Value::Array(items) => Json::Array(items.into_iter().map(to_json).collect()),
        Value::Object(map) => Json::Object(map.into_iter().map(|(k, v)| (k, to_json(v))).collect()),
    }
}

fn to_value(j: &Json) -> Value {
    match j {
        Json::Null => Value::Null,
        Json::Bool(b) => Value::Bool(*b),
        Json::Number(t) => serde_json::from_str(t).expect("number text"),
        Json::Str(s) => Value::String(s.clone()),
        Json::Array(items) => Value::Array(items.iter().map(to_value).collect()),
        Json::Object(entries) => {
            let mut map = serde_json::Map::new();
            for (k, v) in entries {
                map.insert(k.clone(), to_value(v));
            }
            Value::Object(map)
        }
    }
}

fn now() -> i64 {
    std::time::SystemTime::now().duration_since(std::time::UNIX_EPOCH).unwrap().as_secs() as i64
}

/// Unsigned JWT with the given `exp` offset (only the expiry is read
/// client-side).
fn fake_jwt(tag: &str, exp_offset_secs: i64) -> String {
    fn b64url(data: &[u8]) -> String {
        const ALPHABET: &[u8] = b"ABCDEFGHIJKLMNOPQRSTUVWXYZabcdefghijklmnopqrstuvwxyz0123456789-_";
        let mut out = String::new();
        for chunk in data.chunks(3) {
            let mut acc = 0u32;
            for (i, &b) in chunk.iter().enumerate() {
                acc |= (b as u32) << (16 - 8 * i);
            }
            for i in 0..=chunk.len() {
                out.push(ALPHABET[((acc >> (18 - 6 * i)) & 0x3f) as usize] as char);
            }
        }
        out
    }
    let exp = now() + exp_offset_secs;
    let header = b64url(br#"{"alg":"none"}"#);
    let payload = b64url(format!(r#"{{"exp":{exp},"tag":"{tag}"}}"#).as_bytes());
    format!("{header}.{payload}.sig")
}

/// Whether a token is still usable (expiry more than a minute away), as the
/// clients judge it.
fn is_fresh(token: &str) -> bool {
    let Some(payload) = auth::jwt_payload(token) else { return false };
    let exp = serde_json::from_slice::<Value>(&payload).ok().and_then(|p| p.get("exp")?.as_f64()).unwrap_or(0.0);
    exp > now() as f64 + 60.0
}

/// A response the test's server gives.
struct Answer {
    status: u16,
    discovery: Option<&'static str>,
    body: Option<&'static str>,
}

fn answer(status: u16, discovery: Option<&'static str>, body: Option<&'static str>) -> Answer {
    Answer { status, discovery, body }
}

const ADC_OK: &str = r#"{"success": true, "action": "read", "message": "1.5 V", "value": 1.5}"#;

/// The client side of a box: its gateway-auth state, its token store, and
/// what it sent.
struct Client {
    auth: GatewayAuth,
    store: Json,
    sent: Vec<Option<String>>,
    connects: Vec<String>,
    refreshes: Vec<String>,
    reject_bodiless_errors: bool,
}

impl Client {
    fn new(builder_token: Option<&str>, env_token: Option<&str>, store: &str) -> Client {
        let store = to_json(jv(store));
        let mut b = LagerBoxBuilder::new(BOX, None);
        if let Some(t) = builder_token {
            b = b.bearer_token(t);
        }
        let setup = b.build(env_token.map(str::to_string), &store).expect("client builds");
        Client {
            auth: setup.auth,
            store,
            sent: Vec::new(),
            connects: Vec::new(),
            refreshes: Vec::new(),
            reject_bodiless_errors: true,
        }
    }

    fn store_value(&self) -> Value {
        to_value(&self.store)
    }

    fn remember(&mut self, auth_url: &str) {
        let copy = to_json(to_value(&self.store));
        if let Some(updated) = auth::record_auth_server(copy, BOX_HOST, auth_url) {
            self.store = updated;
        }
    }

    fn resolve(
        &mut self,
        auth_url: &str,
        avoid: Option<&str>,
        refresh: &mut dyn FnMut(&str) -> Option<(String, String)>,
    ) -> Option<String> {
        let (stored, cookies) = auth::store_entry(to_json(to_value(&self.store)), auth_url);
        let fresh = stored.as_deref().map(is_fresh).unwrap_or(false);
        match auth::resolve_plan(&mut self.auth, stored, &cookies, avoid, fresh) {
            ResolvePlan::Use(t) => Some(t),
            ResolvePlan::GiveUp => None,
            ResolvePlan::Refresh(cookie) => {
                self.refreshes.push(cookie.clone());
                let (token, set_cookie) = refresh(&cookie)?;
                let set_cookies: Vec<(String, String)> = auth::parse_set_cookie(&set_cookie).into_iter().collect();
                let copy = to_json(to_value(&self.store));
                self.store = auth::after_refresh(&mut self.auth, copy, auth_url, &token, &set_cookies);
                Some(token)
            }
        }
    }

    fn current_token(&mut self, refresh: &mut dyn FnMut(&str) -> Option<(String, String)>) -> Option<String> {
        let fresh = self.auth.cached_store_token().map(|t| is_fresh(&t)).unwrap_or(false);
        match transport::token_plan(&mut self.auth, fresh) {
            TokenPlan::Use(t) => t,
            TokenPlan::Resolve(u) => self.resolve(&u, None, refresh),
        }
    }

    fn send(&mut self, server: &mut dyn FnMut(Option<&str>) -> Answer, token: Option<&str>) -> lager::Result<Reply> {
        self.sent.push(token.map(str::to_string));
        let a = server(token);
        let body = match a.body {
            Some(text) => Ok(to_json(jv(text))),
            None => Err(BodyError { message: "EOF while parsing a value".to_string(), timed_out: false }),
        };
        let trip = RoundTrip::Response { status: a.status, discovery: a.discovery.map(str::to_string), body };
        transport::read_reply(trip, self.reject_bodiless_errors)
    }

    /// One request, with the gateway dance the clients do.
    fn execute(
        &mut self,
        server: &mut dyn FnMut(Option<&str>) -> Answer,
        refresh: &mut dyn FnMut(&str) -> Option<(String, String)>,
    ) -> lager::Result<(u16, Json)> {
        let token = self.current_token(refresh);
        let reply = self.send(server, token.as_deref());
        let (next, learned) = transport::after_first_reply(&mut self.auth, reply, token.is_some());
        let done = match next {
            AfterReply::Done(r) => r,
            AfterReply::Resolve { status, auth_url } => {
                if learned {
                    self.remember(&auth_url);
                }
                let fresh = self.resolve(&auth_url, token.as_deref(), refresh);
                match transport::after_resolve(&self.auth, status, &auth_url, token.is_some(), fresh) {
                    AfterResolve::Retry(t) => {
                        let again = self.send(server, Some(&t));
                        transport::after_retry_reply(&self.auth, again)
                    }
                    AfterResolve::Done(e) => Err(e),
                }
            }
        };
        if learned {
            if let Some(u) = self.auth.auth_url() {
                self.remember(&u);
            }
        }
        done
    }

    fn bearer_token(
        &mut self,
        server: &mut dyn FnMut(Option<&str>) -> Answer,
    ) -> lager::Result<Option<String>> {
        let mut no_refresh = |_: &str| -> Option<(String, String)> { None };
        if let Some(t) = self.current_token(&mut no_refresh) {
            return Ok(Some(t));
        }
        self.execute(server, &mut no_refresh)?;
        Ok(self.current_token(&mut no_refresh))
    }

    /// A tunnel to `port`: `Ok(Some(greeting))` once open (the bytes after
    /// the head, left for the caller), `Ok(None)` for a direct connection to
    /// a plain box. Each pause the library asks for advances `clock`.
    fn debug_tunnel(
        &mut self,
        port: u16,
        gateway: &mut dyn FnMut(&str) -> Vec<u8>,
        clock: &mut u64,
    ) -> lager::Result<Option<Vec<u8>>> {
        let mut no_refresh = |_: &str| -> Option<(String, String)> { None };
        self.debug_tunnel_refreshing(port, gateway, clock, &mut no_refresh)
    }

    fn debug_tunnel_refreshing(
        &mut self,
        port: u16,
        gateway: &mut dyn FnMut(&str) -> Vec<u8>,
        clock: &mut u64,
        refresh: &mut dyn FnMut(&str) -> Option<(String, String)>,
    ) -> lager::Result<Option<Vec<u8>>> {
        let mut token = self.current_token(refresh);
        let mut retried = false;
        loop {
            let sent = token.is_some();
            let request = tunnel::connect_request(port, self.auth.box_host(), token.as_deref());
            let text = String::from_utf8(request).unwrap();
            self.connects.push(text.clone());
            let raw = gateway(&text);
            let split = raw.windows(4).position(|w| w == b"\r\n\r\n").map(|i| i + 4).unwrap_or(raw.len());
            let (head, rest) = raw.split_at(split);
            let refusal = match tunnel::parse_head(head) {
                Some(h) if h.status == 200 => return Ok(Some(rest.to_vec())),
                Some(h) => {
                    let body = &rest[..rest.len().min(h.content_length)];
                    tunnel::classify(&h, String::from_utf8_lossy(body).trim().to_string())
                }
                None => Refusal::Unsupported { status: None },
            };
            let (next, learned) = tunnel::after_refusal(&mut self.auth, refusal, port, sent, retried, *clock);
            if learned {
                if let Some(u) = self.auth.auth_url() {
                    self.remember(&u);
                }
            }
            match next {
                TunnelNext::Retry { after_ms } => *clock += after_ms,
                TunnelNext::Resolve { auth_url } => {
                    let fresh = self.resolve(&auth_url, token.as_deref(), refresh);
                    match transport::after_resolve(&self.auth, 401, &auth_url, sent, fresh) {
                        AfterResolve::Retry(t) => {
                            token = Some(t);
                            retried = true;
                        }
                        AfterResolve::Done(e) => return Err(e),
                    }
                }
                TunnelNext::Direct => return Ok(None),
                TunnelNext::Fail(e) => return Err(e),
            }
        }
    }
}

fn adc_ok(_: Option<&str>) -> Answer {
    answer(200, None, Some(ADC_OK))
}

fn no_refresh(_: &str) -> Option<(String, String)> {
    None
}

fn value_of_reply(r: (u16, Json)) -> f64 {
    to_value(&r.1)["value"].as_f64().unwrap()
}

fn session_store(token: &str) -> String {
    format!(r#"{{"authServers": {{"{AUTH_URL}": {{"accessToken": "{token}", "cookies": {{}}}}}}}}"#)
}

fn gated_store(token: &str) -> String {
    format!(
        r#"{{"boxes": {{"{BOX_HOST}": "{AUTH_URL}"}},
             "authServers": {{"{AUTH_URL}": {{"accessToken": "{token}", "cookies": {{}}}}}}}}"#
    )
}

// ---------------------------------------------------------------------------
// Requests behind a gateway
// ---------------------------------------------------------------------------

#[test]
fn plain_box_gets_no_authorization_header() {
    let mut c = Client::new(None, None, "{}");
    let r = c.execute(&mut adc_ok, &mut no_refresh).unwrap();
    assert_eq!(value_of_reply(r), 1.5);
    assert_eq!(c.sent, vec![None]);
    assert_eq!(c.store_value(), jv("{}"));
}

#[test]
fn builder_bearer_token_is_attached() {
    let mut c = Client::new(Some("my-token"), None, "{}");
    assert_eq!(value_of_reply(c.execute(&mut adc_ok, &mut no_refresh).unwrap()), 1.5);
    assert_eq!(c.sent, vec![Some("my-token".to_string())]);
}

#[test]
fn env_bearer_token_is_attached() {
    let mut c = Client::new(None, Some("env-token"), "{}");
    assert_eq!(value_of_reply(c.execute(&mut adc_ok, &mut no_refresh).unwrap()), 1.5);
    assert_eq!(c.sent, vec![Some("env-token".to_string())]);
}

fn gateway_401_without_token(token: Option<&str>) -> Answer {
    match token {
        None => answer(401, Some(AUTH_URL), Some(r#"{"error": "authorization required"}"#)),
        Some(_) => answer(200, None, Some(ADC_OK)),
    }
}

#[test]
fn first_contact_discovers_gateway_and_retries_with_cli_session() {
    let token = fake_jwt("fresh", 3600);
    let mut c = Client::new(None, None, &session_store(&token));
    assert_eq!(value_of_reply(c.execute(&mut gateway_401_without_token, &mut no_refresh).unwrap()), 1.5);
    assert_eq!(c.sent, vec![None, Some(token.clone())]);
    assert_eq!(c.store_value()["boxes"][BOX_HOST], AUTH_URL);
    // Follow-up requests attach the token proactively: no second 401.
    assert_eq!(value_of_reply(c.execute(&mut gateway_401_without_token, &mut no_refresh).unwrap()), 1.5);
    assert_eq!(c.sent, vec![None, Some(token.clone()), Some(token)]);
}

#[test]
fn async_first_contact_discovers_gateway_and_retries() {
    let token = fake_jwt("fresh", 3600);
    let mut c = Client::new(None, None, &session_store(&token));
    c.reject_bodiless_errors = false;
    assert_eq!(value_of_reply(c.execute(&mut gateway_401_without_token, &mut no_refresh).unwrap()), 1.5);
    assert_eq!(c.sent, vec![None, Some(token)]);
}

#[test]
fn known_gated_box_attaches_token_proactively() {
    let token = fake_jwt("fresh", 3600);
    let mut c = Client::new(None, None, &gated_store(&token));
    let mut only_with_token = |t: Option<&str>| match t {
        Some(_) => answer(200, None, Some(ADC_OK)),
        None => answer(401, Some(AUTH_URL), None),
    };
    assert_eq!(value_of_reply(c.execute(&mut only_with_token, &mut no_refresh).unwrap()), 1.5);
    assert_eq!(c.sent, vec![Some(token)]);
}

#[test]
fn expired_token_is_refreshed_and_rotated_cookies_persisted() {
    let expired = fake_jwt("expired", -3600);
    let fresh = fake_jwt("fresh", 3600);
    let auth_url = "http://127.0.0.1:7000";
    let store = format!(
        r#"{{"boxes": {{"{BOX_HOST}": "{auth_url}"}},
             "authServers": {{"{auth_url}": {{"accessToken": "{expired}",
                                             "cookies": {{"refreshToken": "old-cookie"}}}}}}}}"#
    );
    let mut c = Client::new(None, None, &store);
    let issued = fresh.clone();
    let mut refresh = move |cookie: &str| {
        assert_eq!(cookie, "refreshToken=old-cookie");
        Some((issued.clone(), "refreshToken=rotated-cookie; Path=/; HttpOnly".to_string()))
    };
    let wanted = fresh.clone();
    let mut server = move |t: Option<&str>| {
        if t == Some(wanted.as_str()) {
            answer(200, None, Some(ADC_OK))
        } else {
            answer(401, Some("http://127.0.0.1:7000"), None)
        }
    };
    assert_eq!(value_of_reply(c.execute(&mut server, &mut refresh).unwrap()), 1.5);
    assert_eq!(c.refreshes, vec!["refreshToken=old-cookie".to_string()]);
    let entry = &c.store_value()["authServers"][auth_url];
    assert_eq!(entry["accessToken"], Value::String(fresh));
    assert_eq!(entry["cookies"]["refreshToken"], "rotated-cookie");
}

#[test]
fn gated_box_without_login_is_auth_required() {
    let mut c = Client::new(None, None, "{}");
    let mut denied = |_: Option<&str>| answer(401, Some(AUTH_URL), Some(r#"{"error": "authorization required"}"#));
    let err = c.execute(&mut denied, &mut no_refresh).unwrap_err();
    match &err {
        Error::AuthRequired { auth_url, .. } => assert_eq!(auth_url, AUTH_URL),
        other => panic!("expected AuthRequired, got {other:?}"),
    }
    assert!(err.message().contains("lager login https://auth.example.com"));
}

#[test]
fn rejected_pinned_token_is_auth_required_without_retry() {
    let mut c = Client::new(Some("revoked-token"), None, "{}");
    let mut denied = |_: Option<&str>| answer(401, Some(AUTH_URL), Some(r#"{"error": "token revoked"}"#));
    let err = c.execute(&mut denied, &mut no_refresh).unwrap_err();
    assert!(matches!(err, Error::AuthRequired { .. }));
    assert!(err.message().contains("session was rejected"));
    assert_eq!(c.sent.len(), 1);
}

#[test]
fn forbidden_maps_to_box_error_with_grant_hint() {
    let mut c = Client::new(Some("some-token"), None, "{}");
    let mut forbidden = |_: Option<&str>| answer(403, Some(AUTH_URL), Some(r#"{"error": "no grant"}"#));
    match c.execute(&mut forbidden, &mut no_refresh).unwrap_err() {
        Error::Box { status: 403, message } => assert!(message.contains("not authorized"), "message: {message}"),
        other => panic!("expected Box error, got {other:?}"),
    }
}

#[test]
fn ordinary_application_401_is_not_treated_as_gateway() {
    let mut c = Client::new(None, None, "{}");
    let mut app_401 = |_: Option<&str>| answer(401, None, Some(r#"{"error": "some box-side 401"}"#));
    let (status, body) = c.execute(&mut app_401, &mut no_refresh).unwrap();
    let resp = lager::wire::CommandResponse {
        success: false,
        action: None,
        message: None,
        value: None,
        state: None,
        error: body.get_str("error").map(str::to_string),
        extra: Vec::new(),
    };
    match wire::parse_command(status, resp).unwrap_err() {
        Error::Box { status: 401, message } => assert_eq!(message, "some box-side 401"),
        other => panic!("expected plain Box error, got {other:?}"),
    }
    assert_eq!(c.sent.len(), 1);
}

// ---------------------------------------------------------------------------
// Bearer token for raw HTTP
// ---------------------------------------------------------------------------

#[test]
fn bearer_token_is_none_for_a_plain_box() {
    let mut c = Client::new(None, None, "{}");
    let mut health = |_: Option<&str>| answer(200, None, Some(r#"{"status": "healthy"}"#));
    assert_eq!(c.bearer_token(&mut health).unwrap(), None);
    assert_eq!(c.sent.len(), 1);
}

#[test]
fn bearer_token_returns_a_pinned_token_without_a_request() {
    let mut c = Client::new(Some("ci-token"), None, "{}");
    let mut unreachable = |_: Option<&str>| -> Answer { panic!("no request expected") };
    assert_eq!(c.bearer_token(&mut unreachable).unwrap().as_deref(), Some("ci-token"));
    assert!(c.sent.is_empty());
}

#[test]
fn bearer_token_returns_the_stored_session_for_a_known_gated_box() {
    let token = fake_jwt("stored", 3600);
    let mut c = Client::new(None, None, &gated_store(&token));
    let mut unreachable = |_: Option<&str>| -> Answer { panic!("no request expected") };
    assert_eq!(c.bearer_token(&mut unreachable).unwrap(), Some(token));
}

#[test]
fn bearer_token_discovers_a_gated_box_on_first_contact() {
    let token = fake_jwt("session", 3600);
    let mut c = Client::new(None, None, &session_store(&token));
    let mut health = |t: Option<&str>| match t {
        None => answer(401, Some(AUTH_URL), None),
        Some(_) => answer(200, None, Some(r#"{"status": "healthy"}"#)),
    };
    assert_eq!(c.bearer_token(&mut health).unwrap(), Some(token));
}

#[test]
fn bearer_token_on_a_gated_box_without_a_session_asks_for_sign_in() {
    let mut c = Client::new(None, None, "{}");
    let mut health = |_: Option<&str>| answer(401, Some(AUTH_URL), None);
    let err = c.bearer_token(&mut health).unwrap_err();
    assert!(matches!(err, Error::AuthRequired { .. }), "{err:?}");
}

// ---------------------------------------------------------------------------
// Debug tunnels
// ---------------------------------------------------------------------------

fn established(_: &str) -> Vec<u8> {
    b"HTTP/1.1 200 Connection Established\r\n\r\n".to_vec()
}

fn http_reply(status: u16, reason: &str, headers: &[(&str, &str)], body: &str) -> Vec<u8> {
    let mut out = format!("HTTP/1.1 {status} {reason}\r\n");
    for (k, v) in headers {
        out.push_str(&format!("{k}: {v}\r\n"));
    }
    out.push_str(&format!("Content-Length: {}\r\n\r\n{body}", body.len()));
    out.into_bytes()
}

fn denial(status: u16) -> Vec<u8> {
    http_reply(
        status,
        "Denied",
        &[("X-Gateway-Auth-Url", AUTH_URL), ("Content-Type", "application/json")],
        "{}",
    )
}

fn authorization(connect: &str) -> Option<String> {
    connect
        .split("\r\n")
        .filter_map(|l| l.split_once(':'))
        .find(|(k, _)| k.trim().eq_ignore_ascii_case("authorization"))
        .map(|(_, v)| v.trim().to_string())
}

#[test]
fn request_is_a_bare_port_connect() {
    let mut c = Client::new(None, None, "{}");
    let mut clock = 0;
    assert!(c.debug_tunnel(2332, &mut established, &mut clock).unwrap().is_some());
    let seen = &c.connects[0];
    assert!(seen.starts_with("CONNECT 2332 HTTP/1.1\r\n"), "{seen}");
    assert!(seen.contains("\r\nHost: 127.0.0.1:2332\r\n"), "{seen}");
    assert_eq!(authorization(seen), None);
}

#[test]
fn bytes_after_the_head_are_left_for_the_caller() {
    let mut c = Client::new(None, None, "{}");
    let mut greeting = |_: &str| b"HTTP/1.1 200 Connection Established\r\n\r\n+$OK#9a".to_vec();
    let mut clock = 0;
    assert_eq!(c.debug_tunnel(2331, &mut greeting, &mut clock).unwrap(), Some(b"+$OK#9a".to_vec()));
}

#[test]
fn a_pinned_token_rides_on_the_connect() {
    let mut c = Client::new(Some("ci-token"), None, "{}");
    let mut clock = 0;
    c.debug_tunnel(2331, &mut established, &mut clock).unwrap();
    assert_eq!(authorization(&c.connects[0]).as_deref(), Some("Bearer ci-token"));
}

#[test]
fn an_env_pinned_token_rides_on_the_connect() {
    let mut c = Client::new(None, Some("env-token"), "{}");
    let mut clock = 0;
    c.debug_tunnel(2331, &mut established, &mut clock).unwrap();
    assert_eq!(authorization(&c.connects[0]).as_deref(), Some("Bearer env-token"));
}

#[test]
fn a_refreshed_token_is_used() {
    let fresh = fake_jwt("fresh", 3600);
    let stale = fake_jwt("stale", -60);
    let store = format!(
        r#"{{"boxes": {{"{BOX_HOST}": "{AUTH_URL}"}},
             "authServers": {{"{AUTH_URL}": {{"accessToken": "{stale}", "cookies": {{"refresh": "r1"}}}}}}}}"#
    );
    let mut c = Client::new(None, None, &store);
    let issued = fresh.clone();
    let mut refresh = move |_: &str| Some((issued.clone(), String::new()));
    let mut clock = 0;
    c.debug_tunnel_refreshing(2331, &mut established, &mut clock, &mut refresh).unwrap();
    assert_eq!(c.refreshes.len(), 1);
    assert_eq!(authorization(&c.connects[0]), Some(format!("Bearer {fresh}")));
}

#[test]
fn a_known_gated_box_gets_its_stored_token() {
    let token = fake_jwt("stored", 3600);
    let mut c = Client::new(None, None, &gated_store(&token));
    let mut clock = 0;
    c.debug_tunnel(2331, &mut established, &mut clock).unwrap();
    assert_eq!(authorization(&c.connects[0]), Some(format!("Bearer {token}")));
}

#[test]
fn first_contact_401_retries_once_with_the_cli_session() {
    let token = fake_jwt("session", 3600);
    let mut c = Client::new(None, None, &session_store(&token));
    let mut gateway = |req: &str| if authorization(req).is_some() { established(req) } else { denial(401) };
    let mut clock = 0;
    c.debug_tunnel(2331, &mut gateway, &mut clock).unwrap();
    assert_eq!(c.connects.len(), 2);
    assert_eq!(authorization(&c.connects[0]), None);
    assert_eq!(authorization(&c.connects[1]), Some(format!("Bearer {token}")));
}

#[test]
fn a_rejected_pinned_token_is_not_retried() {
    let mut c = Client::new(None, Some("revoked"), "{}");
    let mut gateway = |_: &str| denial(401);
    let mut clock = 0;
    let err = c.debug_tunnel(2331, &mut gateway, &mut clock).unwrap_err();
    assert!(matches!(err, Error::AuthRequired { .. }), "{err:?}");
    assert_eq!(c.connects.len(), 1);
}

#[test]
fn a_401_without_a_session_asks_for_sign_in() {
    let mut c = Client::new(None, None, "{}");
    let mut gateway = |_: &str| denial(401);
    let mut clock = 0;
    let err = c.debug_tunnel(2331, &mut gateway, &mut clock).unwrap_err();
    match &err {
        Error::AuthRequired { auth_url, .. } => assert_eq!(auth_url, AUTH_URL),
        other => panic!("expected AuthRequired, got {other:?}"),
    }
    assert!(err.message().contains(&format!("lager login {AUTH_URL}")));
}

#[test]
fn a_403_with_the_discovery_header_is_no_access() {
    let mut c = Client::new(None, None, &gated_store(&fake_jwt("t", 3600)));
    let mut gateway = |_: &str| denial(403);
    let mut clock = 0;
    let err = c.debug_tunnel(2331, &mut gateway, &mut clock).unwrap_err();
    assert!(matches!(err, Error::Box { status: 403, .. }), "{err:?}");
    assert!(err.message().contains("not authorized to use box"), "{err:?}");
}

#[test]
fn a_503_is_the_auth_server_being_down() {
    let mut c = Client::new(None, None, &gated_store(&fake_jwt("t", 3600)));
    let mut gateway = |_: &str| denial(503);
    let mut clock = 0;
    let err = c.debug_tunnel(2331, &mut gateway, &mut clock).unwrap_err();
    assert!(matches!(err, Error::Box { status: 503, .. }), "{err:?}");
    assert!(err.message().contains("auth server is unreachable"), "{err:?}");
}

#[test]
fn a_403_without_the_header_is_a_port_outside_the_debug_ranges() {
    let mut c = Client::new(None, None, "{}");
    let mut gateway =
        |_: &str| http_reply(403, "Forbidden", &[("Content-Type", "text/plain")], "port 22 is not tunnelable");
    let mut clock = 0;
    let err = c.debug_tunnel(22, &mut gateway, &mut clock).unwrap_err();
    assert!(matches!(err, Error::Box { status: 403, .. }), "{err:?}");
    let text = err.message();
    assert!(text.contains("does not tunnel port 22"), "{text}");
    assert!(text.contains("port 22 is not tunnelable"), "{text}");
    assert_eq!(c.connects.len(), 1);
}

#[test]
fn a_502_while_the_server_starts_is_waited_out() {
    let mut c = Client::new(None, None, "{}");
    let mut calls = 0;
    let mut gateway = |req: &str| {
        calls += 1;
        if calls <= 2 {
            http_reply(502, "Bad Gateway", &[("Content-Type", "text/plain")], "")
        } else {
            established(req)
        }
    };
    let mut clock = 0;
    assert!(c.debug_tunnel(2332, &mut gateway, &mut clock).unwrap().is_some());
    assert_eq!(c.connects.len(), 3);
    assert!(clock >= 450, "{clock} ms");
    assert!(clock < 3000, "{clock} ms");
}

#[test]
fn a_502_that_persists_fails_after_about_five_seconds() {
    let mut c = Client::new(None, None, "{}");
    let mut gateway = |_: &str| http_reply(502, "Bad Gateway", &[("Content-Type", "text/plain")], "");
    let mut clock = 0;
    let err = c.debug_tunnel(2331, &mut gateway, &mut clock).unwrap_err();
    assert!(matches!(err, Error::Box { status: 502, .. }), "{err:?}");
    assert!(err.message().contains("nothing is listening on port 2331"), "{err:?}");
    assert!(clock >= 4500, "{clock} ms");
    assert!(clock < 8000, "{clock} ms");
    let attempts = c.connects.len();
    assert!((10..=25).contains(&attempts), "{attempts} attempts");
}

#[test]
fn a_denial_is_not_retried() {
    let mut c = Client::new(None, None, &gated_store(&fake_jwt("t", 3600)));
    let mut gateway = |_: &str| denial(503);
    let mut clock = 0;
    let err = c.debug_tunnel(2331, &mut gateway, &mut clock).unwrap_err();
    assert!(matches!(err, Error::Box { status: 503, .. }), "{err:?}");
    assert_eq!(c.connects.len(), 1);
}

#[test]
fn a_pinned_token_behind_an_old_gateway_says_the_gateway_needs_updating() {
    let mut c = Client::new(None, Some("ci-token"), "{}");
    let mut gateway = |_: &str| http_reply(501, "Unsupported method", &[], "");
    let mut clock = 0;
    let err = c.debug_tunnel(2400, &mut gateway, &mut clock).unwrap_err();
    assert!(matches!(err, Error::Box { status: 501, .. }), "{err:?}");
    assert!(err.message().contains("does not support debug tunnels yet"), "{err:?}");
    assert_eq!(c.connects.len(), 1);
}

#[test]
fn an_old_gateway_on_a_gated_box_needs_updating() {
    let mut c = Client::new(None, None, &gated_store(&fake_jwt("t", 3600)));
    let mut gateway = |_: &str| http_reply(501, "Unsupported method", &[], "");
    let mut clock = 0;
    let err = c.debug_tunnel(2400, &mut gateway, &mut clock).unwrap_err();
    assert!(matches!(err, Error::Box { status: 501, .. }), "{err:?}");
    assert!(err.message().contains("does not support debug tunnels yet"), "{err:?}");
}

#[test]
fn a_plain_box_is_reached_directly() {
    let mut c = Client::new(None, None, "{}");
    let mut gateway = |_: &str| http_reply(501, "Unsupported method", &[], "");
    let mut clock = 0;
    assert_eq!(c.debug_tunnel(2400, &mut gateway, &mut clock).unwrap(), None);
    assert_eq!(c.connects.len(), 1);
}

#[test]
fn a_peer_that_is_not_http_counts_as_no_tunnel() {
    let mut c = Client::new(None, None, &gated_store(&fake_jwt("t", 3600)));
    let mut gateway = |_: &str| b"SSH-2.0-OpenSSH_9.6\r\n\r\n".to_vec();
    let mut clock = 0;
    let err = c.debug_tunnel(2400, &mut gateway, &mut clock).unwrap_err();
    assert!(err.message().contains("does not support debug tunnels yet"), "{err:?}");
}

#[test]
fn an_unreachable_debug_service_is_a_connection_error() {
    let err = tunnel::io_error("cannot reach the debug service at 127.0.0.1:1", false, "Connection refused");
    assert!(matches!(err, Error::Connection(_)), "{err:?}");
    let err = tunnel::io_error("cannot reach the debug service at 127.0.0.1:1", true, "timed out");
    assert!(matches!(err, Error::Timeout(_)), "{err:?}");
}
