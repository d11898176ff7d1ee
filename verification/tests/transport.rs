use lager::auth::GatewayAuth;
use lager::json::Json;
use lager::transport::{
    after_first_reply, after_resolve, after_retry_reply, bearer_header, effective_timeout, read_reply,
    request_url, stream_refusal, stream_retry_auth_url, token_plan, transport_timed_out, AfterReply,
    AfterResolve, BodyError, Reply, RoundTrip, TokenPlan,
};
use lager::wire::Timeout;
use lager::Error;

fn response(status: u16, discovery: Option<&str>, body: Result<Json, BodyError>) -> RoundTrip {
    RoundTrip::Response { status, discovery: discovery.map(str::to_string), body }
}

#[test]
fn transport_failures_are_timeouts_or_connection_errors() {
    assert!(transport_timed_out("Operation Timed Out"));
    assert!(transport_timed_out("read timeout"));
    assert!(!transport_timed_out("connection refused"));
    let r = read_reply(RoundTrip::Failed { message: "refused".into(), timed_out: false }, true);
    assert!(matches!(r, Err(Error::Connection(_))));
    let r = read_reply(RoundTrip::Failed { message: "slow".into(), timed_out: true }, true);
    assert!(matches!(r, Err(Error::Timeout(_))));
}

#[test]
fn bodies_that_are_not_json() {
    let bad = || BodyError { message: "eof".into(), timed_out: false };
    match read_reply(response(200, None, Err(bad())), true) {
        Err(Error::Decode(m)) => assert_eq!(m, "non-JSON response: eof"),
        other => panic!("unexpected: {other:?}"),
    }
    match read_reply(response(404, None, Err(bad())), true) {
        Err(Error::Box { status, message }) => {
            assert_eq!(status, 404);
            assert_eq!(message, "HTTP 404 (non-JSON body)");
        }
        other => panic!("unexpected: {other:?}"),
    }
    let r = read_reply(response(404, None, Err(bad())), false).unwrap();
    assert_eq!(r.body, Json::Null);
    let r = read_reply(response(401, Some("https://a"), Err(bad())), true).unwrap();
    assert_eq!(r.gateway.as_deref(), Some("https://a"));
    let r = read_reply(response(200, Some("https://a"), Ok(Json::Null)), true).unwrap();
    assert_eq!(r.gateway, None);
}

#[test]
fn plain_replies_finish_the_exchange() {
    let mut auth = GatewayAuth::new("http://box1:9000", None, None, None);
    let reply = Reply { status: 200, gateway: None, body: Json::Null };
    let (next, learned) = after_first_reply(&mut auth, Ok(reply), false);
    assert!(!learned);
    assert!(matches!(next, AfterReply::Done(Ok((200, Json::Null)))));
    assert_eq!(auth.auth_url(), None);
}

#[test]
fn first_contact_401_learns_and_asks_for_a_token() {
    let mut auth = GatewayAuth::new("http://box1:9000", None, None, None);
    let reply = Reply { status: 401, gateway: Some("https://auth".into()), body: Json::Null };
    let (next, learned) = after_first_reply(&mut auth, Ok(reply), false);
    assert!(learned);
    let (status, url) = match next {
        AfterReply::Resolve { status, auth_url } => (status, auth_url),
        other => panic!("unexpected: {other:?}"),
    };
    assert_eq!(auth.auth_url().as_deref(), Some("https://auth"));
    match after_resolve(&auth, status, &url, false, Some("fresh".into())) {
        AfterResolve::Retry(t) => assert_eq!(t, "fresh"),
        other => panic!("unexpected: {other:?}"),
    }
    match after_resolve(&auth, status, &url, false, None) {
        AfterResolve::Done(Error::AuthRequired { box_host, .. }) => assert_eq!(box_host, "box1"),
        other => panic!("unexpected: {other:?}"),
    }
    let again = Reply { status: 401, gateway: Some("https://auth".into()), body: Json::Null };
    assert!(matches!(after_retry_reply(&auth, Ok(again)), Err(Error::AuthRequired { .. })));
    let ok = Reply { status: 200, gateway: None, body: Json::Null };
    assert!(after_retry_reply(&auth, Ok(ok)).is_ok());
}

#[test]
fn a_pinned_token_is_not_retried() {
    let mut auth = GatewayAuth::new("http://box1:9000", Some("pinned".into()), None, None);
    let reply = Reply { status: 401, gateway: Some("https://auth".into()), body: Json::Null };
    let (next, _) = after_first_reply(&mut auth, Ok(reply), true);
    match next {
        AfterReply::Done(Err(e)) => assert!(e.message().contains("your session was rejected by box box1")),
        other => panic!("unexpected: {other:?}"),
    }
    let forbidden = Reply { status: 403, gateway: Some("https://auth".into()), body: Json::Null };
    let (next, _) = after_first_reply(&mut auth, Ok(forbidden), true);
    assert!(matches!(next, AfterReply::Done(Err(Error::Box { status: 403, .. }))));
}

#[test]
fn token_plans() {
    let mut auth = GatewayAuth::new("http://box1:9000", None, None, None);
    assert!(matches!(token_plan(&mut auth, true), TokenPlan::Use(None)));
    auth.learn_auth_server("https://auth");
    match token_plan(&mut auth, true) {
        TokenPlan::Resolve(u) => assert_eq!(u, "https://auth"),
        other => panic!("unexpected: {other:?}"),
    }
    auth.cache_token("t");
    match token_plan(&mut auth, true) {
        TokenPlan::Use(Some(t)) => assert_eq!(t, "t"),
        other => panic!("unexpected: {other:?}"),
    }
    assert!(matches!(token_plan(&mut auth, false), TokenPlan::Resolve(_)));
}

#[test]
fn request_plumbing() {
    assert_eq!(request_url("http://b:9000", "/health"), "http://b:9000/health");
    assert_eq!(bearer_header("t"), "Bearer t");
    assert_eq!(effective_timeout(Timeout::Default, 10000), Some(10000));
    assert_eq!(effective_timeout(Timeout::After(5), 10000), Some(5));
    assert_eq!(effective_timeout(Timeout::Unbounded, 10000), None);
}

#[test]
fn refused_streams() {
    let mut auth = GatewayAuth::new("http://box1:9000", None, None, None);
    let (e, learned) = stream_refusal(&mut auth, 401, Some("https://auth".into()), Json::Null, false);
    assert!(learned);
    assert_eq!(stream_retry_auth_url(&auth, &e).as_deref(), Some("https://auth"));
    let (e, learned) = stream_refusal(&mut auth, 500, None, Json::Null, false);
    assert!(!learned);
    assert!(matches!(e, Error::Box { status: 500, .. }));
    assert_eq!(stream_retry_auth_url(&auth, &e), None);
}
