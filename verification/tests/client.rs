use std::time::Duration;

use lager::client::LagerBoxBuilder;
use lager::json::{with_member, Json};
use lager::Error;

#[test]
fn building_resolves_urls_and_auth() {
    let store = with_member(
        Json::empty_object(),
        "boxes",
        with_member(Json::empty_object(), "192.168.1.42", Json::str_of("https://auth")),
    );
    let setup = LagerBoxBuilder::new("192.168.1.42", None)
        .timeout(Duration::from_secs(3))
        .bearer_token("tok")
        .build(None, &store)
        .unwrap();
    assert_eq!(setup.base, "http://192.168.1.42:9000");
    assert_eq!(setup.debug_base, "http://192.168.1.42:8765");
    assert_eq!(setup.timeout, Some(Duration::from_secs(3)));
    assert_eq!(setup.auth.box_host(), "192.168.1.42");
    assert!(setup.auth.has_static_token());
    assert_eq!(setup.auth.auth_url().as_deref(), Some("https://auth"));
}

#[test]
fn a_debug_service_override_is_normalized() {
    let setup = LagerBoxBuilder::new("box", None)
        .debug_service_url("127.0.0.1")
        .build(None, &Json::Null)
        .unwrap();
    assert_eq!(setup.debug_base, "http://127.0.0.1:8765");
    assert_eq!(setup.auth.auth_url(), None);
    let env = LagerBoxBuilder::new("box", Some("http://tunnel:1234".into())).build(Some("e".into()), &Json::Null).unwrap();
    assert_eq!(env.debug_base, "http://tunnel:1234");
    assert!(env.auth.has_static_token());
}

#[test]
fn bad_hosts_are_configuration_errors() {
    assert!(matches!(LagerBoxBuilder::new("", None).build(None, &Json::Null), Err(Error::Config(_))));
    let r = LagerBoxBuilder::new("box", None).debug_service_url("http://").build(None, &Json::Null);
    match r {
        Err(Error::Config(m)) => assert_eq!(m, "invalid box host 'http://'"),
        other => panic!("unexpected: {other:?}"),
    }
}

#[test]
fn error_texts() {
    assert_eq!(Error::Timeout("x".into()).message(), "request to the Lager box timed out: x");
    assert_eq!(Error::Box { status: 502, message: "m".into() }.message(), "box error (HTTP 502): m");
    assert_eq!(Error::Decode("d".into()).message(), "could not decode box response: d");
    assert_eq!(Error::Config("c".into()).message(), "configuration error: c");
    assert_eq!(Error::Stream("s".into()).message(), "streaming session error: s");
    assert!(Error::Connection("c".into()).message().starts_with("cannot reach the Lager box: c"));
    assert!(Error::UnsupportedByBox { message: "u".into() }.message().starts_with("u. This box image"));
    assert!(Error::NotSupportedByBox { feature: "scope", details: "d" }.message().starts_with("'scope'"));
}
