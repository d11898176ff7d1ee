use lager::auth::{
    apply_refresh, cookie_header, denial_error, host_of, jwt_payload, parse_set_cookie, record_auth_server,
    store_entry, stored_auth_server, usable_or_refresh, GatewayAuth,
};
use lager::json::{with_member, Json};
use lager::Error;

fn obj(entries: Vec<(&str, Json)>) -> Json {
    let mut j = Json::empty_object();
    for (k, v) in entries {
        j = with_member(j, k, v);
    }
    j
}

fn s(x: &str) -> Json {
    Json::str_of(x)
}

#[test]
fn host_extraction() {
    assert_eq!(host_of("http://192.168.1.42:9000"), "192.168.1.42");
    assert_eq!(host_of("http://box.tailnet.ts.net:9000"), "box.tailnet.ts.net");
    assert_eq!(host_of("box:9000"), "box");
}

#[test]
fn denial_messages() {
    let e = denial_error(401, "box1", "https://auth", false);
    assert!(matches!(e, Error::AuthRequired { .. }));
    assert!(e.message().contains("lager login https://auth"));
    let e = denial_error(403, "box1", "https://auth", true);
    assert!(matches!(e, Error::Box { status: 403, .. }));
    let e = denial_error(503, "box1", "https://auth", true);
    assert!(matches!(e, Error::Box { status: 503, .. }));
}

#[test]
fn cookie_header_and_set_cookie() {
    let cookies = vec![("refreshToken".to_string(), s("abc"))];
    assert_eq!(cookie_header(&cookies), "refreshToken=abc");
    assert_eq!(
        parse_set_cookie("refreshToken=xyz; Path=/; HttpOnly").unwrap(),
        ("refreshToken".to_string(), "xyz".to_string())
    );
    assert!(parse_set_cookie("nonsense").is_none());
}

#[test]
fn cookie_header_skips_non_string_values_and_joins() {
    let cookies = vec![
        ("a".to_string(), s("1")),
        ("n".to_string(), Json::uint(5)),
        ("b".to_string(), s("2")),
    ];
    assert_eq!(cookie_header(&cookies), "a=1; b=2");
    assert_eq!(cookie_header(&[]), "");
}

#[test]
fn refresh_merges_rotated_cookies_into_store() {
    let entry = obj(vec![("accessToken", s("old")), ("cookies", obj(vec![("a", s("1")), ("b", s("2"))]))]);
    let store = obj(vec![("authServers", obj(vec![("https://auth", entry)]))]);
    let store = apply_refresh(
        store,
        "https://auth",
        "new",
        &[("b".to_string(), "rotated".to_string())],
    );
    let entry = store.get("authServers").unwrap().get("https://auth").unwrap();
    assert_eq!(entry.get_str("accessToken"), Some("new"));
    let cookies = entry.get("cookies").unwrap();
    assert_eq!(cookies.get_str("a"), Some("1"));
    assert_eq!(cookies.get_str("b"), Some("rotated"));
}

#[test]
fn refresh_creates_a_missing_entry_and_lookup_reads_it_back() {
    let store = Json::empty_object();
    let store = apply_refresh(store, "https://auth", "tok", &[("c".to_string(), "v".to_string())]);
    let (token, cookies) = store_entry(store, "https://auth");
    assert_eq!(token.as_deref(), Some("tok"));
    assert_eq!(cookies.len(), 1);
    assert_eq!(cookies[0].0, "c");
    assert_eq!(cookies[0].1, s("v"));
}

#[test]
fn refresh_leaves_a_non_object_store_alone() {
    let store = apply_refresh(Json::Null, "https://auth", "tok", &[]);
    assert_eq!(store, Json::Null);
}

#[test]
fn recorded_auth_server_is_found_again() {
    let store = Json::empty_object();
    let saved = record_auth_server(store, "box1", "https://auth").unwrap();
    assert_eq!(stored_auth_server(&saved, "box1").as_deref(), Some("https://auth"));
    assert!(record_auth_server(saved, "box1", "https://auth").is_none());
    assert!(record_auth_server(Json::Null, "box1", "https://auth").is_none());
}

#[test]
fn usable_or_refresh_avoids_the_rejected_token() {
    assert_eq!(usable_or_refresh(Some("t".to_string()), None, true), (Some("t".to_string()), false));
    assert_eq!(usable_or_refresh(Some("t".to_string()), Some("t"), true), (None, true));
    assert_eq!(usable_or_refresh(Some("t".to_string()), None, false), (None, true));
    assert_eq!(usable_or_refresh(None, None, true), (None, true));
}

#[test]
fn jwt_payload_is_the_decoded_second_segment() {
    assert_eq!(jwt_payload("eyJhIjoxfQ.eyJleHAiOjF9.sig").unwrap(), b"{\"exp\":1}");
    assert!(jwt_payload("not-a-jwt").is_none());
}

#[test]
fn a_pinned_token_wins_and_blank_ones_are_ignored() {
    let mut auth = GatewayAuth::new("http://box1:9000", Some("b".into()), Some("e".into()), None);
    assert_eq!(auth.box_host(), "box1");
    assert!(auth.has_static_token());
    assert_eq!(auth.cached_token(false).as_deref(), Some("b"));
    let auth = GatewayAuth::new("http://box1:9000", None, Some("  ".into()), None);
    assert!(!auth.has_static_token());
    let auth = GatewayAuth::new("http://box1:9000", None, Some("e".into()), None);
    assert!(auth.has_static_token());
}

#[test]
fn learning_the_auth_server_is_read_back() {
    let mut auth = GatewayAuth::new("http://box1:9000", None, None, None);
    assert!(!auth.wants_store_token());
    assert!(auth.learn_auth_server("https://auth"));
    assert!(!auth.learn_auth_server("https://auth"));
    assert_eq!(auth.auth_url().as_deref(), Some("https://auth"));
    assert!(auth.wants_store_token());
    auth.cache_token("tok");
    assert_eq!(auth.cached_token(true).as_deref(), Some("tok"));
    assert_eq!(auth.cached_token(false), None);
    assert_eq!(auth.cached_store_token(), None);
}
