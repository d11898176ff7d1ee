use lager::tunnel::{
    classify, connect_request, host_port, io_error, parse_head, refusal_body, refusal_error, Head, Refusal,
    MAX_BODY_BYTES,
};
use lager::Error;

#[test]
fn request_uses_the_bare_port_and_the_token() {
    let req = String::from_utf8(connect_request(2331, "box1", Some("t"))).unwrap();
    assert_eq!(
        req,
        "CONNECT 2331 HTTP/1.1\r\nHost: box1:2331\r\nAuthorization: Bearer t\r\n\r\n"
    );
    let bare = String::from_utf8(connect_request(2331, "box1", None)).unwrap();
    assert!(!bare.contains("Authorization"));
}

#[test]
fn head_parsing() {
    let head = parse_head(
        b"HTTP/1.1 401 Unauthorized\r\nX-Gateway-Auth-Url: https://auth\r\n\
          Content-Length: 12\r\n\r\n",
    )
    .unwrap();
    assert_eq!(head.status, 401);
    assert_eq!(head.discovery.as_deref(), Some("https://auth"));
    assert_eq!(head.content_length, 12);
    assert!(parse_head(b"SSH-2.0-OpenSSH\r\n\r\n").is_none());
}

#[test]
fn head_parsing_rejects_bytes_that_are_not_text() {
    assert!(parse_head(&[0xff, 0xfe, 0x00]).is_none());
}

fn head(status: u16, discovery: Option<&str>) -> Head {
    Head { status, discovery: discovery.map(str::to_string), content_length: 0 }
}

#[test]
fn classification() {
    assert!(matches!(
        classify(&head(403, Some("https://a")), String::new()),
        Refusal::Denied { status: 403, .. }
    ));
    assert!(matches!(classify(&head(403, None), String::new()), Refusal::NotDebugPort { .. }));
    assert!(matches!(classify(&head(502, None), String::new()), Refusal::NothingListening { .. }));
    assert!(matches!(
        classify(&head(501, None), String::new()),
        Refusal::Unsupported { status: Some(501) }
    ));
}

#[test]
fn host_port_split() {
    assert_eq!(host_port("http://192.168.1.42:8765").unwrap(), ("192.168.1.42".to_string(), 8765));
    assert_eq!(host_port("http://[::1]:8765").unwrap(), ("::1".to_string(), 8765));
    assert!(host_port("http://box").is_err());
}

#[test]
fn a_denied_tunnel_asks_for_sign_in() {
    let e = refusal_error(&Refusal::Denied { status: 401, auth_url: "https://a".into() }, "box1", 2331);
    assert!(matches!(e, Error::AuthRequired { .. }));
}

#[test]
fn io_errors_split_timeouts_from_connection_failures() {
    assert!(matches!(io_error("tunnel", true, "x"), Error::Timeout(_)));
    assert!(matches!(io_error("tunnel", false, "x"), Error::Connection(_)));
}

#[test]
fn refusal_bodies_are_decoded_trimmed_and_capped() {
    assert_eq!(refusal_body(b"  not a debug port \r\n"), "not a debug port");
    assert_eq!(refusal_body(b""), "");
    assert_eq!(refusal_body(b" bad\xff byte "), "bad\u{fffd} byte");
    let long = vec![b'x'; MAX_BODY_BYTES + 10];
    assert_eq!(refusal_body(&long).len(), MAX_BODY_BYTES);
}
