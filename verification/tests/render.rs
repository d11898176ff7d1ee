use lager::codec::{base64_encode, base64url_decode, hex_decode, hex_encode};
use lager::json::Json;
use lager::nets::usb::UsbPort;
use lager::render::describe;
use lager::wire::CommandResponse;
use lager::Error;

fn envelope() -> CommandResponse {
    CommandResponse {
        success: true,
        action: None,
        message: None,
        value: None,
        state: None,
        error: None,
        extra: Vec::new(),
    }
}

#[test]
fn values_render_as_serde_json_debug() {
    assert_eq!(describe(&None), "None");
    assert_eq!(describe(&Some(Json::Null)), "Some(Null)");
    assert_eq!(describe(&Some(Json::Bool(false))), "Some(Bool(false))");
    assert_eq!(describe(&Some(Json::uint(1))), "Some(Number(1))");
    assert_eq!(describe(&Some(Json::Number("-1.5".to_string()))), "Some(Number(-1.5))");
    assert_eq!(describe(&Some(Json::str_of("on"))), "Some(String(\"on\"))");
    assert_eq!(
        describe(&Some(Json::Array(vec![Json::Bool(true), Json::Null, Json::uint(7)]))),
        "Some(Array [Bool(true), Null, Number(7)])"
    );
    assert_eq!(describe(&Some(Json::Array(vec![]))), "Some(Array [])");
    assert_eq!(
        describe(&Some(Json::Object(vec![
            ("a".to_string(), Json::Null),
            ("b".to_string(), Json::Array(vec![Json::str_of("x")])),
        ]))),
        "Some(Object {\"a\": Null, \"b\": Array [String(\"x\")]})"
    );
    assert_eq!(describe(&Some(Json::Object(vec![]))), "Some(Object {})");
}

#[test]
fn strings_render_with_debug_escapes() {
    let s = Json::str_of("a\"b\\c\nd\te\r\u{0}\u{1b}\u{7f}é");
    assert_eq!(describe(&Some(s)), "Some(String(\"a\\\"b\\\\c\\nd\\te\\r\\0\\u{1b}\\u{7f}é\"))");
    assert_eq!(describe(&Some(Json::str_of("it's"))), "Some(String(\"it's\"))");
}

#[test]
fn unexpected_port_state_names_the_value() {
    let port = UsbPort::new("usb1");
    let mut resp = envelope();
    resp.state = Some(Json::uint(1));
    match port.state(Ok((200, resp))) {
        Err(Error::Decode(m)) => assert_eq!(m, "expected \"enabled\"/\"disabled\" state, got Some(Number(1))"),
        other => panic!("unexpected: {other:?}"),
    }
    match port.state(Ok((200, envelope()))) {
        Err(Error::Decode(m)) => assert_eq!(m, "expected \"enabled\"/\"disabled\" state, got None"),
        other => panic!("unexpected: {other:?}"),
    }
    let mut resp = envelope();
    resp.state = Some(Json::str_of("on"));
    assert_eq!(port.state(Ok((200, resp))).unwrap(), false);
}

#[test]
fn unexpected_reconnected_flag_names_the_value() {
    let port = UsbPort::new("usb1");
    let mut resp = envelope();
    resp.extra = vec![("reconnected".to_string(), Json::str_of("yes"))];
    match port.cycle(Ok((200, resp))) {
        Err(Error::Decode(m)) => assert_eq!(m, "expected boolean 'reconnected', got Some(String(\"yes\"))"),
        other => panic!("unexpected: {other:?}"),
    }
}

#[test]
fn usb_request_body_has_exactly_netname_and_action() {
    let port = UsbPort::new("usb1");
    let r = port.request("recover");
    match r.body {
        Some(Json::Object(entries)) => {
            let mut keys: Vec<&str> = entries.iter().map(|(k, _)| k.as_str()).collect();
            keys.sort();
            assert_eq!(keys, vec!["action", "netname"]);
        },
        other => panic!("unexpected body: {other:?}"),
    }
}

#[test]
fn base64_output_shape() {
    assert_eq!(base64_encode(b""), "");
    assert_eq!(base64_encode(b"f"), "Zg==");
    assert_eq!(base64_encode(b"fo"), "Zm8=");
    assert_eq!(base64_encode(b"foo"), "Zm9v");
    assert_eq!(base64_encode(b"foobar"), "Zm9vYmFy");
    for n in 0..10usize {
        let data: Vec<u8> = (0..n).map(|i| (i * 37 + 250) as u8).collect();
        let e = base64_encode(&data);
        assert_eq!(e.len(), 4 * ((n + 2) / 3));
        let pad = (3 - n % 3) % 3;
        assert!(e.ends_with(&"=".repeat(pad)));
        assert!(e[..e.len() - pad].chars().all(|c| c.is_ascii_alphanumeric() || c == '+' || c == '/'));
    }
}

#[test]
fn base64url_decoding_undoes_url_safe_encoding() {
    for n in 0..12usize {
        let data: Vec<u8> = (0..n).map(|i| (i * 91 + 251) as u8).collect();
        let e = base64_encode(&data).replace('+', "-").replace('/', "_");
        assert_eq!(base64url_decode(&e), Some(data.clone()));
        assert_eq!(base64url_decode(e.trim_end_matches('=')), Some(data));
    }
}

#[test]
fn hex_decoding_undoes_encoding_and_halves_the_length() {
    let data = vec![0u8, 1, 0x7f, 0x80, 0xfe, 0xff];
    let h = hex_encode(&data);
    assert_eq!(h, "00017f80feff");
    assert_eq!(hex_decode(&h), Some(data));
    let v = hex_decode("  0A0b  ").unwrap();
    assert_eq!(v.len() * 2, "  0A0b  ".trim().len());
    assert_eq!(hex_decode("abc"), None);
}

#[test]
fn strings_render_as_serde_json_values_do() {
    let samples = [
        "plain", "it's", "a\"b\\c", "\n\r\t\0", "\u{1}\u{1b}\u{7f}", "\u{85}", "e\u{301}", "\u{301}x", "é",
        "\u{200b}", "\u{feff}", "\u{ad}", "日本", "\u{10ffff}", "\u{e000}", "😀",
    ];
    for s in samples {
        let expected = format!("{:?}", Some(serde_json::Value::String(s.to_string())));
        assert_eq!(describe(&Some(Json::str_of(s))), expected, "rendering {s:?}");
    }
    let mut map = serde_json::Map::new();
    map.insert("k'\u{85}".to_string(), serde_json::Value::Null);
    let expected = format!("{:?}", Some(serde_json::Value::Object(map)));
    let ours = Json::Object(vec![("k'\u{85}".to_string(), Json::Null)]);
    assert_eq!(describe(&Some(ours)), expected);
}
