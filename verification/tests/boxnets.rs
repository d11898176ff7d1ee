use lager::json::Json;
use lager::nets::{arm, ble, blufi, router, solar, webcam, wifi};
use lager::wire::{parse_get, CommandResponse, HttpRequest, Method, Timeout};
use lager::Error;

fn body(r: &HttpRequest) -> &Json {
    r.body.as_ref().expect("request has a body")
}

fn field<'a>(r: &'a HttpRequest, key: &str) -> Option<&'a str> {
    body(r).get_str(key)
}

fn param<'a>(r: &'a HttpRequest, key: &str) -> Option<&'a Json> {
    body(r).get("params").and_then(|p| p.get(key))
}

fn number(j: Option<&Json>) -> Option<&str> {
    match j {
        Some(Json::Number(t)) => Some(t.as_str()),
        _ => None,
    }
}

fn empty_response(value: Option<Json>) -> CommandResponse {
    CommandResponse {
        success: true,
        action: None,
        message: None,
        value,
        state: None,
        error: None,
        extra: Vec::new(),
    }
}

#[test]
fn webcam_start_gets_a_longer_budget() {
    let r = webcam::start("cam1");
    assert_eq!(r.method, Method::Post);
    assert_eq!(r.path, "/net/command");
    assert_eq!(r.timeout, Timeout::After(30000));
    assert_eq!(field(&r, "netname"), Some("cam1"));
    assert_eq!(field(&r, "role"), Some("webcam"));
    assert_eq!(field(&r, "action"), Some("start"));
    let s = webcam::request("cam1", "status");
    assert_eq!(s.timeout, Timeout::Default);
    assert_eq!(field(&s, "action"), Some("status"));
}

#[test]
fn router_requests_send_no_role() {
    let r = router::request("rt1", "reboot");
    assert_eq!(r.timeout, Timeout::After(60000));
    assert_eq!(field(&r, "action"), Some("reboot"));
    assert!(body(&r).get("role").is_none());
    let i = router::interface_action("rt1", "enable_interface", "ether2");
    assert_eq!(param(&i, "interface").and_then(Json::as_str), Some("ether2"));
    assert!(body(&i).get("role").is_none());
    let w = router::set_wireless_ssid("rt1", "wlan1", "lab");
    assert_eq!(field(&w, "action"), Some("set_wireless_ssid"));
    assert_eq!(param(&w, "interface").and_then(Json::as_str), Some("wlan1"));
    assert_eq!(param(&w, "ssid").and_then(Json::as_str), Some("lab"));
}

#[test]
fn router_raw_value_defaults_to_null() {
    assert_eq!(router::value_raw(empty_response(None)), Json::Null);
    let v = Json::str_of("ok");
    assert_eq!(router::value_raw(empty_response(Some(Json::str_of("ok")))), v);
}

#[test]
fn wifi_requests_use_the_box_path() {
    let s = wifi::status();
    assert_eq!(s.path, "/wifi/command");
    assert_eq!(s.timeout, Timeout::After(90000));
    assert!(body(&s).get("netname").is_none());
    let c = wifi::connect("lab", "secret");
    assert_eq!(field(&c, "action"), Some("connect"));
    assert_eq!(param(&c, "ssid").and_then(Json::as_str), Some("lab"));
    assert_eq!(param(&c, "password").and_then(Json::as_str), Some("secret"));
    let d = wifi::delete("lab");
    assert_eq!(param(&d, "ssid").and_then(Json::as_str), Some("lab"));
    let sc = wifi::scan("wlan0");
    assert_eq!(param(&sc, "interface").and_then(Json::as_str), Some("wlan0"));
}

#[test]
fn ble_device_requests_carry_the_connect_timeout() {
    let r = ble::info("AA:BB:CC:DD:EE:FF");
    assert_eq!(r.path, "/ble/command");
    assert_eq!(r.timeout, Timeout::After(40000));
    assert_eq!(field(&r, "action"), Some("info"));
    assert_eq!(param(&r, "address").and_then(Json::as_str), Some("AA:BB:CC:DD:EE:FF"));
    assert_eq!(number(param(&r, "timeout")), Some("10.0"));
    assert_eq!(field(&ble::connect("x"), "action"), Some("connect"));
    assert_eq!(field(&ble::disconnect("x"), "action"), Some("disconnect"));
}

#[test]
fn blufi_budgets_follow_the_operation() {
    assert_eq!(blufi::connect("esp").timeout, Timeout::After(60000));
    assert_eq!(blufi::status("esp").timeout, Timeout::After(60000));
    assert_eq!(blufi::version("esp").timeout, Timeout::After(60000));
    assert_eq!(blufi::wifi_scan("esp").timeout, Timeout::After(90000));
    let p = blufi::provision("esp", "lab", "secret");
    assert_eq!(p.path, "/blufi/command");
    assert_eq!(p.timeout, Timeout::After(120000));
    assert_eq!(param(&p, "device_name").and_then(Json::as_str), Some("esp"));
    assert_eq!(param(&p, "ssid").and_then(Json::as_str), Some("lab"));
    assert_eq!(param(&p, "password").and_then(Json::as_str), Some("secret"));
    assert_eq!(number(param(&p, "timeout")), Some("20.0"));
}

#[test]
fn arm_requests_use_the_quick_budget() {
    let r = arm::request("arm1", "go_home");
    assert_eq!(r.timeout, Timeout::After(45000));
    assert_eq!(field(&r, "role"), Some("arm"));
    assert_eq!(field(&r, "action"), Some("go_home"));
    let a = arm::set_acceleration("arm1", 1000, 2000, 500);
    assert_eq!(field(&a, "action"), Some("set_acceleration"));
    assert_eq!(param(&a, "acceleration").and_then(Json::as_u64), Some(1000));
    assert_eq!(param(&a, "travel_acceleration").and_then(Json::as_u64), Some(2000));
    assert_eq!(param(&a, "retract_acceleration").and_then(Json::as_u64), Some(500));
}

#[test]
fn solar_mode_changes_wait_longer_than_reads() {
    let m = solar::mode_request("sol1", "set");
    assert_eq!(m.timeout, Timeout::After(120000));
    assert_eq!(field(&m, "role"), Some("solar"));
    let r = solar::read_request("sol1", "voc");
    assert_eq!(r.timeout, Timeout::After(90000));
    assert_eq!(field(&r, "action"), Some("voc"));
}

#[test]
fn get_replies_pass_the_body_through_on_success() {
    let ok = parse_get(200, Json::str_of("healthy"));
    assert_eq!(ok.unwrap(), Json::str_of("healthy"));
    let refused = Json::Object(vec![("error".to_string(), Json::str_of("no such route"))]);
    match parse_get(404, refused) {
        Err(Error::Box { status, message }) => {
            assert_eq!(status, 404);
            assert_eq!(message, "no such route");
        }
        other => panic!("unexpected {other:?}"),
    }
    match parse_get(500, Json::Null) {
        Err(Error::Box { status, message }) => {
            assert_eq!(status, 500);
            assert_eq!(message, "request failed");
        }
        other => panic!("unexpected {other:?}"),
    }
}
