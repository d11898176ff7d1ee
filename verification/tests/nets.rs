use lager::json::{with_member, Json};
use lager::nets::battery::{self, BatteryMode};
use lager::nets::debug::{self, debug_body, find_debug_record, ConnectOptions, FirmwareKind, RttOptions};
use lager::nets::dfu::{self, Dfu, DfuOptions};
use lager::nets::eload::EloadMode;
use lager::nets::gpio::{self, Level};
use lager::nets::i2c;
use lager::nets::rtt::start_payload;
use lager::nets::scope::Scope;
use lager::nets::spi::{self, BitOrder, CsActive, CsMode, SpiConfig, SpiOptions};
use lager::nets::uart;
use lager::nets::usb::{cycle_compat, state_compat, UsbPort};
use lager::wire::{CommandResponse, Timeout};
use lager::Error;

fn obj(entries: Vec<(&str, Json)>) -> Json {
    let mut j = Json::empty_object();
    for (k, v) in entries {
        j = with_member(j, k, v);
    }
    j
}

fn envelope(success: bool) -> CommandResponse {
    CommandResponse {
        success,
        action: None,
        message: None,
        value: None,
        state: None,
        error: None,
        extra: Vec::new(),
    }
}

fn params(r: &lager::wire::HttpRequest) -> &Json {
    r.body.as_ref().unwrap().get("params").unwrap()
}

#[test]
fn firmware_kind_from_extension() {
    assert_eq!(FirmwareKind::from_path("a/b/fw.hex").unwrap(), FirmwareKind::Hex);
    assert_eq!(FirmwareKind::from_path("FW.ELF").unwrap(), FirmwareKind::Elf);
    assert!(FirmwareKind::from_path("fw.txt").is_err());
}

#[test]
fn firmware_kind_follows_path_rules() {
    assert_eq!(FirmwareKind::from_path("out/fw.bin/").unwrap(), FirmwareKind::Bin);
    assert_eq!(FirmwareKind::from_path("a.b.hex").unwrap(), FirmwareKind::Hex);
    assert!(FirmwareKind::from_path(".hex").is_err());
    assert!(FirmwareKind::from_path("fw.hex/..").is_err());
    match FirmwareKind::from_path("fw") {
        Err(Error::Config(m)) => {
            assert_eq!(m, "cannot infer firmware type from 'fw'; use flash_with to set it explicitly")
        }
        other => panic!("unexpected: {other:?}"),
    }
}

#[test]
fn debug_body_wraps_net_and_params() {
    let net = obj(vec![("name", Json::str_of("debug1")), ("role", Json::str_of("debug")), ("pin", Json::str_of("nrf52"))]);
    let body = debug_body(net, obj(vec![("halt", Json::Bool(true))]));
    assert_eq!(body.get("net").unwrap().get_str("name"), Some("debug1"));
    assert_eq!(body.get("halt"), Some(&Json::Bool(true)));
}

#[test]
fn debug_requests_carry_budgets_and_flags() {
    let r = debug::connect(Json::Null, &ConnectOptions::default());
    assert_eq!(r.path, "/debug/connect");
    assert_eq!(r.timeout, Timeout::After(30000));
    let body = r.body.unwrap();
    assert_eq!(body.get("gdb"), Some(&Json::Bool(true)));
    assert!(body.get("speed").is_none());
    let r = debug::read_memory(Json::Null, 0x0800_0000, 16);
    let body = r.body.unwrap();
    assert_eq!(body.get("start_addr"), Some(&Json::uint(0x0800_0000)));
    assert_eq!(body.get("length"), Some(&Json::uint(16)));
    assert_eq!(debug::erase(Json::Null).timeout, Timeout::After(120000));
}

#[test]
fn flashing_a_binary_defaults_its_address() {
    let r = debug::flash(Json::Null, b"foo", FirmwareKind::Bin, None);
    let bin = r.body.unwrap();
    let bin = bin.get("binfile").unwrap();
    assert_eq!(bin.get_str("content"), Some("Zm9v"));
    assert_eq!(bin.get("address"), Some(&Json::uint(0x0800_0000)));
    let r = debug::flash(Json::Null, b"foo", FirmwareKind::Hex, Some(1));
    let body = r.body.unwrap();
    assert!(body.get("hexfile").unwrap().get("address").is_none());
}

#[test]
fn rtt_bodies_carry_the_search_window() {
    let opts = RttOptions { channel: 1, search_addr: Some(0x2000_0000), search_size: None, chunk_size: Some(9) };
    let b = debug::rtt_body(Json::Null, &opts);
    assert_eq!(b.get("channel"), Some(&Json::uint(1)));
    assert_eq!(b.get("timeout"), Some(&Json::Null));
    assert_eq!(b.get("search_addr"), Some(&Json::uint(0x2000_0000)));
    assert!(b.get("search_size").is_none());
    assert!(b.get("chunk_size").is_none());
}

#[test]
fn debug_records_are_found_by_name_and_role() {
    let recs = vec![
        obj(vec![("name", Json::str_of("d")), ("role", Json::str_of("gpio"))]),
        obj(vec![("name", Json::str_of("d")), ("role", Json::str_of("debug"))]),
    ];
    let rec = find_debug_record(recs, "d").unwrap();
    assert_eq!(rec.get_str("role"), Some("debug"));
    let recs = vec![obj(vec![("name", Json::str_of("d")), ("role", Json::str_of("gpio"))])];
    match find_debug_record(recs, "d").unwrap_err() {
        Error::Box { status, message } => {
            assert_eq!(status, 404);
            assert_eq!(message, "net 'd' exists but is not a debug net");
        }
        other => panic!("unexpected: {other:?}"),
    }
    match find_debug_record(vec![], "x").unwrap_err() {
        Error::Box { message, .. } => assert_eq!(message, "debug net 'x' not found on this box"),
        other => panic!("unexpected: {other:?}"),
    }
}

#[test]
fn start_payload_omits_unset_options() {
    let body = start_payload("dbg", &RttOptions::default());
    assert_eq!(body.get_str("netname"), Some("dbg"));
    assert_eq!(body.get("channel"), Some(&Json::uint(0)));
    match &body {
        Json::Object(e) => assert_eq!(e.len(), 2),
        _ => panic!("not an object"),
    }
}

#[test]
fn start_payload_carries_explicit_options() {
    let body = start_payload(
        "dbg",
        &RttOptions { channel: 1, search_addr: Some(0x2002_0000), search_size: Some(0x4000), chunk_size: Some(4096) },
    );
    assert_eq!(body.get_str("netname"), Some("dbg"));
    assert_eq!(body.get("channel"), Some(&Json::uint(1)));
    assert_eq!(body.get("search_addr"), Some(&Json::uint(0x2002_0000)));
    assert_eq!(body.get("search_size"), Some(&Json::uint(0x4000)));
    assert_eq!(body.get("chunk_size"), Some(&Json::uint(4096)));
}

#[test]
fn uart_start_payload_has_no_overrides() {
    let b = uart::start_payload("uart1");
    assert_eq!(b.get_str("netname"), Some("uart1"));
    assert_eq!(b.get("overrides"), Some(&Json::empty_object()));
}

#[test]
fn enum_wire_encodings() {
    assert_eq!(BatteryMode::Static.as_str(), "static");
    assert_eq!(BatteryMode::Dynamic.as_str(), "dynamic");
    assert_eq!(EloadMode::Cc.as_str(), "cc");
    assert_eq!(EloadMode::Cp.as_str(), "cp");
    assert_eq!(Level::High.as_str(), "high");
    assert!(Level::High.is_high());
    assert!(!Level::Low.is_high());
    assert_eq!(gpio::level_of(3), Level::High);
    assert_eq!(gpio::level_of(0), Level::Low);
    assert_eq!(BitOrder::Lsb.as_str(), "lsb");
    assert_eq!(CsActive::High.as_str(), "high");
    assert_eq!(CsMode::Manual.as_str(), "manual");
}

#[test]
fn battery_and_gpio_requests() {
    let r = battery::set_mode("bat", BatteryMode::Dynamic);
    assert_eq!(r.path, "/battery/command");
    assert_eq!(params(&r).get_str("mode_type"), Some("dynamic"));
    let r = battery::enable("bat");
    assert_eq!(r.body.as_ref().unwrap().get_str("action"), Some("enable_battery"));
    let r = gpio::toggle("g");
    assert_eq!(params(&r).get_str("level"), Some("toggle"));
    assert_eq!(r.body.as_ref().unwrap().get_str("role"), Some("gpio"));
}

#[test]
fn spi_requests() {
    let config = SpiConfig { mode: Some(3), bit_order: Some(BitOrder::Msb), ..SpiConfig::default() };
    let r = spi::configure("spi1", &config);
    let p = params(&r);
    assert_eq!(p.get("mode"), Some(&Json::uint(3)));
    assert_eq!(p.get_str("bit_order"), Some("msb"));
    assert!(p.get("word_size").is_none());
    let r = spi::transfer("spi1", &[1, 2], 4, &SpiOptions::default());
    let p = params(&r);
    assert_eq!(p.get("data"), Some(&Json::Array(vec![Json::uint(1), Json::uint(2)])));
    assert_eq!(p.get("fill"), Some(&Json::uint(0xFF)));
    assert_eq!(p.get("keep_cs"), Some(&Json::Bool(false)));
    let t = spi::transfer_of(Ok(vec![7]), Some(8)).unwrap();
    assert_eq!(t.words, vec![7]);
    assert_eq!(t.word_size, 8);
    assert!(matches!(spi::transfer_of(Ok(vec![]), None), Err(Error::Decode(_))));
    assert!(matches!(spi::transfer_of(Ok(vec![]), Some(-1)), Err(Error::Decode(_))));
}

#[test]
fn i2c_requests() {
    let r = i2c::write_read("i2c1", 0x50, &[0x00, 0x10], 2);
    assert_eq!(r.body.as_ref().unwrap().get_str("action"), Some("transfer"));
    let p = params(&r);
    assert_eq!(p.get("address"), Some(&Json::uint(0x50)));
    assert_eq!(p.get("data"), Some(&Json::Array(vec![Json::uint(0), Json::uint(0x10)])));
    assert_eq!(p.get("num_bytes"), Some(&Json::uint(2)));
    let r = i2c::configure("i2c1", None, Some(true));
    assert!(params(&r).get("frequency_hz").is_none());
    assert_eq!(params(&r).get("pull_ups"), Some(&Json::Bool(true)));
}

#[test]
fn usb_port_states_and_old_boxes() {
    let port = UsbPort::new("usb1");
    assert_eq!(port.name(), "usb1");
    let mut resp = envelope(true);
    resp.state = Some(Json::str_of("enabled"));
    assert_eq!(port.state(Ok((200, resp))).unwrap(), true);
    let mut resp = envelope(true);
    resp.state = Some(Json::str_of("disabled"));
    assert_eq!(port.state(Ok((200, resp))).unwrap(), false);
    match port.state(Ok((200, envelope(true)))).unwrap_err() {
        Error::Decode(m) => assert!(m.starts_with("expected \"enabled\"/\"disabled\" state, got ") && m.len() > 42),
        other => panic!("unexpected: {other:?}"),
    }
    let mut old = envelope(false);
    old.error = Some("action must be one of (enable|disable|toggle)".into());
    assert!(matches!(port.state(Ok((400, old))), Err(Error::UnsupportedByBox { .. })));
    let mut bad = envelope(false);
    bad.error = Some("bad request".into());
    assert!(matches!(port.state(Ok((400, bad))), Err(Error::Box { status: 400, .. })));
}

#[test]
fn usb_cycle_reports_reconnection() {
    let port = UsbPort::new("usb1");
    let mut resp = envelope(true);
    resp.extra = vec![("reconnected".to_string(), Json::Bool(true))];
    assert_eq!(port.cycle(Ok((200, resp))).unwrap(), Some(true));
    assert_eq!(port.cycle(Ok((200, envelope(true)))).unwrap(), None);
    let mut resp = envelope(true);
    resp.extra = vec![("reconnected".to_string(), Json::Null)];
    assert_eq!(port.cycle(Ok((200, resp))).unwrap(), None);
    let mut resp = envelope(true);
    resp.extra = vec![("reconnected".to_string(), Json::uint(1))];
    assert!(matches!(port.cycle(Ok((200, resp))), Err(Error::Decode(_))));
    let mut old = envelope(false);
    old.error = Some("action must be enable|disable|toggle|state".into());
    assert!(matches!(port.recover(Ok((400, old))), Err(Error::UnsupportedByBox { .. })));
    assert!(port.recover(Ok((200, envelope(true)))).is_ok());
    let transport = Error::Connection("down".into());
    assert!(matches!(port.recover(Err(transport)), Err(Error::Connection(_))));
}

#[test]
fn compat_mappers_leave_other_errors_alone() {
    let e = state_compat(Error::Timeout("t".into()));
    assert!(matches!(e, Error::Timeout(_)));
    let e = cycle_compat(Error::Box { status: 400, message: "enable|disable|toggle|cycle".into() });
    assert!(matches!(e, Error::Box { status: 400, .. }));
}

#[test]
fn dfu_requests_and_replies() {
    let opts = DfuOptions { vid_pid: Some("0483:df11".into()), alt: Some(0), reset: true, ..DfuOptions::default() };
    let r = dfu::download_request(b"foo", &opts);
    assert_eq!(r.path, "/usb/dfu");
    assert_eq!(r.timeout, Timeout::After(180000));
    let p = params(&r);
    assert_eq!(p.get_str("firmware"), Some("Zm9v"));
    assert_eq!(p.get_str("vid_pid"), Some("0483:df11"));
    assert_eq!(p.get("alt"), Some(&Json::uint(0)));
    assert_eq!(p.get("reset"), Some(&Json::Bool(true)));
    assert!(p.get("serial").is_none());
    assert_eq!(dfu::list_request().timeout, Timeout::After(30000));
    let d = Dfu::new();
    let mut resp = envelope(true);
    resp.value = Some(obj(vec![("devices", Json::Array(vec![]))]));
    assert_eq!(d.list(Ok((200, resp))).unwrap(), Json::Array(vec![]));
    let missing = Error::Box { status: 404, message: "HTTP 404 (non-JSON body)".into() };
    assert!(matches!(d.detach(Err(missing)), Err(Error::UnsupportedByBox { .. })));
    let mut failed = envelope(false);
    failed.error = Some("dfu-util failed".into());
    assert!(matches!(d.download(Ok((500, failed))), Err(Error::Box { status: 500, .. })));
}

#[test]
fn scope_is_a_stub() {
    let scope = Scope::new("scope1");
    assert_eq!(scope.name(), "scope1");
    assert!(matches!(scope.enable(), Err(Error::NotSupportedByBox { feature: "scope", .. })));
    assert!(matches!(scope.disable(), Err(Error::NotSupportedByBox { .. })));
}
