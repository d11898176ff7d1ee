//! BluFi (box-level): ESP32 WiFi provisioning over BLE, on `POST
//! /blufi/command`. Device operations give the box 20 s to reach the
//! target and the client 40 s more (longer for provisioning and the
//! target's own WiFi scan).

use vstd::prelude::*;
use vstd::string::StringExecFns;
use crate::json::{member, member_str, obj_keys, with_member, Json};
use crate::nets::wifi::box_params;
use crate::wire::{box_command, keyed, HttpRequest, Method, Timeout};

verus! {

/// The box-side connect timeout, as the JSON number it is sent as.
pub open spec fn connect_timeout_text() -> Seq<char> {
    "20.0"@
}

/// `r` is a `/blufi/command` request for `action` on `device_name` with a
/// client budget of `ms`, carrying the box-side connect timeout.
pub open spec fn blufi_request(r: HttpRequest, action: Seq<char>, device_name: Seq<char>, ms: u64) -> bool {
    &&& r.method == Method::Post
    &&& r.path@ == "/blufi/command"@
    &&& r.timeout == Timeout::After(ms)
    &&& r.body matches Some(b) && member_str(b, "action"@) == Some(action)
    &&& member_str(box_params(r), "device_name"@) == Some(device_name)
    &&& member(box_params(r), "timeout"@) matches Some(Json::Number(t)) && t@ == connect_timeout_text()
}

fn target_params(device_name: &str) -> (p: Json)
    ensures
        member_str(p, "device_name"@) == Some(device_name@),
        member(p, "timeout"@) matches Some(Json::Number(t)) && t@ == connect_timeout_text(),
        keyed(p, set!["device_name"@, "timeout"@]),
        p is Object,
{
    proof {
        reveal_strlit("device_name");
        reveal_strlit("timeout");
        reveal_strlit("20.0");
    }
    assert("device_name"@.len() != "timeout"@.len());
    let p1 = with_member(Json::empty_object(), "device_name", Json::str_of(device_name));
    let p = with_member(p1, "timeout", Json::Number(String::from_str("20.0")));
    assert(member(p, "device_name"@) == member(p1, "device_name"@));
    assert(obj_keys(p) =~= set!["device_name"@, "timeout"@]);
    p
}

/// Connect to a BluFi target: firmware version plus WiFi state (60 s).
pub fn connect(device_name: &str) -> (r: HttpRequest)
    ensures
        blufi_request(r, "connect"@, device_name@, 60000),
        keyed(box_params(r), set!["device_name"@, "timeout"@]),
{
    box_command("/blufi/command", "connect", target_params(device_name), Timeout::After(60000))
}

/// The target's own WiFi scan (90 s).
pub fn wifi_scan(device_name: &str) -> (r: HttpRequest)
    ensures
        blufi_request(r, "wifi_scan"@, device_name@, 90000),
        keyed(box_params(r), set!["device_name"@, "timeout"@]),
{
    box_command("/blufi/command", "wifi_scan", target_params(device_name), Timeout::After(90000))
}

/// The target's WiFi state (60 s).
pub fn status(device_name: &str) -> (r: HttpRequest)
    ensures
        blufi_request(r, "status"@, device_name@, 60000),
        keyed(box_params(r), set!["device_name"@, "timeout"@]),
{
    box_command("/blufi/command", "status", target_params(device_name), Timeout::After(60000))
}

/// The target's firmware version (60 s).
pub fn version(device_name: &str) -> (r: HttpRequest)
    ensures
        blufi_request(r, "version"@, device_name@, 60000),
        keyed(box_params(r), set!["device_name"@, "timeout"@]),
{
    box_command("/blufi/command", "version", target_params(device_name), Timeout::After(60000))
}

/// Provision the target onto a network (120 s).
pub fn provision(device_name: &str, ssid: &str, password: &str) -> (r: HttpRequest)
    ensures
        blufi_request(r, "provision"@, device_name@, 120000),
        member_str(box_params(r), "ssid"@) == Some(ssid@),
        member_str(box_params(r), "password"@) == Some(password@),
        keyed(box_params(r), set!["device_name"@, "timeout"@, "ssid"@, "password"@]),
{
    proof {
        reveal_strlit("device_name");
        reveal_strlit("timeout");
        reveal_strlit("ssid");
        reveal_strlit("password");
    }
    assert("device_name"@.len() == 11 && "timeout"@.len() == 7 && "ssid"@.len() == 4
        && "password"@.len() == 8);
    let p0 = target_params(device_name);
    let p1 = with_member(p0, "ssid", Json::str_of(ssid));
    let p = with_member(p1, "password", Json::str_of(password));
    assert(member(p, "ssid"@) == member(p1, "ssid"@));
    assert(member(p, "device_name"@) == member(p0, "device_name"@));
    assert(member(p, "timeout"@) == member(p0, "timeout"@));
    assert(obj_keys(p) =~= set!["device_name"@, "timeout"@, "ssid"@, "password"@]);
    box_command("/blufi/command", "provision", p, Timeout::After(120000))
}

} // verus!
