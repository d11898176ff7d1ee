//! BLE (box-level): the box's own Bluetooth adapter, on `POST
//! /ble/command`. Device operations give the box 10 s to reach the device
//! and the client 30 s more.

use vstd::prelude::*;
use vstd::string::StringExecFns;
use crate::json::{member, member_str, obj_keys, with_member, Json};
use crate::nets::wifi::box_params;
use crate::wire::{box_command, keyed, str_params, HttpRequest, Method, Timeout};

verus! {

/// The box-side connect timeout, as the JSON number it is sent as.
pub open spec fn connect_timeout_text() -> Seq<char> {
    "10.0"@
}

/// `r` is a `/ble/command` request for `action` with the device budget
/// (10 s box-side plus 30 s).
pub open spec fn ble_request(r: HttpRequest, action: Seq<char>) -> bool {
    &&& r.method == Method::Post
    &&& r.path@ == "/ble/command"@
    &&& r.timeout == Timeout::After(40000)
    &&& r.body matches Some(b) && member_str(b, "action"@) == Some(action)
}

fn device_params(address: &str) -> (p: Json)
    ensures
        member_str(p, "address"@) == Some(address@),
        member(p, "timeout"@) matches Some(Json::Number(t)) && t@ == connect_timeout_text(),
        keyed(p, set!["address"@, "timeout"@]),
{
    proof {
        reveal_strlit("address");
        reveal_strlit("timeout");
        reveal_strlit("10.0");
    }
    assert("address"@[0] != "timeout"@[0]);
    let p1 = with_member(Json::empty_object(), "address", Json::str_of(address));
    let p = with_member(p1, "timeout", Json::Number(String::from_str("10.0")));
    assert(member(p, "address"@) == member(p1, "address"@));
    assert(obj_keys(p) =~= set!["address"@, "timeout"@]);
    p
}

/// Connect to the device at `address` and enumerate its GATT database
/// (`info`).
pub fn info(address: &str) -> (r: HttpRequest)
    ensures
        ble_request(r, "info"@),
        member_str(box_params(r), "address"@) == Some(address@),
        member(box_params(r), "timeout"@) matches Some(Json::Number(t)) && t@ == connect_timeout_text(),
        keyed(box_params(r), set!["address"@, "timeout"@]),
{
    box_command("/ble/command", "info", device_params(address), Timeout::After(40000))
}

/// Connect to the device at `address` (`connect`).
pub fn connect(address: &str) -> (r: HttpRequest)
    ensures
        ble_request(r, "connect"@),
        member_str(box_params(r), "address"@) == Some(address@),
        member(box_params(r), "timeout"@) matches Some(Json::Number(t)) && t@ == connect_timeout_text(),
        keyed(box_params(r), set!["address"@, "timeout"@]),
{
    box_command("/ble/command", "connect", device_params(address), Timeout::After(40000))
}

/// Disconnect from the device at `address` (`disconnect`).
pub fn disconnect(address: &str) -> (r: HttpRequest)
    ensures
        ble_request(r, "disconnect"@),
        member_str(box_params(r), "address"@) == Some(address@),
        keyed(box_params(r), set!["address"@]),
{
    box_command("/ble/command", "disconnect", str_params("address", address), Timeout::After(40000))
}

} // verus!
