//! WiFi (box-level): the box's own wireless interface, on
//! `POST /wifi/command` with a 90 s budget.

use vstd::prelude::*;
use crate::json::{member, member_str, Json};
use crate::wire::{box_command, keyed, str_params, str_params2, HttpRequest, Method, Timeout};

verus! {

/// The `params` member of a box-level request body.
pub open spec fn box_params(r: HttpRequest) -> Json {
    match r.body {
        Some(b) => match member(b, "params"@) {
            Some(p) => p,
            None => Json::Null,
        },
        None => Json::Null,
    }
}

/// `r` is a `/wifi/command` request for `action` with the 90 s budget.
pub open spec fn wifi_request(r: HttpRequest, action: Seq<char>) -> bool {
    &&& r.method == Method::Post
    &&& r.path@ == "/wifi/command"@
    &&& r.timeout == Timeout::After(90000)
    &&& r.body matches Some(b) && member_str(b, "action"@) == Some(action)
}

/// Status of the box's wireless interfaces (`status`).
pub fn status() -> (r: HttpRequest)
    ensures
        wifi_request(r, "status"@),
        keyed(box_params(r), Set::empty()),
{
    let p = Json::empty_object();
    assert(crate::json::obj_keys(p) =~= Set::<Seq<char>>::empty());
    box_command("/wifi/command", "status", p, Timeout::After(90000))
}

/// Scan for access points on `interface` (`scan`).
pub fn scan(interface: &str) -> (r: HttpRequest)
    ensures
        wifi_request(r, "scan"@),
        member_str(box_params(r), "interface"@) == Some(interface@),
        keyed(box_params(r), set!["interface"@]),
{
    box_command("/wifi/command", "scan", str_params("interface", interface), Timeout::After(90000))
}

/// Join a network (`connect`).
pub fn connect(ssid: &str, password: &str) -> (r: HttpRequest)
    ensures
        wifi_request(r, "connect"@),
        member_str(box_params(r), "ssid"@) == Some(ssid@),
        member_str(box_params(r), "password"@) == Some(password@),
        keyed(box_params(r), set!["ssid"@, "password"@]),
{
    proof {
        reveal_strlit("ssid");
        reveal_strlit("password");
    }
    assert("ssid"@.len() != "password"@.len());
    box_command(
        "/wifi/command",
        "connect",
        str_params2("ssid", ssid, "password", password),
        Timeout::After(90000),
    )
}

/// Forget a saved network (`delete`).
pub fn delete(ssid: &str) -> (r: HttpRequest)
    ensures
        wifi_request(r, "delete"@),
        member_str(box_params(r), "ssid"@) == Some(ssid@),
        keyed(box_params(r), set!["ssid"@]),
{
    box_command("/wifi/command", "delete", str_params("ssid", ssid), Timeout::After(90000))
}

} // verus!
