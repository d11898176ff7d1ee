//! Router nets (MikroTik RouterOS): requests on `POST /net/command`. No
//! role hint is sent: router nets may be saved under `"router"` or the
//! legacy `"mikrotik"`, and the box dispatches both to the same handler.
//! RouterOS calls get a 60 s budget.

use vstd::prelude::*;
use crate::json::{member, member_str, Json};
use crate::wire::{
    keyed, net_command, params_of, plain_action, str_params, str_params2, HttpRequest, Method, Timeout,
};

verus! {

/// `r` is a router request for `action` on `netname` (no role hint,
/// 60 s budget).
pub open spec fn router_request(r: HttpRequest, netname: Seq<char>, action: Seq<char>) -> bool {
    &&& r.method == Method::Post
    &&& r.path@ == "/net/command"@
    &&& r.timeout == Timeout::After(60000)
    &&& r.body matches Some(b) && member_str(b, "netname"@) == Some(netname) && member_str(
        b,
        "action"@,
    ) == Some(action) && member(b, "role"@) is None
}

/// A router request without parameters (`connect`, `system_info`,
/// `interfaces`, `reboot`, `block_internet`, ...).
pub fn request(name: &str, action: &str) -> (r: HttpRequest)
    ensures
        router_request(r, name@, action@),
        keyed(params_of(r), Set::empty()),
{
    plain_action(name, None, action, Timeout::After(60000))
}

/// A router request naming an interface (`enable_interface`,
/// `disable_interface`).
pub fn interface_action(name: &str, action: &str, interface: &str) -> (r: HttpRequest)
    ensures
        router_request(r, name@, action@),
        member_str(params_of(r), "interface"@) == Some(interface@),
        keyed(params_of(r), set!["interface"@]),
{
    proof {
        reveal_strlit("role");
        reveal_strlit("netname");
        reveal_strlit("action");
        reveal_strlit("params");
    }
    let r = net_command(name, None, action, str_params("interface", interface), Timeout::After(60000));
    proof {
        let b = r.body->0;
        crate::json::lemma_member_key(b, "role"@);
        assert("role"@.len() == 4 && "netname"@.len() == 7 && "action"@.len() == 6
            && "params"@.len() == 6);
        assert(!set!["netname"@, "action"@, "params"@].contains("role"@));
    }
    r
}

/// Set the SSID of a wireless interface (`set_wireless_ssid`).
pub fn set_wireless_ssid(name: &str, interface: &str, ssid: &str) -> (r: HttpRequest)
    ensures
        router_request(r, name@, "set_wireless_ssid"@),
        member_str(params_of(r), "interface"@) == Some(interface@),
        member_str(params_of(r), "ssid"@) == Some(ssid@),
        keyed(params_of(r), set!["interface"@, "ssid"@]),
{
    proof {
        reveal_strlit("interface");
        reveal_strlit("ssid");
        reveal_strlit("role");
        reveal_strlit("netname");
        reveal_strlit("action");
        reveal_strlit("params");
    }
    assert("interface"@.len() != "ssid"@.len());
    let r = net_command(
        name,
        None,
        "set_wireless_ssid",
        str_params2("interface", interface, "ssid", ssid),
        Timeout::After(60000),
    );
    proof {
        let b = r.body->0;
        crate::json::lemma_member_key(b, "role"@);
        assert("role"@.len() == 4 && "netname"@.len() == 7 && "action"@.len() == 6
            && "params"@.len() == 6);
        assert(!set!["netname"@, "action"@, "params"@].contains("role"@));
    }
    r
}

/// The raw `value` of a reply (`null` when absent).
pub fn value_raw(resp: crate::wire::CommandResponse) -> (v: Json)
    ensures
        v == (match resp.value {
            Some(x) => x,
            None => Json::Null,
        }),
{
    match resp.value {
        Some(x) => x,
        None => Json::Null,
    }
}

} // verus!
