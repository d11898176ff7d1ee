//! Battery-simulator nets (Keithley 2281S in battery mode): requests on
//! `POST /battery/command`. Setpoints in volts, amps and percent are
//! numbers the transports encode; the requests here carry no number.

use vstd::prelude::*;
use crate::json::{member_str, obj_keys, with_member, Json};
use crate::wire::{battery_command, command_request, keyed, params_of, HttpRequest};

verus! {

/// Battery simulation mode.
#[derive(Debug, Clone, Copy, PartialEq, Eq, Structural)]
pub enum BatteryMode {
    /// Static simulation: SOC stays where you set it.
    Static,
    /// Dynamic simulation: SOC evolves with the load current.
    Dynamic,
}

/// Wire encoding of a battery mode.
pub open spec fn battery_mode_text(m: BatteryMode) -> Seq<char> {
    match m {
        BatteryMode::Static => "static"@,
        BatteryMode::Dynamic => "dynamic"@,
    }
}

impl BatteryMode {
    /// Wire encoding.
    pub fn as_str(&self) -> (s: &'static str)
        ensures
            s@ == battery_mode_text(*self),
    {
        match self {
            BatteryMode::Static => "static",
            BatteryMode::Dynamic => "dynamic",
        }
    }
}

/// A battery request for `action` with no parameters (enable, disable,
/// clear, state, ...).
pub fn simple(name: &str, action: &str) -> (r: HttpRequest)
    ensures
        command_request(r, "/battery/command"@, name@, action@, params_of(r)),
        keyed(params_of(r), Set::empty()),
{
    let r = battery_command(name, action, Json::empty_object());
    assert(obj_keys(params_of(r)) =~= Set::<Seq<char>>::empty());
    r
}

/// Set the simulation mode (`set_mode`).
pub fn set_mode(name: &str, mode: BatteryMode) -> (r: HttpRequest)
    ensures
        command_request(r, "/battery/command"@, name@, "set_mode"@, params_of(r)),
        member_str(params_of(r), "mode_type"@) == Some(battery_mode_text(mode)),
        keyed(params_of(r), set!["mode_type"@]),
{
    let p = with_member(Json::empty_object(), "mode_type", Json::str_of(mode.as_str()));
    assert(obj_keys(p) =~= set!["mode_type"@]);
    battery_command(name, "set_mode", p)
}

/// Load a predefined battery model by part number (`set_model`).
pub fn set_model(name: &str, partnumber: &str) -> (r: HttpRequest)
    ensures
        command_request(r, "/battery/command"@, name@, "set_model"@, params_of(r)),
        member_str(params_of(r), "partnumber"@) == Some(partnumber@),
        keyed(params_of(r), set!["partnumber"@]),
{
    let p = with_member(Json::empty_object(), "partnumber", Json::str_of(partnumber));
    assert(obj_keys(p) =~= set!["partnumber"@]);
    battery_command(name, "set_model", p)
}

/// Enable the simulator output.
pub fn enable(name: &str) -> (r: HttpRequest)
    ensures
        command_request(r, "/battery/command"@, name@, "enable_battery"@, params_of(r)),
        keyed(params_of(r), Set::empty()),
{
    simple(name, "enable_battery")
}

/// Disable the simulator output.
pub fn disable(name: &str) -> (r: HttpRequest)
    ensures
        command_request(r, "/battery/command"@, name@, "disable_battery"@, params_of(r)),
        keyed(params_of(r), Set::empty()),
{
    simple(name, "disable_battery")
}

/// Put the instrument into battery-simulator mode.
pub fn init_battery_mode(name: &str) -> (r: HttpRequest)
    ensures
        command_request(r, "/battery/command"@, name@, "set_to_battery_mode"@, params_of(r)),
        keyed(params_of(r), Set::empty()),
{
    simple(name, "set_to_battery_mode")
}

/// Clear an over-current protection trip.
pub fn clear_ocp(name: &str) -> (r: HttpRequest)
    ensures
        command_request(r, "/battery/command"@, name@, "clear_ocp"@, params_of(r)),
        keyed(params_of(r), Set::empty()),
{
    simple(name, "clear_ocp")
}

/// Clear an over-voltage protection trip.
pub fn clear_ovp(name: &str) -> (r: HttpRequest)
    ensures
        command_request(r, "/battery/command"@, name@, "clear_ovp"@, params_of(r)),
        keyed(params_of(r), Set::empty()),
{
    simple(name, "clear_ovp")
}

/// Clear all protection trips.
pub fn clear(name: &str) -> (r: HttpRequest)
    ensures
        command_request(r, "/battery/command"@, name@, "clear"@, params_of(r)),
        keyed(params_of(r), Set::empty()),
{
    simple(name, "clear")
}

/// Read the full structured simulator state (the reply's `state`).
pub fn state(name: &str) -> (r: HttpRequest)
    ensures
        command_request(r, "/battery/command"@, name@, "state"@, params_of(r)),
        keyed(params_of(r), Set::empty()),
{
    simple(name, "state")
}

} // verus!
