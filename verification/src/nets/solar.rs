//! Solar-simulator nets: requests on `POST /net/command` with the `solar`
//! role. Entering or leaving simulation mode gets a 120 s budget, reads a
//! 90 s budget. Setpoints are numbers the transports encode.

use vstd::prelude::*;
use crate::json::{obj_keys, Json};
use crate::wire::{keyed, net_request, params_of, role_command, HttpRequest, Timeout};

verus! {

/// Budget for entering and leaving simulation mode (ms).
pub const MODE_BUDGET_MS: u64 = 120000;

/// Budget for reads and setpoint writes (ms).
pub const READ_BUDGET_MS: u64 = 90000;

/// Enter (`set`) or leave (`stop`) simulation mode.
pub fn mode_request(name: &str, action: &str) -> (r: HttpRequest)
    ensures
        net_request(r, name@, "solar"@, action@, Timeout::After(MODE_BUDGET_MS)),
        keyed(params_of(r), Set::empty()),
{
    let r = role_command(name, "solar", action, Json::empty_object(), Timeout::After(MODE_BUDGET_MS));
    assert(obj_keys(params_of(r)) =~= Set::<Seq<char>>::empty());
    r
}

/// Read one quantity (`irradiance`, `mpp_current`, `mpp_voltage`,
/// `resistance`, `temperature`, `voc`); the reply's `value` is numeric.
pub fn read_request(name: &str, action: &str) -> (r: HttpRequest)
    ensures
        net_request(r, name@, "solar"@, action@, Timeout::After(READ_BUDGET_MS)),
        keyed(params_of(r), Set::empty()),
{
    let r = role_command(name, "solar", action, Json::empty_object(), Timeout::After(READ_BUDGET_MS));
    assert(obj_keys(params_of(r)) =~= Set::<Seq<char>>::empty());
    r
}

} // verus!
