//! Robot-arm nets: requests on `POST /net/command` with the `arm` role.
//! Motion requests carry coordinates in millimetres, which the transports
//! encode; the requests here carry integers only. Quick actions get a 45 s
//! budget (the arm's serial link can be slow to answer).

use vstd::prelude::*;
use crate::json::{is_uint, member, obj_keys, with_member, Json};
use crate::wire::{keyed, net_request, params_of, role_command, HttpRequest, Timeout};

verus! {

/// Budget for actions that do not move the arm far (ms).
pub const QUICK_BUDGET_MS: u64 = 45000;

/// An arm request without parameters (`position`, `go_home`,
/// `enable_motor`, `disable_motor`, `read_and_save_position`).
pub fn request(name: &str, action: &str) -> (r: HttpRequest)
    ensures
        net_request(r, name@, "arm"@, action@, Timeout::After(QUICK_BUDGET_MS)),
        keyed(params_of(r), Set::empty()),
{
    let r = role_command(name, "arm", action, Json::empty_object(), Timeout::After(QUICK_BUDGET_MS));
    assert(obj_keys(params_of(r)) =~= Set::<Seq<char>>::empty());
    r
}

/// Set the three acceleration limits (`set_acceleration`).
pub fn set_acceleration(
    name: &str,
    acceleration: u32,
    travel_acceleration: u32,
    retract_acceleration: u32,
) -> (r: HttpRequest)
    ensures
        net_request(r, name@, "arm"@, "set_acceleration"@, Timeout::After(QUICK_BUDGET_MS)),
        member(params_of(r), "acceleration"@) matches Some(x) && is_uint(x, acceleration as nat),
        member(params_of(r), "travel_acceleration"@) matches Some(x) && is_uint(
            x,
            travel_acceleration as nat,
        ),
        member(params_of(r), "retract_acceleration"@) matches Some(x) && is_uint(
            x,
            retract_acceleration as nat,
        ),
        keyed(
            params_of(r),
            set!["acceleration"@, "travel_acceleration"@, "retract_acceleration"@],
        ),
{
    proof {
        reveal_strlit("acceleration");
        reveal_strlit("travel_acceleration");
        reveal_strlit("retract_acceleration");
    }
    assert("acceleration"@.len() == 12 && "travel_acceleration"@.len() == 19
        && "retract_acceleration"@.len() == 20);
    let p1 = with_member(Json::empty_object(), "acceleration", Json::uint(acceleration as u64));
    let p2 = with_member(p1, "travel_acceleration", Json::uint(travel_acceleration as u64));
    let p = with_member(p2, "retract_acceleration", Json::uint(retract_acceleration as u64));
    assert(member(p2, "acceleration"@) == member(p1, "acceleration"@));
    assert(member(p, "acceleration"@) == member(p2, "acceleration"@));
    assert(member(p, "travel_acceleration"@) == member(p2, "travel_acceleration"@));
    assert(obj_keys(p) =~= set![
        "acceleration"@,
        "travel_acceleration"@,
        "retract_acceleration"@,
    ]);
    role_command(name, "arm", "set_acceleration", p, Timeout::After(QUICK_BUDGET_MS))
}

} // verus!
