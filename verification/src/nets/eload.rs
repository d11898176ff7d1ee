//! Electronic-load nets (Rigol DL3000 family): requests on
//! `POST /net/command` with the `eload` role. Setpoint values are numbers
//! the transports encode.

use vstd::prelude::*;
use crate::json::{obj_keys, Json};
use crate::wire::{keyed, net_request, params_of, role_command, HttpRequest, Timeout};

verus! {

/// E-load operating mode.
#[derive(Debug, Clone, Copy, PartialEq, Eq, Structural)]
pub enum EloadMode {
    /// Constant current (A).
    Cc,
    /// Constant voltage (V).
    Cv,
    /// Constant resistance (ohm).
    Cr,
    /// Constant power (W).
    Cp,
}

/// Wire encoding of a mode (the `/net/command` action name).
pub open spec fn eload_mode_text(m: EloadMode) -> Seq<char> {
    match m {
        EloadMode::Cc => "cc"@,
        EloadMode::Cv => "cv"@,
        EloadMode::Cr => "cr"@,
        EloadMode::Cp => "cp"@,
    }
}

/// Every mode has an action name of its own: `c` followed by the initial
/// of the quantity the load holds constant (current, voltage, resistance,
/// power), so no two modes share a name.
pub proof fn law_eload_modes_are_distinct(a: EloadMode, b: EloadMode)
    ensures
        eload_mode_text(a) == eload_mode_text(b) ==> a == b,
        eload_mode_text(a).len() == 2,
        eload_mode_text(a)[0] == 'c',
        eload_mode_text(a)[1] == (match a {
            EloadMode::Cc => 'c',
            EloadMode::Cv => 'v',
            EloadMode::Cr => 'r',
            EloadMode::Cp => 'p',
        }),
{
    reveal_strlit("cc");
    reveal_strlit("cv");
    reveal_strlit("cr");
    reveal_strlit("cp");
    if eload_mode_text(a) == eload_mode_text(b) {
        assert(eload_mode_text(a)[1] == eload_mode_text(b)[1]);
    }
}

impl EloadMode {
    /// Wire encoding (the `/net/command` action name).
    pub fn as_str(&self) -> (s: &'static str)
        ensures
            s@ == eload_mode_text(*self),
    {
        match self {
            EloadMode::Cc => "cc",
            EloadMode::Cv => "cv",
            EloadMode::Cr => "cr",
            EloadMode::Cp => "cp",
        }
    }
}

/// Read the full load state (the reply's `value`).
pub fn state(name: &str) -> (r: HttpRequest)
    ensures
        net_request(r, name@, "eload"@, "state"@, Timeout::Default),
        keyed(params_of(r), Set::empty()),
{
    let r = role_command(name, "eload", "state", Json::empty_object(), Timeout::Default);
    assert(obj_keys(params_of(r)) =~= Set::<Seq<char>>::empty());
    r
}

/// Read the stored setpoint for `mode` (the reply's numeric `value`).
pub fn setpoint(name: &str, mode: EloadMode) -> (r: HttpRequest)
    ensures
        net_request(r, name@, "eload"@, eload_mode_text(mode), Timeout::Default),
        keyed(params_of(r), Set::empty()),
{
    let r = role_command(name, "eload", mode.as_str(), Json::empty_object(), Timeout::Default);
    assert(obj_keys(params_of(r)) =~= Set::<Seq<char>>::empty());
    r
}

} // verus!
