//! GPIO nets: digital input and output on `POST /net/command` with the
//! `gpio` role. Level waits carry second-valued timeouts the transports
//! encode.

use vstd::prelude::*;
use crate::json::{member_str, obj_keys, with_member, Json};
use crate::wire::{keyed, net_request, params_of, role_command, HttpRequest, Timeout};

verus! {

/// A digital logic level.
#[derive(Debug, Clone, Copy, PartialEq, Eq, Structural)]
pub enum Level {
    /// Logic high (1).
    High,
    /// Logic low (0).
    Low,
}

/// Wire encoding of a level.
pub open spec fn level_text(l: Level) -> Seq<char> {
    match l {
        Level::High => "high"@,
        Level::Low => "low"@,
    }
}

impl Level {
    /// Wire encoding understood by the box's gpio adapter.
    pub fn as_str(&self) -> (s: &'static str)
        ensures
            s@ == level_text(*self),
    {
        match self {
            Level::High => "high",
            Level::Low => "low",
        }
    }

    /// True for [`Level::High`].
    pub fn is_high(&self) -> (b: bool)
        ensures
            b == (*self == Level::High),
    {
        match self {
            Level::High => true,
            Level::Low => false,
        }
    }
}

/// The level a numeric reading stands for: any non-zero value is high.
pub fn level_of(v: i64) -> (l: Level)
    ensures
        l == (if v != 0 { Level::High } else { Level::Low }),
{
    if v != 0 {
        Level::High
    } else {
        Level::Low
    }
}

fn bare(name: &str, action: &str) -> (r: HttpRequest)
    ensures
        net_request(r, name@, "gpio"@, action@, Timeout::Default),
        keyed(params_of(r), Set::empty()),
{
    let r = role_command(name, "gpio", action, Json::empty_object(), Timeout::Default);
    assert(obj_keys(params_of(r)) =~= Set::<Seq<char>>::empty());
    r
}

fn drive(name: &str, level: &str) -> (r: HttpRequest)
    ensures
        net_request(r, name@, "gpio"@, "output"@, Timeout::Default),
        member_str(params_of(r), "level"@) == Some(level@),
        keyed(params_of(r), set!["level"@]),
{
    let p = with_member(Json::empty_object(), "level", Json::str_of(level));
    assert(obj_keys(p) =~= set!["level"@]);
    role_command(name, "gpio", "output", p, Timeout::Default)
}

/// Read the current input level (the reply's numeric `value`).
pub fn input(name: &str) -> (r: HttpRequest)
    ensures
        net_request(r, name@, "gpio"@, "input"@, Timeout::Default),
        keyed(params_of(r), Set::empty()),
{
    bare(name, "input")
}

/// Drive the output to `level`.
pub fn output(name: &str, level: Level) -> (r: HttpRequest)
    ensures
        net_request(r, name@, "gpio"@, "output"@, Timeout::Default),
        member_str(params_of(r), "level"@) == Some(level_text(level)),
        keyed(params_of(r), set!["level"@]),
{
    drive(name, level.as_str())
}

/// Drive the output high.
pub fn output_high(name: &str) -> (r: HttpRequest)
    ensures
        net_request(r, name@, "gpio"@, "output_high"@, Timeout::Default),
        keyed(params_of(r), Set::empty()),
{
    bare(name, "output_high")
}

/// Drive the output low.
pub fn output_low(name: &str) -> (r: HttpRequest)
    ensures
        net_request(r, name@, "gpio"@, "output_low"@, Timeout::Default),
        keyed(params_of(r), Set::empty()),
{
    bare(name, "output_low")
}

/// Toggle the output; the reply's `value` is the new level.
pub fn toggle(name: &str) -> (r: HttpRequest)
    ensures
        net_request(r, name@, "gpio"@, "output"@, Timeout::Default),
        member_str(params_of(r), "level"@) == Some("toggle"@),
        keyed(params_of(r), set!["level"@]),
{
    drive(name, "toggle")
}

} // verus!
