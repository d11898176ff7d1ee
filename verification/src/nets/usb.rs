//! USB hub port nets (Acroname, YKUSH): power-cycle a DUT's USB port.
//!
//! Each operation is a request built here, sent by a transport, and a reply
//! interpreted here. Older box images reject the newer actions with a 400
//! listing only the actions they know; those refusals are reported as
//! unsupported rather than as a bad request.

use vstd::prelude::*;
use vstd::string::StringExecFns;
use crate::error::{Error, Result};
use crate::json::Json;
use crate::render::{describe, value_text};
use crate::text::{chars_of, contains, contains_chars, string_of};
use crate::wire::{
    command_reply, exchange_error, exchange_ok, failure_text, is_command_error, usb_command,
    CommandResponse, Exchange, HttpRequest, Method, Timeout,
};

verus! {

/// A 400 from a box image that predates the `state` action: its message
/// lists `(enable|disable|toggle)` and does not mention `state`.
pub open spec fn predates_state(e: Error) -> bool {
    e matches Error::Box { status, message } && status == 400 && contains(
        message@,
        "(enable|disable|toggle)"@,
    ) && !contains(message@, "state"@)
}

/// A 400 from a box image that predates `cycle`/`recover`: its message
/// lists `enable|disable|toggle` and does not mention `cycle`.
pub open spec fn predates_cycle(e: Error) -> bool {
    e matches Error::Box { status, message } && status == 400 && contains(
        message@,
        "enable|disable|toggle"@,
    ) && !contains(message@, "cycle"@)
}

/// `e` is what an unsuccessful `state` exchange ends with: the transport
/// error or the command error, reported as unsupported when a box too old
/// for the action refused it.
pub open spec fn state_failure(x: Exchange, e: Error) -> bool {
    match x {
        Err(t) => if predates_state(t) {
            e matches Error::UnsupportedByBox { message } && message@ == state_unsupported_text()
        } else {
            e == t
        },
        Ok((status, resp)) => if status == 400 && contains(
            failure_text(status, resp),
            "(enable|disable|toggle)"@,
        ) && !contains(failure_text(status, resp), "state"@) {
            e matches Error::UnsupportedByBox { message } && message@ == state_unsupported_text()
        } else {
            is_command_error(e, status, resp)
        },
    }
}

/// `e` is what an unsuccessful `cycle`/`recover` exchange ends with: the
/// transport error or the command error, reported as unsupported when a
/// box too old for the action refused it.
pub open spec fn cycle_failure(x: Exchange, e: Error) -> bool {
    match x {
        Err(t) => if predates_cycle(t) {
            e matches Error::UnsupportedByBox { message } && message@ == cycle_unsupported_text()
        } else {
            e == t
        },
        Ok((status, resp)) => if status == 400 && contains(
            failure_text(status, resp),
            "enable|disable|toggle"@,
        ) && !contains(failure_text(status, resp), "cycle"@) {
            e matches Error::UnsupportedByBox { message } && message@ == cycle_unsupported_text()
        } else {
            is_command_error(e, status, resp)
        },
    }
}

/// The message for a box too old for the `state` action.
pub open spec fn state_unsupported_text() -> Seq<char> {
    "the 'state' action on /usb/command requires box software >= 0.29.0; update the box or use toggle/enable/disable"@
}

/// The message for a box too old for `cycle`/`recover`.
pub open spec fn cycle_unsupported_text() -> Seq<char> {
    "the 'cycle' and 'recover' actions on /usb/command require box software >= 0.39.0; update the box or sequence disable/enable yourself"@
}

fn message_has(message: &String, pat: &str) -> (b: bool)
    ensures
        b == contains(message@, pat@),
{
    contains_chars(chars_of(message.as_str()).as_slice(), chars_of(pat).as_slice())
}

/// Report a pre-0.29.0 box's rejection of `state` as unsupported; any
/// other error passes through.
pub fn state_compat(err: Error) -> (r: Error)
    ensures
        predates_state(err) ==> (r matches Error::UnsupportedByBox { message } && message@
            == state_unsupported_text()),
        !predates_state(err) ==> r == err,
{
    let old_box = match &err {
        Error::Box { status, message } => *status == 400 && message_has(
            message,
            "(enable|disable|toggle)",
        ) && !message_has(message, "state"),
        _ => false,
    };
    if old_box {
        Error::UnsupportedByBox {
            message: String::from_str(
                "the 'state' action on /usb/command requires box software >= 0.29.0; update the box or use toggle/enable/disable",
            ),
        }
    } else {
        err
    }
}

/// Report a pre-0.39.0 box's rejection of `cycle`/`recover` as
/// unsupported; any other error passes through.
pub fn cycle_compat(err: Error) -> (r: Error)
    ensures
        predates_cycle(err) ==> (r matches Error::UnsupportedByBox { message } && message@
            == cycle_unsupported_text()),
        !predates_cycle(err) ==> r == err,
{
    let old_box = match &err {
        Error::Box { status, message } => *status == 400 && message_has(
            message,
            "enable|disable|toggle",
        ) && !message_has(message, "cycle"),
        _ => false,
    };
    if old_box {
        Error::UnsupportedByBox {
            message: String::from_str(
                "the 'cycle' and 'recover' actions on /usb/command require box software >= 0.39.0; update the box or sequence disable/enable yourself",
            ),
        }
    } else {
        err
    }
}

/// The port state a reply reports: its top-level `state` string, which is
/// `"enabled"` or `"disabled"`.
pub open spec fn port_state_of(resp: CommandResponse) -> Option<bool> {
    match resp.state {
        Some(Json::Str(s)) => Some(s@ == "enabled"@),
        _ => None,
    }
}

/// Read the port state out of a reply's top-level `state` string.
pub fn parse_port_state(resp: CommandResponse) -> (r: Result<bool>)
    ensures
        match port_state_of(resp) {
            Some(b) => r == Ok::<bool, Error>(b),
            None => r matches Err(Error::Decode(m)) && m@
                == "expected \"enabled\"/\"disabled\" state, got "@ + value_text(resp.state),
        },
{
    match &resp.state {
        Some(Json::Str(s)) => {
            proof {
                reveal_strlit("enabled");
            }
            Ok(crate::json::string_eq(s, "enabled"))
        },
        _ => {
            let mut m = String::from_str("expected \"enabled\"/\"disabled\" state, got ");
            m.append(describe(&resp.state).as_str());
            Err(Error::Decode(m))
        },
    }
}

/// What a `cycle` reply says about re-enumeration: its top-level
/// `reconnected` flag, absent (or `null`) when the port was empty or the
/// hub cannot observe it.
pub open spec fn reconnected_of(resp: CommandResponse) -> Option<Option<bool>> {
    match crate::json::entry_value(resp.extra@, "reconnected"@) {
        None => Some(None),
        Some(Json::Null) => Some(None),
        Some(Json::Bool(b)) => Some(Some(b)),
        _ => None,
    }
}

/// A `reconnected` flag is reported as it was sent: the JSON boolean `b`
/// gives `Some(b)`, for `true` and `false` alike, so a device that did not
/// come back is never confused with one the box could not watch. Only an
/// absent or `null` flag gives `None`; any other value is an error.
pub proof fn law_reconnected_flag_is_kept(resp: CommandResponse)
    ensures
        crate::json::entry_value(resp.extra@, "reconnected"@) matches Some(Json::Bool(b))
            ==> reconnected_of(resp) == Some(Some(b)),
        reconnected_of(resp) == Some(Some(true)) ==> crate::json::entry_value(resp.extra@, "reconnected"@)
            == Some(Json::Bool(true)),
        reconnected_of(resp) == Some(Some(false)) ==> crate::json::entry_value(resp.extra@, "reconnected"@)
            == Some(Json::Bool(false)),
        reconnected_of(resp) == Some(None::<bool>) <==> (crate::json::entry_value(resp.extra@, "reconnected"@) is None
            || crate::json::entry_value(resp.extra@, "reconnected"@) == Some(Json::Null)),
{
}

/// Read the `reconnected` outcome of a `cycle` reply: `Some(true)` the
/// device came back, `Some(false)` it did not in time, `None` the box
/// could not tell.
pub fn parse_reconnected(resp: CommandResponse) -> (r: Result<Option<bool>>)
    ensures
        match reconnected_of(resp) {
            Some(o) => r == Ok::<Option<bool>, Error>(o),
            None => r matches Err(Error::Decode(m)) && m@ == "expected boolean 'reconnected', got "@
                + value_text(crate::json::entry_value(resp.extra@, "reconnected"@)),
        },
{
    let j = Json::Object(resp.extra);
    assert(crate::json::member(j, "reconnected"@) == crate::json::entry_value(
        resp.extra@,
        "reconnected"@,
    ));
    let found = crate::json::take_member(j, "reconnected");
    match found {
        None => Ok(None),
        Some(Json::Null) => Ok(None),
        Some(Json::Bool(b)) => Ok(Some(b)),
        other => {
            let mut m = String::from_str("expected boolean 'reconnected', got ");
            m.append(describe(&other).as_str());
            Err(Error::Decode(m))
        },
    }
}

/// Handle for a USB hub port net.
#[derive(Debug)]
pub struct UsbPort {
    name: String,
}

impl UsbPort {
    /// A handle for the port net `name`.
    pub fn new(name: &str) -> (p: UsbPort)
        ensures
            p.net() == name@,
    {
        UsbPort { name: String::from_str(name) }
    }

    /// Name of the net this handle drives.
    pub closed spec fn net(&self) -> Seq<char> {
        self.name@
    }

    /// Name of the net this handle drives.
    pub fn name(&self) -> (n: &str)
        ensures
            n@ == self.net(),
    {
        self.name.as_str()
    }

    /// The request of an action on this port.
    pub fn request(&self, action: &str) -> (r: HttpRequest)
        ensures
            r.method == Method::Post,
            r.path@ == "/usb/command"@,
            r.timeout == Timeout::Default,
            r.body matches Some(b) && crate::json::member_str(b, "netname"@) == Some(self.net())
                && crate::json::member_str(b, "action"@) == Some(action@)
                && crate::wire::keyed(b, set!["netname"@, "action"@]),
    {
        usb_command(self.name.as_str(), action)
    }

    /// Read whether the port is currently enabled, from the reply to its
    /// `state` request. Box software older than 0.29.0 is reported as
    /// unsupported.
    pub fn state(&self, reply: Exchange) -> (r: Result<bool>)
        ensures
            exchange_ok(reply) ==> (reply matches Ok((_, resp)) && match port_state_of(resp) {
                Some(b) => r == Ok::<bool, Error>(b),
                None => r matches Err(Error::Decode(m)) && m@
                    == "expected \"enabled\"/\"disabled\" state, got "@ + value_text(resp.state),
            }),
            !exchange_ok(reply) ==> (r matches Err(e) && state_failure(reply, e)),
    {
        let resp = match command_reply(reply) {
            Err(e) => return Err(state_compat(e)),
            Ok(resp) => resp,
        };
        parse_port_state(resp)
    }

    /// Power-cycle the port (off, wait, on) with the box's default off
    /// window, from the reply to its `cycle` request. Returns whether the
    /// device re-enumerated (`None`: the port was empty or the hub cannot
    /// observe it). Box software older than 0.39.0 is reported as
    /// unsupported.
    pub fn cycle(&self, reply: Exchange) -> (r: Result<Option<bool>>)
        ensures
            exchange_ok(reply) ==> (reply matches Ok((_, resp)) && match reconnected_of(resp) {
                Some(o) => r == Ok::<Option<bool>, Error>(o),
                None => r matches Err(Error::Decode(m)) && m@ == "expected boolean 'reconnected', got "@
                    + value_text(crate::json::entry_value(resp.extra@, "reconnected"@)),
            }),
            !exchange_ok(reply) ==> (r matches Err(e) && cycle_failure(reply, e)),
    {
        let resp = match command_reply(reply) {
            Err(e) => return Err(cycle_compat(e)),
            Ok(resp) => resp,
        };
        parse_reconnected(resp)
    }

    /// Re-power a port left dark by an interrupted command, from the reply
    /// to its `recover` request. Box software older than 0.39.0 is
    /// reported as unsupported.
    pub fn recover(&self, reply: Exchange) -> (r: Result<()>)
        ensures
            exchange_ok(reply) ==> r is Ok,
            !exchange_ok(reply) ==> (r matches Err(e) && cycle_failure(reply, e)),
    {
        match command_reply(reply) {
            Err(e) => Err(cycle_compat(e)),
            Ok(_) => Ok(()),
        }
    }
}

} // verus!
