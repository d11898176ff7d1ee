//! Webcam nets: MJPEG streaming from USB cameras attached to the box
//! (`POST /net/command`, role `webcam`).

use vstd::prelude::*;
use crate::wire::{keyed, params_of, plain_action, HttpRequest, Timeout};

verus! {

/// Start the stream; starting the stream process can take a few seconds
/// (30 s budget). The reply's `value` is the stream description.
pub fn start(name: &str) -> (r: HttpRequest)
    ensures
        r.path@ == "/net/command"@,
        r.timeout == Timeout::After(30000),
        r.body matches Some(b) && crate::json::member_str(b, "action"@) == Some("start"@)
            && crate::json::member_str(b, "role"@) == Some("webcam"@),
        keyed(params_of(r), Set::empty()),
{
    plain_action(name, Some("webcam"), "start", Timeout::After(30000))
}

/// A webcam request without parameters (`stop`, `status`, `url`).
pub fn request(name: &str, action: &str) -> (r: HttpRequest)
    ensures
        r.path@ == "/net/command"@,
        r.timeout == Timeout::Default,
        r.body matches Some(b) && crate::json::member_str(b, "action"@) == Some(action@)
            && crate::json::member_str(b, "role"@) == Some("webcam"@),
        keyed(params_of(r), Set::empty()),
{
    plain_action(name, Some("webcam"), action, Timeout::Default)
}

} // verus!
