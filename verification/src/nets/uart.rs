//! UART nets: interactive serial streaming over the box's Socket.IO
//! `/uart` namespace. The box owns the serial port (exclusive open) and
//! streams data as hex chunks; the session runs on the shared machinery in
//! [`crate::nets::sio`] with [`SessionKind::Uart`].
//!
//! [`SessionKind::Uart`]: crate::nets::sio::SessionKind::Uart

use vstd::prelude::*;
use crate::json::{member, member_str, obj_keys, with_member, Json};
use crate::wire::keyed;

verus! {

/// The `start_uart` payload: the net, with no overrides of its saved
/// serial settings.
pub fn start_payload(netname: &str) -> (b: Json)
    ensures
        member_str(b, "netname"@) == Some(netname@),
        member(b, "overrides"@) matches Some(o) && keyed(o, Set::empty()),
        keyed(b, set!["netname"@, "overrides"@]),
{
    proof {
        reveal_strlit("netname");
        reveal_strlit("overrides");
    }
    assert("netname"@[0] != "overrides"@[0]);
    let b1 = with_member(Json::empty_object(), "netname", Json::str_of(netname));
    let b = with_member(b1, "overrides", Json::empty_object());
    assert(member(b, "netname"@) == member(b1, "netname"@));
    assert(obj_keys(b) =~= set!["netname"@, "overrides"@]);
    b
}

} // verus!
