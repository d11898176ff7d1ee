//! Interactive (bi-directional) RTT over the box's Socket.IO `/rtt`
//! namespace: the session-start payload. The session itself runs on the
//! shared machinery in [`crate::nets::sio`] with [`SessionKind::Rtt`].
//!
//! [`SessionKind::Rtt`]: crate::nets::sio::SessionKind::Rtt

use vstd::prelude::*;
use crate::json::{distinct_keys, is_uint, lemma_member_key, member, member_str, obj_keys, with_member, Json};
use crate::nets::debug::RttOptions;

verus! {

/// The `start_rtt` payload: the net and channel, plus each advanced option
/// that is set. Unset options are omitted rather than sent as `null`.
pub fn start_payload(netname: &str, opts: &RttOptions) -> (b: Json)
    ensures
        member_str(b, "netname"@) == Some(netname@),
        member(b, "channel"@) matches Some(c) && is_uint(c, opts.channel as nat),
        match opts.search_addr {
            Some(a) => member(b, "search_addr"@) matches Some(x) && is_uint(x, a as nat),
            None => member(b, "search_addr"@) is None,
        },
        match opts.search_size {
            Some(a) => member(b, "search_size"@) matches Some(x) && is_uint(x, a as nat),
            None => member(b, "search_size"@) is None,
        },
        match opts.chunk_size {
            Some(a) => member(b, "chunk_size"@) matches Some(x) && is_uint(x, a as nat),
            None => member(b, "chunk_size"@) is None,
        },
        distinct_keys(b),
        obj_keys(b) == set!["netname"@, "channel"@].union(
            if opts.search_addr is Some { set!["search_addr"@] } else { Set::empty() },
        ).union(if opts.search_size is Some { set!["search_size"@] } else { Set::empty() }).union(
            if opts.chunk_size is Some { set!["chunk_size"@] } else { Set::empty() },
        ),
{
    proof {
        reveal_strlit("netname");
        reveal_strlit("channel");
        reveal_strlit("search_addr");
        reveal_strlit("search_size");
        reveal_strlit("chunk_size");
    }
    assert("netname"@.len() == 7 && "channel"@.len() == 7 && "search_addr"@.len() == 11
        && "search_size"@.len() == 11 && "chunk_size"@.len() == 10);
    assert("netname"@[0] != "channel"@[0] && "search_addr"@[7] != "search_size"@[7]);
    let b1 = with_member(Json::empty_object(), "netname", Json::str_of(netname));
    let b2 = with_member(b1, "channel", Json::uint(opts.channel as u64));
    assert(member(b2, "netname"@) == member(b1, "netname"@));
    let b3 = match opts.search_addr {
        Some(a) => with_member(b2, "search_addr", Json::uint(a)),
        None => b2,
    };
    let b4 = match opts.search_size {
        Some(s) => with_member(b3, "search_size", Json::uint(s)),
        None => b3,
    };
    let b = match opts.chunk_size {
        Some(c) => with_member(b4, "chunk_size", Json::uint(c)),
        None => b4,
    };
    proof {
        lemma_member_key(b2, "search_addr"@);
        lemma_member_key(b2, "search_size"@);
        lemma_member_key(b2, "chunk_size"@);
        lemma_member_key(b3, "search_size"@);
        lemma_member_key(b3, "chunk_size"@);
        lemma_member_key(b4, "chunk_size"@);
        assert(obj_keys(b2) =~= set!["netname"@, "channel"@]);
        assert(obj_keys(b) =~= set!["netname"@, "channel"@].union(
            if opts.search_addr is Some { set!["search_addr"@] } else { Set::empty() },
        ).union(if opts.search_size is Some { set!["search_size"@] } else { Set::empty() }).union(
            if opts.chunk_size is Some { set!["chunk_size"@] } else { Set::empty() },
        ));
    }
    b
}

} // verus!
