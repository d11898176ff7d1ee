//! I2C bus nets: requests on `POST /net/command` with the `i2c` role.
//! Bus transactions run box-side under the physical device's shared lock,
//! so a scan or a write-then-read never interleaves with a concurrent
//! request.

use vstd::prelude::*;
use crate::json::{
    bytes_array, distinct_keys, is_uint, is_uint_list, lemma_member_key, member, obj_keys,
    with_member, Json,
};
use crate::wire::{keyed, net_request, params_of, role_command, HttpRequest, Timeout};

verus! {

/// The effective I2C configuration the box reports after `configure`.
#[derive(Debug, Clone, Copy)]
pub struct I2cEffectiveConfig {
    /// Bus frequency in Hz.
    pub frequency_hz: Option<i64>,
    /// Whether internal pull-ups are enabled.
    pub pull_ups: Option<bool>,
}

/// The bytes of a slice, as numbers.
pub open spec fn byte_values(data: Seq<u8>) -> Seq<nat> {
    data.map_values(|x: u8| x as nat)
}

/// Apply configuration overrides (persisted on the box); `None` keeps the
/// saved value. The reply's `value` is the effective configuration.
pub fn configure(name: &str, frequency_hz: Option<u32>, pull_ups: Option<bool>) -> (r: HttpRequest)
    ensures
        net_request(r, name@, "i2c"@, "config"@, Timeout::Default),
        match frequency_hz {
            Some(f) => member(params_of(r), "frequency_hz"@) matches Some(x) && is_uint(x, f as nat),
            None => member(params_of(r), "frequency_hz"@) is None,
        },
        match pull_ups {
            Some(p) => member(params_of(r), "pull_ups"@) == Some(Json::Bool(p)),
            None => member(params_of(r), "pull_ups"@) is None,
        },
        distinct_keys(params_of(r)),
        obj_keys(params_of(r)) == (if frequency_hz is Some { set!["frequency_hz"@] } else { Set::empty() }).union(
            if pull_ups is Some { set!["pull_ups"@] } else { Set::empty() },
        ),
{
    proof {
        reveal_strlit("frequency_hz");
        reveal_strlit("pull_ups");
    }
    assert("frequency_hz"@.len() == 12 && "pull_ups"@.len() == 8);
    let p0 = Json::empty_object();
    let p1 = match frequency_hz {
        Some(f) => with_member(p0, "frequency_hz", Json::uint(f as u64)),
        None => p0,
    };
    let p = match pull_ups {
        Some(b) => with_member(p1, "pull_ups", Json::Bool(b)),
        None => p1,
    };
    proof {
        lemma_member_key(p0, "frequency_hz"@);
        lemma_member_key(p0, "pull_ups"@);
        lemma_member_key(p1, "pull_ups"@);
        assert(obj_keys(p) =~= (if frequency_hz is Some { set!["frequency_hz"@] } else { Set::empty() }).union(
            if pull_ups is Some { set!["pull_ups"@] } else { Set::empty() },
        ));
    }
    role_command(name, "i2c", "config", p, Timeout::Default)
}

/// Scan the bus with the default address range; the reply's `value` lists
/// the 7-bit addresses that ACKed.
pub fn scan(name: &str) -> (r: HttpRequest)
    ensures
        net_request(r, name@, "i2c"@, "scan"@, Timeout::Default),
        keyed(params_of(r), Set::empty()),
{
    let r = role_command(name, "i2c", "scan", Json::empty_object(), Timeout::Default);
    assert(obj_keys(params_of(r)) =~= Set::<Seq<char>>::empty());
    r
}

/// Scan the bus over `start_addr..=end_addr`.
pub fn scan_range(name: &str, start_addr: u16, end_addr: u16) -> (r: HttpRequest)
    ensures
        net_request(r, name@, "i2c"@, "scan"@, Timeout::Default),
        member(params_of(r), "start_addr"@) matches Some(x) && is_uint(x, start_addr as nat),
        member(params_of(r), "end_addr"@) matches Some(x) && is_uint(x, end_addr as nat),
        keyed(params_of(r), set!["start_addr"@, "end_addr"@]),
{
    proof {
        reveal_strlit("start_addr");
        reveal_strlit("end_addr");
    }
    assert("start_addr"@.len() == 10 && "end_addr"@.len() == 8);
    let p1 = with_member(Json::empty_object(), "start_addr", Json::uint(start_addr as u64));
    let p = with_member(p1, "end_addr", Json::uint(end_addr as u64));
    assert(member(p, "start_addr"@) == member(p1, "start_addr"@));
    assert(obj_keys(p) =~= set!["start_addr"@, "end_addr"@]);
    role_command(name, "i2c", "scan", p, Timeout::Default)
}

/// Read `num_bytes` bytes from the device at `address`.
pub fn read(name: &str, address: u16, num_bytes: u32) -> (r: HttpRequest)
    ensures
        net_request(r, name@, "i2c"@, "read"@, Timeout::Default),
        member(params_of(r), "address"@) matches Some(x) && is_uint(x, address as nat),
        member(params_of(r), "num_bytes"@) matches Some(x) && is_uint(x, num_bytes as nat),
        keyed(params_of(r), set!["address"@, "num_bytes"@]),
{
    proof {
        reveal_strlit("address");
        reveal_strlit("num_bytes");
    }
    assert("address"@.len() == 7 && "num_bytes"@.len() == 9);
    let p1 = with_member(Json::empty_object(), "address", Json::uint(address as u64));
    let p = with_member(p1, "num_bytes", Json::uint(num_bytes as u64));
    assert(member(p, "address"@) == member(p1, "address"@));
    assert(obj_keys(p) =~= set!["address"@, "num_bytes"@]);
    role_command(name, "i2c", "read", p, Timeout::Default)
}

/// Write `data` to the device at `address`.
pub fn write(name: &str, address: u16, data: &[u8]) -> (r: HttpRequest)
    ensures
        net_request(r, name@, "i2c"@, "write"@, Timeout::Default),
        member(params_of(r), "address"@) matches Some(x) && is_uint(x, address as nat),
        member(params_of(r), "data"@) matches Some(d) && is_uint_list(d, byte_values(data@)),
        keyed(params_of(r), set!["address"@, "data"@]),
{
    proof {
        reveal_strlit("address");
        reveal_strlit("data");
    }
    assert("address"@.len() == 7 && "data"@.len() == 4);
    let p1 = with_member(Json::empty_object(), "address", Json::uint(address as u64));
    let p = with_member(p1, "data", bytes_array(data));
    assert(member(p, "address"@) == member(p1, "address"@));
    assert(obj_keys(p) =~= set!["address"@, "data"@]);
    role_command(name, "i2c", "write", p, Timeout::Default)
}

/// Write `data` then read `num_bytes` in one transaction (repeated start).
pub fn write_read(name: &str, address: u16, data: &[u8], num_bytes: u32) -> (r: HttpRequest)
    ensures
        net_request(r, name@, "i2c"@, "transfer"@, Timeout::Default),
        member(params_of(r), "address"@) matches Some(x) && is_uint(x, address as nat),
        member(params_of(r), "data"@) matches Some(d) && is_uint_list(d, byte_values(data@)),
        member(params_of(r), "num_bytes"@) matches Some(x) && is_uint(x, num_bytes as nat),
        keyed(params_of(r), set!["address"@, "data"@, "num_bytes"@]),
{
    proof {
        reveal_strlit("address");
        reveal_strlit("data");
        reveal_strlit("num_bytes");
    }
    assert("address"@.len() == 7 && "data"@.len() == 4 && "num_bytes"@.len() == 9);
    let p1 = with_member(Json::empty_object(), "address", Json::uint(address as u64));
    let p2 = with_member(p1, "data", bytes_array(data));
    let p = with_member(p2, "num_bytes", Json::uint(num_bytes as u64));
    assert(member(p, "address"@) == member(p1, "address"@));
    assert(member(p, "data"@) == member(p2, "data"@));
    assert(obj_keys(p) =~= set!["address"@, "data"@, "num_bytes"@]);
    role_command(name, "i2c", "transfer", p, Timeout::Default)
}

} // verus!
