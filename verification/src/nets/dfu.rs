//! USB-DFU via box-side `dfu-util` (box-level, not a saved net): list
//! DFU-capable devices, download firmware, and detach. The box must have
//! `dfu-util` installed and serve `POST /usb/dfu` (box software >= 0.33.0;
//! older boxes are reported as unsupported).

use vstd::prelude::*;
use vstd::string::StringExecFns;
use crate::codec::{base64_encode, base64_of};
use crate::error::{Error, Result};
use crate::json::{distinct_keys, is_uint, lemma_member_key, member, member_str, obj_keys, with_member, Json};
use crate::text::contains;
use crate::wire::{
    box_command, failure_text, is_command_error, command_reply, dfu_unsupported, exchange_error, exchange_ok, is_route_missing,
    map_route_missing, value_field, value_list_field, value_member, CommandResponse, Exchange,
    HttpRequest, Method, Timeout,
};

verus! {

/// Device selection and transfer options for DFU operations, mirroring
/// the corresponding `dfu-util` flags. The default selects whatever single
/// DFU device is on the bus.
#[derive(Debug)]
pub struct DfuOptions {
    /// Match by `vid:pid` (hex, e.g. `"0483:df11"`): `dfu-util -d`.
    pub vid_pid: Option<String>,
    /// Match by device serial: `dfu-util -S`.
    pub serial: Option<String>,
    /// Alternate interface setting: `dfu-util -a`.
    pub alt: Option<u32>,
    /// DfuSe address (and modifiers, e.g. `"0x08000000:leave"`):
    /// `dfu-util -s`.
    pub dfuse_address: Option<String>,
    /// Reset the device after download: `dfu-util -R`.
    pub reset: bool,
}

impl Default for DfuOptions {
    fn default() -> (o: Self)
        ensures
            o.vid_pid is None && o.serial is None && o.alt is None && o.dfuse_address is None
                && !o.reset,
    {
        DfuOptions { vid_pid: None, serial: None, alt: None, dfuse_address: None, reset: false }
    }
}

/// `key`, when `present`.
pub open spec fn key_if(present: bool, key: Seq<char>) -> Set<Seq<char>> {
    if present {
        set![key]
    } else {
        Set::empty()
    }
}

/// The members of `p` that carry the `dfu-util` options: one per option
/// that is set, none for the others.
pub open spec fn option_members(p: Json, opts: DfuOptions) -> bool {
    &&& match opts.vid_pid {
        Some(v) => member_str(p, "vid_pid"@) == Some(v@),
        None => member(p, "vid_pid"@) is None,
    }
    &&& match opts.serial {
        Some(v) => member_str(p, "serial"@) == Some(v@),
        None => member(p, "serial"@) is None,
    }
    &&& match opts.alt {
        Some(a) => member(p, "alt"@) matches Some(x) && is_uint(x, a as nat),
        None => member(p, "alt"@) is None,
    }
    &&& match opts.dfuse_address {
        Some(v) => member_str(p, "dfuse_address"@) == Some(v@),
        None => member(p, "dfuse_address"@) is None,
    }
    &&& if opts.reset {
        member(p, "reset"@) == Some(Json::Bool(true))
    } else {
        member(p, "reset"@) is None
    }
}

/// The keys of the options that are set.
pub open spec fn option_keys(opts: DfuOptions) -> Set<Seq<char>> {
    key_if(opts.vid_pid is Some, "vid_pid"@).union(key_if(opts.serial is Some, "serial"@)).union(
        key_if(opts.alt is Some, "alt"@),
    ).union(key_if(opts.dfuse_address is Some, "dfuse_address"@)).union(
        key_if(opts.reset, "reset"@),
    )
}

/// `p` holds exactly the `dfu-util` options that are set.
pub open spec fn dfu_params(p: Json, opts: DfuOptions) -> bool {
    option_members(p, opts) && distinct_keys(p) && obj_keys(p) == option_keys(opts)
}

/// The `params` object of a DFU action: one member per option that is set.
pub fn params(opts: &DfuOptions) -> (p: Json)
    ensures
        dfu_params(p, *opts),
{
    proof {
        reveal_strlit("vid_pid");
        reveal_strlit("serial");
        reveal_strlit("alt");
        reveal_strlit("dfuse_address");
        reveal_strlit("reset");
    }
    assert("vid_pid"@.len() == 7 && "serial"@.len() == 6 && "alt"@.len() == 3
        && "dfuse_address"@.len() == 13 && "reset"@.len() == 5);
    let p0 = Json::empty_object();
    let p1 = match &opts.vid_pid {
        Some(v) => with_member(p0, "vid_pid", Json::str_of(v.as_str())),
        None => p0,
    };
    let p2 = match &opts.serial {
        Some(v) => with_member(p1, "serial", Json::str_of(v.as_str())),
        None => p1,
    };
    let p3 = match opts.alt {
        Some(a) => with_member(p2, "alt", Json::uint(a as u64)),
        None => p2,
    };
    let p4 = match &opts.dfuse_address {
        Some(v) => with_member(p3, "dfuse_address", Json::str_of(v.as_str())),
        None => p3,
    };
    let p = if opts.reset {
        with_member(p4, "reset", Json::Bool(true))
    } else {
        p4
    };
    proof {
        lemma_member_key(p0, "vid_pid"@);
        lemma_member_key(p1, "serial"@);
        lemma_member_key(p2, "alt"@);
        lemma_member_key(p3, "dfuse_address"@);
        lemma_member_key(p4, "reset"@);
        lemma_member_key(p0, "serial"@);
        lemma_member_key(p0, "alt"@);
        lemma_member_key(p0, "dfuse_address"@);
        lemma_member_key(p0, "reset"@);
        lemma_member_key(p1, "alt"@);
        lemma_member_key(p1, "dfuse_address"@);
        lemma_member_key(p1, "reset"@);
        lemma_member_key(p2, "dfuse_address"@);
        lemma_member_key(p2, "reset"@);
        lemma_member_key(p3, "reset"@);
        assert(obj_keys(p) =~= option_keys(*opts));
    }
    p
}

/// The `/usb/dfu` request of `list`: `dfu-util -l` (30 s budget).
pub fn list_request() -> (r: HttpRequest)
    ensures
        r.method == Method::Post,
        r.path@ == "/usb/dfu"@,
        r.timeout == Timeout::After(30000),
        r.body matches Some(b) && member_str(b, "action"@) == Some("list"@) && (member(b, "params"@)
            matches Some(p) && obj_keys(p) == Set::<Seq<char>>::empty()),
{
    box_command("/usb/dfu", "list", Json::empty_object(), Timeout::After(30000))
}

/// The `/usb/dfu` request of `download`: `dfu-util -D` with the firmware
/// sent base64-encoded alongside the options (180 s budget).
pub fn download_request(firmware: &[u8], opts: &DfuOptions) -> (r: HttpRequest)
    ensures
        r.method == Method::Post,
        r.path@ == "/usb/dfu"@,
        r.timeout == Timeout::After(180000),
        r.body matches Some(b) && member_str(b, "action"@) == Some("download"@) && (member(
            b,
            "params"@,
        ) matches Some(p) && member_str(p, "firmware"@) == Some(base64_of(firmware@))
            && option_members(p, *opts) && distinct_keys(p) && obj_keys(p) == option_keys(
            *opts,
        ).insert("firmware"@)),
{
    proof {
        reveal_strlit("firmware");
        reveal_strlit("vid_pid");
        reveal_strlit("serial");
        reveal_strlit("alt");
        reveal_strlit("dfuse_address");
        reveal_strlit("reset");
    }
    assert("vid_pid"@.len() == 7 && "serial"@.len() == 6 && "alt"@.len() == 3
        && "dfuse_address"@.len() == 13 && "reset"@.len() == 5 && "firmware"@.len() == 8);
    let base = params(opts);
    let p = with_member(base, "firmware", Json::Str(base64_encode(firmware)));
    box_command("/usb/dfu", "download", p, Timeout::After(180000))
}

/// The `/usb/dfu` request of `detach`: `dfu-util -e` (180 s budget).
pub fn detach_request(opts: &DfuOptions) -> (r: HttpRequest)
    ensures
        r.method == Method::Post,
        r.path@ == "/usb/dfu"@,
        r.timeout == Timeout::After(180000),
        r.body matches Some(b) && member_str(b, "action"@) == Some("detach"@) && (member(b, "params"@)
            matches Some(p) && dfu_params(p, *opts)),
{
    box_command("/usb/dfu", "detach", params(opts), Timeout::After(180000))
}

/// `e` is what a failed DFU exchange ends with: a route-missing 404 (a box
/// predating `/usb/dfu`) becomes unsupported, anything else passes
/// through.
pub open spec fn dfu_failure(e0: Error, e: Error) -> bool {
    if is_route_missing(e0) {
        e matches Error::UnsupportedByBox { message } && message@
            == "this box does not serve POST /usb/dfu (requires box software >= 0.33.0)"@
    } else {
        e == e0
    }
}

/// `e` is what an unsuccessful DFU exchange ends with.
pub open spec fn dfu_exchange_failure(x: Exchange, e: Error) -> bool {
    match x {
        Err(t) => dfu_failure(t, e),
        Ok((status, resp)) => if status == 404 && contains(failure_text(status, resp), "non-JSON"@) {
            e matches Error::UnsupportedByBox { message } && message@
                == "this box does not serve POST /usb/dfu (requires box software >= 0.33.0)"@
        } else {
            is_command_error(e, status, resp)
        },
    }
}

fn compat(e: Error) -> (r: Error)
    ensures
        dfu_failure(e, r),
{
    map_route_missing(e, dfu_unsupported())
}

/// Handle for box-side DFU.
#[derive(Debug)]
pub struct Dfu {}

/// Handle for box-side DFU on an async client: the same operations.
pub type AsyncDfu = Dfu;

impl Dfu {
    /// The DFU handle of a box.
    pub fn new() -> (d: Dfu) {
        Dfu {}
    }

    /// List DFU-capable devices on the box's bus, from the reply to
    /// [`list_request`]: the `devices` list of the reply's `value`, for
    /// decoding.
    pub fn list(&self, reply: Exchange) -> (r: Result<Json>)
        ensures
            exchange_ok(reply) ==> (reply matches Ok((_, resp)) && match value_member(resp, "devices"@) {
                Some(l) => r == Ok::<Json, Error>(l),
                None => r matches Err(Error::Decode(m)) && m@ == "response 'value' has no 'devices' list"@,
            }),
            !exchange_ok(reply) ==> (r matches Err(e) && dfu_exchange_failure(reply, e)),
    {
        proof {
            reveal_strlit("response 'value' has no '");
            reveal_strlit("devices");
            reveal_strlit("' list");
            reveal_strlit("response 'value' has no 'devices' list");
            assert("response 'value' has no '"@ + "devices"@ + "' list"@
                =~= "response 'value' has no 'devices' list"@);
        }
        match command_reply(reply) {
            Err(e) => Err(compat(e)),
            Ok(resp) => value_list_field(resp, "devices"),
        }
    }

    /// Download firmware to the selected device, from the reply to
    /// [`download_request`]: the captured dfu-util output (the reply's
    /// `value`), for decoding.
    pub fn download(&self, reply: Exchange) -> (r: Result<Json>)
        ensures
            exchange_ok(reply) ==> (reply matches Ok((_, resp)) && match resp.value {
                Some(v) => r == Ok::<Json, Error>(v),
                None => r matches Err(Error::Decode(m)) && m@ == "response has no 'value' field"@,
            }),
            !exchange_ok(reply) ==> (r matches Err(e) && dfu_exchange_failure(reply, e)),
    {
        match command_reply(reply) {
            Err(e) => Err(compat(e)),
            Ok(resp) => value_field(resp),
        }
    }

    /// Detach the selected device from DFU mode, from the reply to
    /// [`detach_request`]: the captured dfu-util output, for decoding.
    pub fn detach(&self, reply: Exchange) -> (r: Result<Json>)
        ensures
            exchange_ok(reply) ==> (reply matches Ok((_, resp)) && match resp.value {
                Some(v) => r == Ok::<Json, Error>(v),
                None => r matches Err(Error::Decode(m)) && m@ == "response has no 'value' field"@,
            }),
            !exchange_ok(reply) ==> (r matches Err(e) && dfu_exchange_failure(reply, e)),
    {
        match command_reply(reply) {
            Err(e) => Err(compat(e)),
            Ok(resp) => value_field(resp),
        }
    }
}

} // verus!
