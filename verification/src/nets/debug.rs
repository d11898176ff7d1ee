//! Debug-probe nets (J-Link / OpenOCD): request bodies for the box's debug
//! service on port 8765 (flash, erase, reset, memory reads, RTT), firmware
//! kind detection, and lookup of a debug net's saved record.
//!
//! The debug service reads probe fields out of the net's full saved
//! record, so every request body carries that record under `net`.

use vstd::prelude::*;
use vstd::string::StringExecFns;
use crate::codec::{base64_encode, base64_of};
use crate::error::{Error, Result};
use crate::json::{
    distinct_keys, entry_value, is_str, is_uint, keys_of, lemma_entry_value_index, lemma_member_key,
    lemma_entry_value_push, member, member_str, obj_keys, with_member, Json,
};
use crate::text::{
    before_last, chars_of, eq_ignore_case, eq_ignore_case_chars, extend_chars, last_piece, lemma_before_last_shorter,
    split_last, string_of,
};
use crate::wire::{debug_request, keyed, HttpRequest, Method, Timeout};

verus! {

/// Firmware image kind, inferred from the file extension.
#[derive(Debug, Clone, Copy, PartialEq, Eq, Structural)]
pub enum FirmwareKind {
    /// Intel HEX (`.hex`).
    Hex,
    /// ELF (`.elf`).
    Elf,
    /// Raw binary (`.bin`), flashed at a base address.
    Bin,
}

/// The final normal component of a `/`-separated path (`Path::file_name`):
/// empty and `.` components are skipped, and a path ending in `..` has
/// none.
pub open spec fn file_name_of(path: Seq<char>) -> Option<Seq<char>>
    decreases path.len(),
{
    let piece = last_piece(path, '/');
    if piece.len() == 0 || piece == "."@ {
        match before_last(path, '/') {
            Some(head) => {
                proof {
                    lemma_before_last_shorter(path, '/');
                }
                file_name_of(head)
            },
            None => None,
        }
    } else if piece == ".."@ {
        None
    } else {
        Some(piece)
    }
}

/// The extension of a file name (`Path::extension`): the text after its
/// last `.`, unless that dot is the name's first character.
pub open spec fn extension_of(name: Seq<char>) -> Option<Seq<char>> {
    match before_last(name, '.') {
        Some(stem) => if stem.len() == 0 {
            None
        } else {
            Some(last_piece(name, '.'))
        },
        None => None,
    }
}

/// The firmware kind a path's extension names, ignoring case.
pub open spec fn kind_of_path(path: Seq<char>) -> Option<FirmwareKind> {
    match file_name_of(path) {
        Some(name) => match extension_of(name) {
            Some(ext) => if eq_ignore_case(ext, "hex"@) {
                Some(FirmwareKind::Hex)
            } else if eq_ignore_case(ext, "elf"@) {
                Some(FirmwareKind::Elf)
            } else if eq_ignore_case(ext, "bin"@) {
                Some(FirmwareKind::Bin)
            } else {
                None
            },
            None => None,
        },
        None => None,
    }
}

fn file_name_chars(path: &[char]) -> (r: Option<Vec<char>>)
    ensures
        match r {
            Some(n) => file_name_of(path@) == Some(n@),
            None => file_name_of(path@) is None,
        },
    decreases path@.len(),
{
    proof {
        reveal_strlit(".");
        reveal_strlit("..");
    }
    let (head, piece) = split_last(path, '/');
    let is_dot = piece.len() == 1 && piece[0] == '.';
    assert(is_dot == (piece@ == "."@)) by {
        if piece@ == "."@ {
            assert(piece@[0] == "."@[0]);
        }
        if is_dot {
            assert(piece@ =~= "."@);
        }
    }
    if piece.len() == 0 || is_dot {
        match head {
            Some(h) => {
                proof {
                    lemma_before_last_shorter(path@, '/');
                }
                file_name_chars(h.as_slice())
            },
            None => None,
        }
    } else {
        let is_up = piece.len() == 2 && piece[0] == '.' && piece[1] == '.';
        assert(is_up == (piece@ == ".."@)) by {
            if piece@ == ".."@ {
                assert(piece@[0] == ".."@[0] && piece@[1] == ".."@[1]);
            }
            if is_up {
                assert(piece@ =~= ".."@);
            }
        }
        if is_up {
            None
        } else {
            Some(piece)
        }
    }
}

impl FirmwareKind {
    /// Infer the firmware kind from a file path's extension (`.hex`,
    /// `.elf`, `.bin`, in any case).
    pub fn from_path(path: &str) -> (r: Result<FirmwareKind>)
        ensures
            match kind_of_path(path@) {
                Some(k) => r == Ok::<FirmwareKind, Error>(k),
                None => r matches Err(Error::Config(m)) && m@ == "cannot infer firmware type from '"@
                    + path@ + "'; use flash_with to set it explicitly"@,
            },
    {
        let ext = match file_name_chars(chars_of(path).as_slice()) {
            Some(name) => {
                let (stem, after) = split_last(name.as_slice(), '.');
                match stem {
                    Some(st) => if st.len() == 0 {
                        None
                    } else {
                        Some(after)
                    },
                    None => None,
                }
            },
            None => None,
        };
        if let Some(e) = ext {
            proof {
                reveal_strlit("hex");
                reveal_strlit("elf");
                reveal_strlit("bin");
            }
            if eq_ignore_case_chars(e.as_slice(), chars_of("hex").as_slice()) {
                return Ok(FirmwareKind::Hex);
            }
            if eq_ignore_case_chars(e.as_slice(), chars_of("elf").as_slice()) {
                return Ok(FirmwareKind::Elf);
            }
            if eq_ignore_case_chars(e.as_slice(), chars_of("bin").as_slice()) {
                return Ok(FirmwareKind::Bin);
            }
        }
        let mut m = String::from_str("cannot infer firmware type from '");
        m.append(path);
        m.append("'; use flash_with to set it explicitly");
        Err(Error::Config(m))
    }
}

// ---------------------------------------------------------------------------
// Options
// ---------------------------------------------------------------------------

/// Options for connecting to a probe.
#[derive(Debug)]
pub struct ConnectOptions {
    /// SWD/JTAG speed (e.g. `"4000"` kHz or `"adaptive"`). `None` uses the
    /// service default (`adaptive`).
    pub speed: Option<String>,
    /// Force a fresh backend start even if one is already running.
    pub force: bool,
    /// Halt the target immediately after connecting.
    pub halt: bool,
    /// Start a GDB server (needed for reset/read_memory on some backends).
    pub gdb: bool,
    /// A J-Link script for this connection only, overriding one saved on
    /// the net (sent base64-encoded).
    pub jlink_script: Option<Vec<u8>>,
    /// A complete OpenOCD configuration for this connection only,
    /// overriding one saved on the net; it must select the adapter driver
    /// (sent base64-encoded).
    pub openocd_config: Option<Vec<u8>>,
}

impl Default for ConnectOptions {
    fn default() -> (o: Self)
        ensures
            o.speed is None && !o.force && !o.halt && o.gdb && o.jlink_script is None
                && o.openocd_config is None,
    {
        ConnectOptions {
            speed: None,
            force: false,
            halt: false,
            gdb: true,
            jlink_script: None,
            openocd_config: None,
        }
    }
}

/// Options for RTT streaming (one-way and interactive).
#[derive(Debug, Clone, Copy)]
pub struct RttOptions {
    /// RTT channel (0 or 1).
    pub channel: u32,
    /// RAM start address for the RTT control-block search (advanced).
    pub search_addr: Option<u64>,
    /// Size of the RAM region to search, in bytes (advanced).
    pub search_size: Option<u64>,
    /// Read chunk size on the box side (J-Link only, advanced). Only used
    /// by interactive RTT; the one-way HTTP stream ignores it.
    pub chunk_size: Option<u64>,
}

impl Default for RttOptions {
    fn default() -> (o: Self)
        ensures
            o.channel == 0 && o.search_addr is None && o.search_size is None && o.chunk_size is None,
    {
        RttOptions { channel: 0, search_addr: None, search_size: None, chunk_size: None }
    }
}

// ---------------------------------------------------------------------------
// Request bodies
// ---------------------------------------------------------------------------

/// The member `key` of a debug request body built from `net` and `extra`:
/// `extra`'s members, and the net record under `net` unless `extra`
/// overrides it.
pub open spec fn debug_body_member(net: Json, extra: Json, key: Seq<char>) -> Option<Json> {
    match member(extra, key) {
        Some(v) => Some(v),
        None => if key == "net"@ {
            Some(net)
        } else {
            None
        },
    }
}

/// Build the JSON body for a debug operation: the full net record under
/// `net`, plus the members of `extra` (which win on a clash).
pub fn debug_body(net: Json, extra: Json) -> (b: Json)
    requires
        extra is Object ==> distinct_keys(extra),
    ensures
        b is Object,
        distinct_keys(b),
        forall|k: Seq<char>| member(b, k) == debug_body_member(net, extra, k),
        obj_keys(b) == obj_keys(extra).insert("net"@),
{
    let ghost net0 = net;
    let ghost extra0 = extra;
    let mut cur = with_member(Json::empty_object(), "net", net);
    match extra {
        Json::Object(entries) => {
            let ghost all = entries@;
            assert(all.len() == entries.len());
            assert(member(extra0, "net"@) == entry_value(all, "net"@));
            let mut rest = entries;
            let mut i: usize = 0;
            assert(all.take(0) =~= Seq::<(String, Json)>::empty());
            assert(keys_of(all.take(0)).to_set() =~= Set::<Seq<char>>::empty());
            assert(rest@ =~= all.skip(0));
            assert(obj_keys(cur) =~= keys_of(all.take(0)).to_set().insert("net"@));
            while rest.len() > 0
                invariant
                    i <= all.len(),
                    all.len() <= usize::MAX,
                    rest@ == all.skip(i as int),
                    keys_of(all).no_duplicates(),
                    cur is Object,
                    distinct_keys(cur),
                    forall|k: Seq<char>| member(cur, k) == (match entry_value(all.take(i as int), k) {
                        Some(v) => Some(v),
                        None => if k == "net"@ {
                            Some(net0)
                        } else {
                            None
                        },
                    }),
                    obj_keys(cur) == keys_of(all.take(i as int)).to_set().insert("net"@),
                decreases rest@.len(),
            {
                let ghost before = cur;
                let ghost prefix = all.take(i as int);
                let (k, v) = rest.remove(0);
                assert(all[i as int] == (k, v));
                assert(all.take(i + 1) =~= prefix.push((k, v)));
                proof {
                    lemma_entry_value_index(prefix, k@);
                    if entry_value(prefix, k@) is Some {
                        let m = choose|m: int| 0 <= m < prefix.len() && (#[trigger] prefix[m]).0@ == k@;
                        assert(keys_of(all)[m] == keys_of(all)[i as int]);
                    }
                }
                cur = with_member(cur, k.as_str(), v);
                proof {
                    assert forall|key: Seq<char>| member(cur, key) == (match entry_value(
                        all.take(i + 1),
                        key,
                    ) {
                        Some(x) => Some(x),
                        None => if key == "net"@ {
                            Some(net0)
                        } else {
                            None
                        },
                    }) by {
                        lemma_entry_value_push(prefix, (k, v), key);
                    }
                    assert(keys_of(all.take(i + 1)) =~= keys_of(prefix).push(k@));
                    assert(keys_of(prefix).push(k@).to_set() =~= keys_of(prefix).to_set().insert(k@))
                        by {
                        assert forall|x: Seq<char>| keys_of(prefix).push(k@).to_set().contains(x)
                            <==> keys_of(prefix).to_set().insert(k@).contains(x) by {
                            if keys_of(prefix).push(k@).contains(x) {
                                let m = choose|m: int| 0 <= m < keys_of(prefix).push(k@).len()
                                    && keys_of(prefix).push(k@)[m] == x;
                                if m < prefix.len() {
                                    assert(keys_of(prefix)[m] == x);
                                }
                            }
                            if keys_of(prefix).contains(x) {
                                let m = choose|m: int| 0 <= m < keys_of(prefix).len()
                                    && keys_of(prefix)[m] == x;
                                assert(keys_of(prefix).push(k@)[m] == x);
                            }
                            if x == k@ {
                                assert(keys_of(prefix).push(k@)[prefix.len() as int] == x);
                            }
                        }
                    }
                    assert(obj_keys(cur) =~= keys_of(all.take(i + 1)).to_set().insert("net"@));
                }
                i = i + 1;
                assert(rest@ =~= all.skip(i as int));
            }
            assert(all.take(i as int) =~= all);
            proof {
                assert forall|k: Seq<char>| member(cur, k) == debug_body_member(net0, extra0, k) by {
                    assert(member(extra0, k) == entry_value(all, k));
                }
            }
        },
        _ => {
            proof {
                assert forall|k: Seq<char>| member(cur, k) == debug_body_member(net0, extra0, k) by {}
                assert(obj_keys(cur) =~= Set::<Seq<char>>::empty().insert("net"@));
            }
        },
    }
    cur
}

/// The body of a request (`null` when it has none).
pub open spec fn body_of(r: HttpRequest) -> Json {
    match r.body {
        Some(b) => b,
        None => Json::Null,
    }
}

/// `r` is a debug-service request to `path` with timeout `ms` whose body
/// carries the net record `net`.
pub open spec fn debug_op_request(r: HttpRequest, path: Seq<char>, net: Json, ms: u64) -> bool {
    &&& r.method == Method::Post
    &&& r.path@ == path
    &&& r.timeout == Timeout::After(ms)
    &&& r.body is Some
    &&& member(body_of(r), "net"@) == Some(net)
    &&& distinct_keys(body_of(r))
}

fn debug_op(path: &str, net: Json, extra: Json, ms: u64) -> (r: HttpRequest)
    requires
        extra is Object,
        distinct_keys(extra),
        !obj_keys(extra).contains("net"@),
    ensures
        debug_op_request(r, path@, net, ms),
        obj_keys(body_of(r)) == obj_keys(extra).insert("net"@),
        forall|k: Seq<char>| k != "net"@ ==> member(body_of(r), k) == member(extra, k),
{
    proof {
        lemma_member_key(extra, "net"@);
    }
    let b = debug_body(net, extra);
    debug_request(path, b, Timeout::After(ms))
}

/// `{key}` when the option is set, else nothing.
pub open spec fn key_if<T>(o: Option<T>, key: Seq<char>) -> Set<Seq<char>> {
    if o is Some {
        set![key]
    } else {
        Set::empty()
    }
}

/// The members of a `/debug/connect` body for these options.
pub open spec fn connect_keys(opts: ConnectOptions) -> Set<Seq<char>> {
    set!["net"@, "force"@, "halt"@, "gdb"@].union(key_if(opts.speed, "speed"@)).union(
        key_if(opts.jlink_script, "jlink_script"@),
    ).union(key_if(opts.openocd_config, "openocd_config"@))
}

/// The member `key` of `b` holds the base64 text of `script`, or is absent
/// when there is no script.
pub open spec fn carries_script(b: Json, key: Seq<char>, script: Option<Vec<u8>>) -> bool {
    match script {
        Some(s) => member_str(b, key) == Some(base64_of(s@)),
        None => member(b, key) is None,
    }
}

/// `e` with the member `key` set to the base64 text of `script`, when there
/// is one.
fn with_script(e: Json, key: &str, script: &Option<Vec<u8>>) -> (r: Json)
    requires
        e is Object,
    ensures
        r is Object,
        script is Some ==> member_str(r, key@) == Some(base64_of(script->0@)),
        script is None ==> r == e,
        forall|k: Seq<char>| k != key@ ==> member(r, k) == member(e, k),
        obj_keys(r) == obj_keys(e).union(key_if(*script, key@)),
        distinct_keys(e) ==> distinct_keys(r),
{
    match script {
        Some(s) => {
            let r = with_member(e, key, Json::str_of(base64_encode(s.as_slice()).as_str()));
            assert(obj_keys(r) =~= obj_keys(e).union(key_if(*script, key@)));
            r
        },
        None => {
            assert(obj_keys(e) =~= obj_keys(e).union(key_if(*script, key@)));
            e
        },
    }
}

/// Build `/debug/connect`: start the debug backend (30 s budget), with the
/// per-connection scripts base64-encoded.
pub fn connect(net: Json, opts: &ConnectOptions) -> (r: HttpRequest)
    ensures
        debug_op_request(r, "/debug/connect"@, net, 30000),
        member(body_of(r), "force"@) == Some(Json::Bool(opts.force)),
        member(body_of(r), "halt"@) == Some(Json::Bool(opts.halt)),
        member(body_of(r), "gdb"@) == Some(Json::Bool(opts.gdb)),
        match opts.speed {
            Some(sp) => member_str(body_of(r), "speed"@) == Some(sp@),
            None => member(body_of(r), "speed"@) is None,
        },
        carries_script(body_of(r), "jlink_script"@, opts.jlink_script),
        carries_script(body_of(r), "openocd_config"@, opts.openocd_config),
        obj_keys(body_of(r)) == connect_keys(*opts),
{
    proof {
        reveal_strlit("net");
        reveal_strlit("force");
        reveal_strlit("halt");
        reveal_strlit("gdb");
        reveal_strlit("speed");
        reveal_strlit("jlink_script");
        reveal_strlit("openocd_config");
    }
    assert("net"@.len() == 3 && "force"@.len() == 5 && "halt"@.len() == 4 && "gdb"@.len() == 3
        && "speed"@.len() == 5 && "jlink_script"@.len() == 12 && "openocd_config"@.len() == 14);
    assert("net"@[0] != "gdb"@[0] && "force"@[0] != "speed"@[0]);
    let e1 = with_member(Json::empty_object(), "force", Json::Bool(opts.force));
    let e2 = with_member(e1, "halt", Json::Bool(opts.halt));
    let e3 = with_member(e2, "gdb", Json::Bool(opts.gdb));
    assert(member(e3, "force"@) == member(e1, "force"@));
    assert(member(e3, "halt"@) == member(e2, "halt"@));
    assert(obj_keys(e3) =~= set!["force"@, "halt"@, "gdb"@]);
    let e4 = match &opts.speed {
        Some(sp) => with_member(e3, "speed", Json::str_of(sp.as_str())),
        None => e3,
    };
    assert(obj_keys(e4) =~= set!["force"@, "halt"@, "gdb"@].union(key_if(opts.speed, "speed"@)));
    let e5 = with_script(e4, "jlink_script", &opts.jlink_script);
    let extra = with_script(e5, "openocd_config", &opts.openocd_config);
    assert(member(extra, "jlink_script"@) == member(e5, "jlink_script"@));
    assert(member(extra, "speed"@) == member(e4, "speed"@));
    assert(member(extra, "force"@) == member(e3, "force"@));
    assert(member(extra, "halt"@) == member(e3, "halt"@));
    assert(member(extra, "gdb"@) == member(e3, "gdb"@));
    assert(!obj_keys(extra).contains("net"@));
    let r = debug_op("/debug/connect", net, extra, 30000);
    assert(obj_keys(body_of(r)) =~= connect_keys(*opts));
    r
}

/// Build `/debug/disconnect`; `keep_running` leaves the gdbserver up for
/// an external GDB client.
pub fn disconnect(net: Json, keep_running: bool) -> (r: HttpRequest)
    ensures
        debug_op_request(r, "/debug/disconnect"@, net, 10000),
        member(body_of(r), "keep_jlink_running"@) == Some(Json::Bool(keep_running)),
        obj_keys(body_of(r)) == set!["net"@, "keep_jlink_running"@],
{
    proof {
        reveal_strlit("net");
        reveal_strlit("keep_jlink_running");
    }
    assert("net"@.len() != "keep_jlink_running"@.len());
    let extra = with_member(Json::empty_object(), "keep_jlink_running", Json::Bool(keep_running));
    assert(obj_keys(extra) =~= set!["keep_jlink_running"@]);
    let r = debug_op("/debug/disconnect", net, extra, 10000);
    assert(obj_keys(body_of(r)) =~= set!["net"@, "keep_jlink_running"@]);
    r
}

/// Build `/debug/reset`, optionally halting at the reset vector.
pub fn reset(net: Json, halt: bool) -> (r: HttpRequest)
    ensures
        debug_op_request(r, "/debug/reset"@, net, 10000),
        member(body_of(r), "halt"@) == Some(Json::Bool(halt)),
        obj_keys(body_of(r)) == set!["net"@, "halt"@],
{
    proof {
        reveal_strlit("net");
        reveal_strlit("halt");
    }
    assert("net"@.len() != "halt"@.len());
    let extra = with_member(Json::empty_object(), "halt", Json::Bool(halt));
    assert(obj_keys(extra) =~= set!["halt"@]);
    let r = debug_op("/debug/reset", net, extra, 10000);
    assert(obj_keys(body_of(r)) =~= set!["net"@, "halt"@]);
    r
}

fn bare_op(path: &str, net: Json, ms: u64) -> (r: HttpRequest)
    ensures
        debug_op_request(r, path@, net, ms),
        obj_keys(body_of(r)) == set!["net"@],
{
    let extra = Json::empty_object();
    let r = debug_op(path, net, extra, ms);
    assert(obj_keys(body_of(r)) =~= set!["net"@]);
    r
}

/// Build `/debug/erase`: mass-erase the target flash (120 s budget).
pub fn erase(net: Json) -> (r: HttpRequest)
    ensures
        debug_op_request(r, "/debug/erase"@, net, 120000),
        obj_keys(body_of(r)) == set!["net"@],
{
    bare_op("/debug/erase", net, 120000)
}

/// Build `/debug/info`: probe and target information.
pub fn info(net: Json) -> (r: HttpRequest)
    ensures
        debug_op_request(r, "/debug/info"@, net, 10000),
        obj_keys(body_of(r)) == set!["net"@],
{
    bare_op("/debug/info", net, 10000)
}

/// Build `/debug/status`: whether a gdbserver is running for the probe.
pub fn status(net: Json) -> (r: HttpRequest)
    ensures
        debug_op_request(r, "/debug/status"@, net, 10000),
        obj_keys(body_of(r)) == set!["net"@],
{
    bare_op("/debug/status", net, 10000)
}

/// Build `/debug/memrd`: read `length` bytes of target memory at
/// `address` (30 s budget).
pub fn read_memory(net: Json, address: u64, length: usize) -> (r: HttpRequest)
    ensures
        debug_op_request(r, "/debug/memrd"@, net, 30000),
        member(body_of(r), "start_addr"@) matches Some(a) && is_uint(a, address as nat),
        member(body_of(r), "length"@) matches Some(l) && is_uint(l, length as nat),
        obj_keys(body_of(r)) == set!["net"@, "start_addr"@, "length"@],
{
    proof {
        reveal_strlit("net");
        reveal_strlit("start_addr");
        reveal_strlit("length");
    }
    assert("net"@.len() == 3 && "start_addr"@.len() == 10 && "length"@.len() == 6);
    let e1 = with_member(Json::empty_object(), "start_addr", Json::uint(address));
    let extra = with_member(e1, "length", Json::uint(length as u64));
    assert(member(extra, "start_addr"@) == member(e1, "start_addr"@));
    assert(obj_keys(extra) =~= set!["start_addr"@, "length"@]);
    let r = debug_op("/debug/memrd", net, extra, 30000);
    assert(obj_keys(body_of(r)) =~= set!["net"@, "start_addr"@, "length"@]);
    r
}

/// The payload field that carries firmware of a kind.
pub open spec fn payload_key(kind: FirmwareKind) -> Seq<char> {
    match kind {
        FirmwareKind::Hex => "hexfile"@,
        FirmwareKind::Elf => "elffile"@,
        FirmwareKind::Bin => "binfile"@,
    }
}

/// Firmware of each kind travels under a key of its own, named after the
/// kind: `hexfile`, `elffile`, `binfile`; no two kinds share a key, and none
/// is the `net` key beside it.
pub proof fn law_flash_keys_follow_the_kind(a: FirmwareKind, b: FirmwareKind)
    ensures
        payload_key(a) == payload_key(b) ==> a == b,
        payload_key(a) != "net"@,
        payload_key(a) == (match a {
            FirmwareKind::Hex => "hex"@,
            FirmwareKind::Elf => "elf"@,
            FirmwareKind::Bin => "bin"@,
        }) + "file"@,
{
    reveal_strlit("hexfile");
    reveal_strlit("elffile");
    reveal_strlit("binfile");
    reveal_strlit("hex");
    reveal_strlit("elf");
    reveal_strlit("bin");
    reveal_strlit("file");
    reveal_strlit("net");
    if payload_key(a) == payload_key(b) {
        assert(payload_key(a)[0] == payload_key(b)[0]);
    }
    assert(payload_key(a).len() != "net"@.len());
    assert(payload_key(a) =~= (match a {
        FirmwareKind::Hex => "hex"@,
        FirmwareKind::Elf => "elf"@,
        FirmwareKind::Bin => "bin"@,
    }) + "file"@);
}

/// Default flash base address of a raw binary.
pub const DEFAULT_BIN_ADDRESS: u32 = 0x0800_0000;

/// `f` is the firmware object for `contents` of `kind`: the base64 text
/// under `content`, plus the flash address for a raw binary.
pub open spec fn firmware_object(f: Json, contents: Seq<u8>, kind: FirmwareKind, address: Option<u32>) -> bool {
    &&& is_str_member(f, "content"@, base64_of(contents))
    &&& match kind {
        FirmwareKind::Bin => (member(f, "address"@) matches Some(a) && is_uint(
            a,
            (match address {
                Some(x) => x,
                None => DEFAULT_BIN_ADDRESS,
            }) as nat,
        )) && keyed(f, set!["content"@, "address"@]),
        _ => keyed(f, set!["content"@]),
    }
}

/// The member `key` of `j` is the string `s`.
pub open spec fn is_str_member(j: Json, key: Seq<char>, s: Seq<char>) -> bool {
    member_str(j, key) == Some(s)
}

/// Build `/debug/flash` for firmware `contents` of `kind`; `address` is
/// only used for a raw binary (default `0x0800_0000`). 180 s budget.
pub fn flash(net: Json, contents: &[u8], kind: FirmwareKind, address: Option<u32>) -> (r: HttpRequest)
    ensures
        debug_op_request(r, "/debug/flash"@, net, 180000),
        member(body_of(r), payload_key(kind)) matches Some(f) && firmware_object(
            f,
            contents@,
            kind,
            address,
        ),
        obj_keys(body_of(r)) == set!["net"@, payload_key(kind)],
{
    proof {
        reveal_strlit("net");
        reveal_strlit("hexfile");
        reveal_strlit("elffile");
        reveal_strlit("binfile");
        reveal_strlit("content");
        reveal_strlit("address");
    }
    assert("net"@.len() == 3 && "hexfile"@.len() == 7 && "elffile"@.len() == 7
        && "binfile"@.len() == 7 && "content"@.len() == 7 && "address"@.len() == 7);
    assert("content"@[0] != "address"@[0]);
    let b64 = base64_encode(contents);
    let f1 = with_member(Json::empty_object(), "content", Json::Str(b64));
    let (key, f) = match kind {
        FirmwareKind::Hex => ("hexfile", f1),
        FirmwareKind::Elf => ("elffile", f1),
        FirmwareKind::Bin => {
            let a = match address {
                Some(x) => x,
                None => DEFAULT_BIN_ADDRESS,
            };
            let f2 = with_member(f1, "address", Json::uint(a as u64));
            assert(member(f2, "content"@) == member(f1, "content"@));
            assert(obj_keys(f2) =~= set!["content"@, "address"@]);
            ("binfile", f2)
        },
    };
    assert(key@ == payload_key(kind));
    assert(kind != FirmwareKind::Bin ==> obj_keys(f) =~= set!["content"@]);
    let extra = with_member(Json::empty_object(), key, f);
    assert(obj_keys(extra) =~= set![payload_key(kind)]);
    assert(key@ != "net"@);
    let r = debug_op("/debug/flash", net, extra, 180000);
    assert(obj_keys(body_of(r)) =~= set!["net"@, payload_key(kind)]);
    r
}

/// The body of a one-way RTT stream request (`/debug/rtt`): the channel,
/// no box-side timeout, and the control-block search window when given.
pub fn rtt_body(net: Json, opts: &RttOptions) -> (b: Json)
    ensures
        member(b, "net"@) == Some(net),
        member(b, "channel"@) matches Some(c) && is_uint(c, opts.channel as nat),
        member(b, "timeout"@) == Some(Json::Null),
        match opts.search_addr {
            Some(a) => member(b, "search_addr"@) matches Some(x) && is_uint(x, a as nat),
            None => member(b, "search_addr"@) is None,
        },
        match opts.search_size {
            Some(a) => member(b, "search_size"@) matches Some(x) && is_uint(x, a as nat),
            None => member(b, "search_size"@) is None,
        },
        distinct_keys(b),
        obj_keys(b) == set!["net"@, "channel"@, "timeout"@].union(
            if opts.search_addr is Some { set!["search_addr"@] } else { Set::empty() },
        ).union(if opts.search_size is Some { set!["search_size"@] } else { Set::empty() }),
{
    proof {
        reveal_strlit("net");
        reveal_strlit("channel");
        reveal_strlit("timeout");
        reveal_strlit("search_addr");
        reveal_strlit("search_size");
    }
    assert("net"@.len() == 3 && "channel"@.len() == 7 && "timeout"@.len() == 7
        && "search_addr"@.len() == 11 && "search_size"@.len() == 11);
    assert("channel"@[0] != "timeout"@[0] && "search_addr"@[7] != "search_size"@[7]);
    let e1 = with_member(Json::empty_object(), "channel", Json::uint(opts.channel as u64));
    let e2 = with_member(e1, "timeout", Json::Null);
    assert(member(e2, "channel"@) == member(e1, "channel"@));
    let e3 = match opts.search_addr {
        Some(a) => with_member(e2, "search_addr", Json::uint(a)),
        None => e2,
    };
    let extra = match opts.search_size {
        Some(sz) => with_member(e3, "search_size", Json::uint(sz)),
        None => e3,
    };
    proof {
        lemma_member_key(e2, "search_addr"@);
        lemma_member_key(e2, "search_size"@);
        lemma_member_key(e3, "search_size"@);
        assert(obj_keys(e2) =~= set!["channel"@, "timeout"@]);
        assert(obj_keys(extra) =~= set!["channel"@, "timeout"@].union(
            if opts.search_addr is Some { set!["search_addr"@] } else { Set::empty() },
        ).union(if opts.search_size is Some { set!["search_size"@] } else { Set::empty() }));
        lemma_member_key(extra, "net"@);
    }
    let b = debug_body(net, extra);
    assert(obj_keys(b) =~= set!["net"@, "channel"@, "timeout"@].union(
        if opts.search_addr is Some { set!["search_addr"@] } else { Set::empty() },
    ).union(if opts.search_size is Some { set!["search_size"@] } else { Set::empty() }));
    b
}

// ---------------------------------------------------------------------------
// Saved-record lookup
// ---------------------------------------------------------------------------

/// Index of the first record named `name` whose role is `debug`.
pub open spec fn is_debug_record(rec: Json, name: Seq<char>) -> bool {
    member_str(rec, "name"@) == Some(name) && member_str(rec, "role"@) == Some("debug"@)
}

/// The first record named `name` whose role is `debug`.
pub open spec fn first_debug_record(records: Seq<Json>, name: Seq<char>) -> Option<Json>
    decreases records.len(),
{
    if records.len() == 0 {
        None
    } else if is_debug_record(records[0], name) {
        Some(records[0])
    } else {
        first_debug_record(records.drop_first(), name)
    }
}

/// Some record is named `name`.
pub open spec fn has_named_record(records: Seq<Json>, name: Seq<char>) -> bool {
    exists|i: int| 0 <= i < records.len() && member_str(#[trigger] records[i], "name"@) == Some(name)
}

/// Find the saved record of a debug net by name in a raw nets list: the
/// first record with that name and the `debug` role. A 404 box error
/// names the miss: the net exists with another role, or not at all.
pub fn find_debug_record(records: Vec<Json>, name: &str) -> (r: Result<Json>)
    ensures
        match first_debug_record(records@, name@) {
            Some(rec) => r == Ok::<Json, Error>(rec),
            None => r matches Err(Error::Box { status, message }) && status == 404 && message@
                == if has_named_record(records@, name@) {
                "net '"@ + name@ + "' exists but is not a debug net"@
            } else {
                "debug net '"@ + name@ + "' not found on this box"@
            },
        },
{
    let mut wrong_role = false;
    let mut i: usize = 0;
    assert(records@.skip(0) =~= records@);
    while i < records.len()
        invariant
            i <= records@.len(),
            first_debug_record(records@, name@) == first_debug_record(records@.skip(i as int), name@),
            wrong_role == exists|j: int| 0 <= j < i && member_str(#[trigger] records@[j], "name"@) == Some(name@),
        decreases records@.len() - i,
    {
        assert(records@.skip(i as int)[0] == records@[i as int]);
        assert(records@.skip(i as int).drop_first() =~= records@.skip(i + 1));
        let named = match records[i].get_str("name") {
            Some(n) => crate::json::string_eq(&String::from_str(n), name),
            None => false,
        };
        if named {
            proof {
                reveal_strlit("debug");
            }
            let is_debug = match records[i].get_str("role") {
                Some(role) => crate::json::string_eq(&String::from_str(role), "debug"),
                None => false,
            };
            if is_debug {
                assert(first_debug_record(records@, name@) == Some(records@[i as int]));
                let mut v = records;
                let rec = v.remove(i);
                return Ok(rec);
            }
            wrong_role = true;
        }
        i = i + 1;
    }
    assert(records@.skip(i as int) =~= Seq::<Json>::empty());
    let message = if wrong_role {
        let mut m = String::from_str("net '");
        m.append(name);
        m.append("' exists but is not a debug net");
        m
    } else {
        let mut m = String::from_str("debug net '");
        m.append(name);
        m.append("' not found on this box");
        m
    };
    Err(Error::Box { status: 404, message })
}

} // verus!
