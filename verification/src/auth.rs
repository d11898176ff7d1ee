//! Gateway bearer-token auth for boxes fronted by an authenticating
//! reverse proxy: denial classification, the per-client token state, and
//! the transformations of the CLI-compatible token store
//! (`~/.lager_gateway_auth`). Reading and writing the store file, clocks and
//! the refresh HTTP call belong to the transports.

use vstd::prelude::*;
use vstd::string::StringExecFns;
use crate::error::Error;
use crate::json::{
    entry_value, extract_member, insert_entry, is_str, member, member_str, obj_keys, take_member,
    with_member, Json,
};
use crate::text::{
    joined,
    chars_of, find, find_chars, rfind_char, rfind_char_in, slice_chars, string_of, trim,
    trim_chars,
};

verus! {

/// Gateway discovery header carried on 401/403/503 denials.
pub const DISCOVERY_HEADER: &'static str = "x-gateway-auth-url";

/// Should this status be handled as a gateway denial (when it carries the
/// discovery header)?
pub fn is_denial(status: u16) -> (b: bool)
    ensures
        b == (status == 401 || status == 403 || status == 503),
{
    status == 401 || status == 403 || status == 503
}

/// Message of a 401 gateway denial.
pub open spec fn sign_in_message(box_host: Seq<char>, sent_token: bool) -> Seq<char> {
    if sent_token {
        "your session was rejected by box "@ + box_host
    } else {
        "box "@ + box_host + " requires sign-in"@
    }
}

/// Message of a 403 gateway denial.
pub open spec fn no_grant_message(box_host: Seq<char>) -> Seq<char> {
    "you are not authorized to use box "@ + box_host
        + " (your account has no access grant for it; ask your admin)"@
}

/// Message of any other gateway denial (503: the auth server is down).
pub open spec fn auth_down_message(box_host: Seq<char>) -> Seq<char> {
    "box "@ + box_host + " could not verify authorization: its auth server is unreachable. Try again shortly"@
}

/// `e` is the error a gateway denial with `status` turns into: 401 asks
/// for sign-in, 403 reports a missing access grant, anything else an
/// unreachable auth server.
pub open spec fn is_denial_error(
    e: Error,
    status: u16,
    box_host: Seq<char>,
    auth_url: Seq<char>,
    sent_token: bool,
) -> bool {
    if status == 401 {
        e matches Error::AuthRequired { box_host: h, auth_url: u, message: m } && h@ == box_host
            && u@ == auth_url && m@ == sign_in_message(box_host, sent_token)
    } else if status == 403 {
        e matches Error::Box { status: s, message: m } && s == 403 && m@ == no_grant_message(
            box_host,
        )
    } else {
        e matches Error::Box { status: s, message: m } && s == status && m@ == auth_down_message(
            box_host,
        )
    }
}

/// Turn a gateway denial into an actionable [`Error`].
pub fn denial_error(status: u16, box_host: &str, auth_url: &str, sent_token: bool) -> (e: Error)
    ensures
        is_denial_error(e, status, box_host@, auth_url@, sent_token),
{
    if status == 401 {
        let message = if sent_token {
            let mut m = String::from_str("your session was rejected by box ");
            m.append(box_host);
            m
        } else {
            let mut m = String::from_str("box ");
            m.append(box_host);
            m.append(" requires sign-in");
            m
        };
        Error::AuthRequired {
            box_host: String::from_str(box_host),
            auth_url: String::from_str(auth_url),
            message,
        }
    } else if status == 403 {
        let mut m = String::from_str("you are not authorized to use box ");
        m.append(box_host);
        m.append(" (your account has no access grant for it; ask your admin)");
        Error::Box { status, message: m }
    } else {
        let mut m = String::from_str("box ");
        m.append(box_host);
        m.append(
            " could not verify authorization: its auth server is unreachable. Try again shortly",
        );
        Error::Box { status, message: m }
    }
}

/// The host part of a base URL: after the scheme, before any path, without
/// the port.
pub open spec fn host_of_url(base: Seq<char>) -> Seq<char> {
    let rest0 = match find(base, "://"@) {
        Some(i) => base.skip(i as int + 3),
        None => base,
    };
    let rest = match find(rest0, "/"@) {
        Some(j) => rest0.take(j as int),
        None => rest0,
    };
    match rfind_char(rest, ':') {
        Some(k) => rest.take(k as int),
        None => rest,
    }
}

/// Host of a box base URL (e.g. `http://host:9000` gives `host`).
pub fn host_of(base_url: &str) -> (h: String)
    ensures
        h@ == host_of_url(base_url@),
{
    let v = chars_of(base_url);
    let sep = chars_of("://");
    proof { reveal_strlit("://"); reveal_strlit("/"); }
    let rest0 = match find_chars(v.as_slice(), sep.as_slice()) {
        Some(i) => {
            proof { crate::text::lemma_find_from_found(v@, sep@, 0); }
            let n = v.len();
            let r = slice_chars(v.as_slice(), i + 3, n);
            assert(r@ =~= v@.skip(i as int + 3));
            r
        },
        None => {
            let r = slice_chars(v.as_slice(), 0, v.len());
            assert(r@ =~= v@);
            r
        },
    };
    let slash = chars_of("/");
    let rest = match find_chars(rest0.as_slice(), slash.as_slice()) {
        Some(j) => {
            proof { crate::text::lemma_find_from_found(rest0@, slash@, 0); }
            let r = slice_chars(rest0.as_slice(), 0, j);
            assert(r@ =~= rest0@.take(j as int));
            r
        },
        None => {
            let r = slice_chars(rest0.as_slice(), 0, rest0.len());
            assert(r@ =~= rest0@);
            r
        },
    };
    let host = match rfind_char_in(rest.as_slice(), ':') {
        Some(k) => {
            let r = slice_chars(rest.as_slice(), 0, k);
            assert(r@ =~= rest@.take(k as int));
            r
        },
        None => {
            let r = slice_chars(rest.as_slice(), 0, rest.len());
            assert(r@ =~= rest@);
            r
        },
    };
    string_of(host.as_slice())
}

} // verus!

verus! {

/// Text before the first `c` in `s` (`s.split(c).next()`).
pub open spec fn before_char(s: Seq<char>, c: char) -> Seq<char> {
    match find(s, seq![c]) {
        Some(i) => s.take(i as int),
        None => s,
    }
}

/// Split at the first `c` (`str::split_once(c)`).
pub open spec fn split_once_char(s: Seq<char>, c: char) -> Option<(Seq<char>, Seq<char>)> {
    match find(s, seq![c]) {
        Some(i) => Some((s.take(i as int), s.skip(i as int + 1))),
        None => None,
    }
}

/// The `(name, value)` a `Set-Cookie:` header value sets.
pub open spec fn set_cookie_pair(header: Seq<char>) -> Option<(Seq<char>, Seq<char>)> {
    let pair = trim(before_char(header, ';'));
    match split_once_char(pair, '=') {
        Some((name, value)) => if name.len() == 0 {
            None
        } else {
            Some((trim(name), trim(value)))
        },
        None => None,
    }
}

/// `s.split_once(c)` over characters.
pub fn split_once_chars(v: &[char], c: char) -> (r: Option<(Vec<char>, Vec<char>)>)
    ensures
        r matches Some((a, b)) ==> split_once_char(v@, c) == Some((a@, b@)),
        r is None ==> split_once_char(v@, c) is None,
{
    let mut p: Vec<char> = Vec::new();
    p.push(c);
    assert(p@ =~= seq![c]);
    match find_chars(v, p.as_slice()) {
        Some(i) => {
            proof { crate::text::lemma_find_from_found(v@, p@, 0); }
            let n = v.len();
            let a = slice_chars(v, 0, i);
            let b = slice_chars(v, i + 1, n);
            assert(a@ =~= v@.take(i as int));
            assert(b@ =~= v@.skip(i as int + 1));
            Some((a, b))
        },
        None => None,
    }
}

/// Text before the first `c` (`s.split(c).next()`), over characters.
pub fn before_char_chars(v: &[char], c: char) -> (r: Vec<char>)
    ensures
        r@ == before_char(v@, c),
{
    let mut p: Vec<char> = Vec::new();
    p.push(c);
    assert(p@ =~= seq![c]);
    match find_chars(v, p.as_slice()) {
        Some(i) => {
            proof { crate::text::lemma_find_from_found(v@, p@, 0); }
            let a = slice_chars(v, 0, i);
            assert(a@ =~= v@.take(i as int));
            a
        },
        None => {
            let a = slice_chars(v, 0, v.len());
            assert(a@ =~= v@);
            a
        },
    }
}

/// Parse one `Set-Cookie:` header value into `(name, value)`.
pub fn parse_set_cookie(header: &str) -> (r: Option<(String, String)>)
    ensures
        r matches Some((n, v)) ==> set_cookie_pair(header@) == Some((n@, v@)),
        r is None ==> set_cookie_pair(header@) is None,
{
    let first = before_char_chars(chars_of(header).as_slice(), ';');
    let pair = trim_chars(first.as_slice());
    match split_once_chars(pair.as_slice(), '=') {
        Some((name, value)) => {
            if name.len() == 0 {
                None
            } else {
                let n = string_of(trim_chars(name.as_slice()).as_slice());
                let v = string_of(trim_chars(value.as_slice()).as_slice());
                Some((n, v))
            }
        },
        None => None,
    }
}

/// `name=value` pieces for the string-valued cookies, in order.
pub open spec fn cookie_pieces(cookies: Seq<(String, Json)>) -> Seq<Seq<char>>
    decreases cookies.len(),
{
    if cookies.len() == 0 {
        Seq::empty()
    } else {
        let rest = cookie_pieces(cookies.drop_last());
        match cookies.last().1 {
            Json::Str(v) => rest.push(cookies.last().0@ + "="@ + v@),
            _ => rest,
        }
    }
}

/// Build a `Cookie:` header value from the store's cookie map (entries in
/// key order; values that are not strings are skipped).
pub fn cookie_header(cookies: &[(String, Json)]) -> (h: String)
    ensures
        h@ == joined(cookie_pieces(cookies@), "; "@),
{
    let mut out = String::new();
    let mut count: usize = 0;
    let mut i: usize = 0;
    while i < cookies.len()
        invariant
            i <= cookies@.len(),
            count == cookie_pieces(cookies@.take(i as int)).len(),
            count <= i,
            out@ == joined(cookie_pieces(cookies@.take(i as int)), "; "@),
        decreases cookies@.len() - i,
    {
        assert(cookies@.take(i + 1).drop_last() =~= cookies@.take(i as int));
        let ghost ps = cookie_pieces(cookies@.take(i as int));
        let ghost before = out@;
        let (k, v) = &cookies[i];
        match v {
            Json::Str(val) => {
                if count > 0 {
                    out.append("; ");
                }
                out.append(k.as_str());
                out.append("=");
                out.append(val.as_str());
                count = count + 1;
                proof {
                    let piece = k@ + "="@ + val@;
                    assert(cookie_pieces(cookies@.take(i + 1)) == ps.push(piece));
                    assert(ps.push(piece).drop_last() =~= ps);
                    if ps.len() == 0 {
                        assert(out@ =~= piece);
                    } else {
                        assert(out@ =~= before + "; "@ + piece);
                    }
                }
            },
            _ => {},
        }
        i = i + 1;
    }
    assert(cookies@.take(cookies@.len() as int) =~= cookies@);
    out
}

/// Whether the stored token can be used directly (`(Some(token), false)`),
/// or a refresh must be attempted (`(None, true)`). `avoid` is a token the
/// gateway just rejected; `stored_fresh` is whether the stored token is
/// still fresh by its expiry.
pub fn usable_or_refresh(stored: Option<String>, avoid: Option<&str>, stored_fresh: bool) -> (r: (
    Option<String>,
    bool,
))
    ensures
        r == (match stored {
            Some(t) => if stored_fresh && !(avoid matches Some(a) && a@ == t@) {
                (Some(t), false)
            } else {
                (None, true)
            },
            None => (None, true),
        }),
{
    match stored {
        Some(t) => {
            let same = match avoid {
                Some(a) => crate::json::string_eq(&t, a),
                None => false,
            };
            if stored_fresh && !same {
                (Some(t), false)
            } else {
                (None, true)
            }
        },
        None => (None, true),
    }
}

/// The second `.`-separated segment of a token, if any
/// (`token.split('.').nth(1)`).
pub open spec fn second_segment(t: Seq<char>) -> Option<Seq<char>> {
    match split_once_char(t, '.') {
        Some((_, rest)) => Some(before_char(rest, '.')),
        None => None,
    }
}

/// The raw (still JSON-encoded) payload of a JWT: its second segment,
/// base64url-decoded. `None` when the token has no readable payload.
pub fn jwt_payload(token: &str) -> (r: Option<Vec<u8>>)
    ensures
        r matches Some(b) ==> (second_segment(token@) matches Some(seg)
            && crate::codec::base64url_decoded(seg) == Some(b@)),
        r is None ==> (second_segment(token@) is None || (second_segment(token@) matches Some(seg)
            && crate::codec::base64url_decoded(seg) is None)),
{
    match split_once_chars(chars_of(token).as_slice(), '.') {
        Some((_, rest)) => {
            let seg = string_of(before_char_chars(rest.as_slice(), '.').as_slice());
            crate::codec::base64url_decode(seg.as_str())
        },
        None => None,
    }
}

} // verus!

verus! {

/// `Option<String>` by its characters.
pub open spec fn opt_view(o: Option<String>) -> Option<Seq<char>> {
    match o {
        Some(s) => Some(s@),
        None => None,
    }
}

/// The token the builder or environment pins: the builder's, else the
/// environment's, and none at all when that one is blank.
pub open spec fn pinned_token(builder: Option<Seq<char>>, env: Option<Seq<char>>) -> Option<Seq<char>> {
    let chosen = match builder {
        Some(t) => Some(t),
        None => env,
    };
    match chosen {
        Some(t) => if trim(t).len() == 0 { None } else { Some(t) },
        None => None,
    }
}

/// Abstract state of one client's gateway auth.
pub struct GatewayAuthView {
    /// Hostname of the box (the store's `boxes` key).
    pub box_host: Seq<char>,
    /// Token pinned by the builder or `LAGER_GATEWAY_TOKEN`; attached
    /// verbatim and never refreshed.
    pub static_token: Option<Seq<char>>,
    /// Auth server for this box, from the store or a discovery header.
    pub auth_url: Option<Seq<char>>,
    /// Access token resolved from the store (none until first needed).
    pub token: Option<Seq<char>>,
}

/// Bearer-token state for one client. Cheap when the box is not gated: no
/// token is attached and none of the store logic runs.
#[derive(Debug)]
pub struct GatewayAuth {
    box_host: String,
    static_token: Option<String>,
    auth_url: Option<String>,
    token: Option<String>,
}

impl View for GatewayAuth {
    type V = GatewayAuthView;

    closed spec fn view(&self) -> GatewayAuthView {
        GatewayAuthView {
            box_host: self.box_host@,
            static_token: opt_view(self.static_token),
            auth_url: opt_view(self.auth_url),
            token: opt_view(self.token),
        }
    }
}

fn clone_opt(o: &Option<String>) -> (r: Option<String>)
    ensures
        opt_view(r) == opt_view(*o),
{
    match o {
        Some(s) => Some(s.clone()),
        None => None,
    }
}

impl GatewayAuth {
    /// Auth state for a box base URL (e.g. `http://host:9000`). The token
    /// pinned by the builder wins over the one from the environment;
    /// `stored_auth_url` is the auth server the token store already maps
    /// this box to, if any.
    pub fn new(
        base_url: &str,
        builder_token: Option<String>,
        env_token: Option<String>,
        stored_auth_url: Option<String>,
    ) -> (a: GatewayAuth)
        ensures
            a@.box_host == host_of_url(base_url@),
            a@.static_token == pinned_token(opt_view(builder_token), opt_view(env_token)),
            a@.auth_url == opt_view(stored_auth_url),
            a@.token is None,
    {
        let chosen = match builder_token {
            Some(t) => Some(t),
            None => env_token,
        };
        let static_token = match chosen {
            Some(t) => {
                if trim_chars(chars_of(t.as_str()).as_slice()).len() == 0 {
                    None
                } else {
                    Some(t)
                }
            },
            None => None,
        };
        GatewayAuth { box_host: host_of(base_url), static_token, auth_url: stored_auth_url, token: None }
    }

    /// Hostname of the box.
    pub fn box_host(&self) -> (h: &str)
        ensures
            h@ == self@.box_host,
    {
        self.box_host.as_str()
    }

    /// Record the box-to-auth-server mapping learned from a discovery
    /// header. Returns whether it changed (and so should be written back to
    /// the token store).
    pub fn learn_auth_server(&mut self, auth_url: &str) -> (changed: bool)
        ensures
            final(self)@ == (GatewayAuthView { auth_url: Some(auth_url@), ..old(self)@ }),
            changed == (old(self)@.auth_url != Some(auth_url@)),
    {
        let same = match &self.auth_url {
            Some(u) => crate::json::string_eq(u, auth_url),
            None => false,
        };
        if same {
            false
        } else {
            self.auth_url = Some(String::from_str(auth_url));
            true
        }
    }

    /// The auth server currently associated with this box, if known.
    pub fn auth_url(&self) -> (u: Option<String>)
        ensures
            opt_view(u) == self@.auth_url,
    {
        clone_opt(&self.auth_url)
    }

    /// The token resolved from the store and cached, if any (its freshness
    /// is judged by the caller, who holds the clock).
    pub fn cached_store_token(&self) -> (t: Option<String>)
        ensures
            opt_view(t) == self@.token,
    {
        clone_opt(&self.token)
    }

    /// Token to attach without any network I/O: the pinned token, or the
    /// cached store token when `cached_fresh` says it is still fresh. A
    /// stale cached token is dropped.
    pub fn cached_token(&mut self, cached_fresh: bool) -> (t: Option<String>)
        ensures
            old(self)@.static_token is Some ==> (final(self)@ == old(self)@ && opt_view(t)
                == old(self)@.static_token),
            old(self)@.static_token is None ==> (if old(self)@.token is Some && cached_fresh {
                final(self)@ == old(self)@ && opt_view(t) == old(self)@.token
            } else {
                final(self)@ == (GatewayAuthView { token: None, ..old(self)@ }) && t is None
            }),
    {
        if let Some(token) = &self.static_token {
            return Some(token.clone());
        }
        if self.token.is_some() && cached_fresh {
            clone_opt(&self.token)
        } else {
            self.token = None;
            None
        }
    }

    /// Whether store-based resolution should run: no pinned token, and the
    /// box is known to be gated.
    pub fn wants_store_token(&self) -> (b: bool)
        ensures
            b == (self@.static_token is None && self@.auth_url is Some),
    {
        self.static_token.is_none() && self.auth_url.is_some()
    }

    /// True when the token is pinned (builder/env) and must not be replaced
    /// by store resolution.
    pub fn has_static_token(&self) -> (b: bool)
        ensures
            b == self@.static_token is Some,
    {
        self.static_token.is_some()
    }

    /// Cache a token resolved from the store (ignored when a token is
    /// pinned).
    pub fn cache_token(&mut self, token: &str)
        ensures
            old(self)@.static_token is None ==> final(self)@ == (GatewayAuthView {
                token: Some(token@),
                ..old(self)@
            }),
            old(self)@.static_token is Some ==> final(self)@ == old(self)@,
    {
        if self.static_token.is_none() {
            self.token = Some(String::from_str(token));
        }
    }
}

} // verus!

verus! {

// ---------------------------------------------------------------------------
// The CLI-compatible token store (`~/.lager_gateway_auth`), as JSON
// ---------------------------------------------------------------------------

/// The member `key` of an optional value.
pub open spec fn opt_member(o: Option<Json>, key: Seq<char>) -> Option<Json> {
    match o {
        Some(j) => member(j, key),
        None => None,
    }
}

/// The auth server the store maps a box to (`boxes[box_host]`).
pub open spec fn store_auth_url(store: Json, box_host: Seq<char>) -> Option<Seq<char>> {
    match member(store, "boxes"@) {
        Some(b) => member_str(b, box_host),
        None => None,
    }
}

/// The auth server the token store maps this box to, if any. A box
/// already known to be gated gets its token attached proactively.
pub fn stored_auth_server(store: &Json, box_host: &str) -> (r: Option<String>)
    ensures
        opt_view(r) == store_auth_url(*store, box_host@),
{
    match store.get("boxes") {
        Some(b) => match b.get_str(box_host) {
            Some(u) => Some(String::from_str(u)),
            None => None,
        },
        None => None,
    }
}

/// `r` is what recording `box_host -> auth_url` in the token store gives:
/// the updated store to write back, or `None` when there is nothing to
/// write (the mapping is already there, or the store has no room for it).
pub open spec fn recorded_store(store: Json, box_host: Seq<char>, auth_url: Seq<char>, r: Option<Json>) -> bool {
    &&& !(store is Object) ==> r is None
    &&& store is Object ==> match member(store, "boxes"@) {
            Some(b) => if !(b is Object) || member_str(b, box_host) == Some(auth_url) {
                r is None
            } else {
                r matches Some(n) && n is Object && (forall|k: Seq<char>| k != "boxes"@ ==> member(
                    n,
                    k,
                ) == member(store, k)) && (member(n, "boxes"@) matches Some(b2) && member_str(
                    b2,
                    box_host,
                ) == Some(auth_url) && forall|k: Seq<char>| k != box_host ==> member(b2, k)
                    == member(b, k))
            },
            None => r matches Some(n) && n is Object && (forall|k: Seq<char>| k != "boxes"@
                ==> member(n, k) == member(store, k)) && (member(n, "boxes"@) matches Some(b2)
                && member_str(b2, box_host) == Some(auth_url) && forall|k: Seq<char>| k
                != box_host ==> member(b2, k) is None),
        }
}

/// The store with `boxes[box_host]` recording `auth_url`, when that is a
/// change to write back; `None` when the mapping is already there or the
/// store has no room for it (not an object, or `boxes` not an object).
pub fn record_auth_server(store: Json, box_host: &str, auth_url: &str) -> (r: Option<Json>)
    ensures
        recorded_store(store, box_host@, auth_url@, r),
{
    if !(match &store {
        Json::Object(_) => true,
        _ => false,
    }) {
        return None;
    }
    let (root, boxes) = extract_member(store, "boxes");
    let boxes = match boxes {
        Some(b) => b,
        None => Json::empty_object(),
    };
    let is_obj = match &boxes {
        Json::Object(_) => true,
        _ => false,
    };
    if !is_obj {
        return None;
    }
    let same = match boxes.get_str(box_host) {
        Some(u) => crate::json::string_eq(&String::from_str(u), auth_url),
        None => false,
    };
    if same {
        return None;
    }
    let b2 = with_member(boxes, box_host, Json::str_of(auth_url));
    Some(with_member(root, "boxes", b2))
}

/// The stored entry for an auth server (`authServers[auth_url]`), if any.
pub open spec fn server_entry(store: Json, auth_url: Seq<char>) -> Option<Json> {
    opt_member(member(store, "authServers"@), auth_url)
}

/// The cookies of a stored entry (its `cookies` object's entries; none
/// when absent or not an object).
pub open spec fn entry_cookies(entry: Option<Json>) -> Seq<(String, Json)> {
    match opt_member(entry, "cookies"@) {
        Some(Json::Object(c)) => c@,
        _ => Seq::empty(),
    }
}

/// The stored access token and refresh cookies for an auth server.
pub fn store_entry(store: Json, auth_url: &str) -> (r: (Option<String>, Vec<(String, Json)>))
    ensures
        opt_view(r.0) == (match server_entry(store, auth_url@) {
            Some(e) => member_str(e, "accessToken"@),
            None => None,
        }),
        r.1@ == entry_cookies(server_entry(store, auth_url@)),
{
    let entry = match take_member(store, "authServers") {
        Some(servers) => take_member(servers, auth_url),
        None => None,
    };
    match entry {
        Some(e) => {
            let token = match e.get_str("accessToken") {
                Some(t) => Some(String::from_str(t)),
                None => None,
            };
            let cookies = match take_member(e, "cookies") {
                Some(Json::Object(c)) => c,
                _ => Vec::new(),
            };
            (token, cookies)
        },
        None => (None, Vec::new()),
    }
}

/// The value the last `Set-Cookie` pair named `name` gives, if any.
pub open spec fn last_cookie(set_cookies: Seq<(String, String)>, name: Seq<char>) -> Option<Seq<char>>
    decreases set_cookies.len(),
{
    if set_cookies.len() == 0 {
        None
    } else if set_cookies.last().0@ == name {
        Some(set_cookies.last().1@)
    } else {
        last_cookie(set_cookies.drop_last(), name)
    }
}

/// `c` is the cookie map `c0` with the rotated cookies merged over it (a
/// `cookies` value that is not an object is left alone).
pub open spec fn merged_cookies(c: Json, c0: Option<Json>, set_cookies: Seq<(String, String)>) -> bool {
    let merged = c is Object && forall|k: Seq<char>| #![trigger member(c, k)] match last_cookie(set_cookies, k) {
        Some(v) => member_str(c, k) == Some(v),
        None => member(c, k) == opt_member(c0, k),
    };
    match c0 {
        Some(x) => if x is Object {
            merged
        } else {
            c == x
        },
        None => merged,
    }
}

/// `e` is the server entry `e0` after a refresh: the new access token and
/// the merged cookies (an entry that is not an object is left alone).
pub open spec fn refreshed_entry(
    e: Json,
    e0: Option<Json>,
    access_token: Seq<char>,
    set_cookies: Seq<(String, String)>,
) -> bool {
    let refreshed = {
        &&& e is Object
        &&& member_str(e, "accessToken"@) == Some(access_token)
        &&& forall|k: Seq<char>| k != "accessToken"@ && k != "cookies"@ ==> member(e, k) == opt_member(e0, k)
        &&& member(e, "cookies"@) matches Some(c) && merged_cookies(
            c,
            opt_member(e0, "cookies"@),
            set_cookies,
        )
    };
    match e0 {
        Some(x) => if x is Object {
            refreshed
        } else {
            e == x
        },
        None => refreshed,
    }
}

/// `r` is the token store after a refresh against `auth_url`.
pub open spec fn refreshed_store(
    r: Json,
    store: Json,
    auth_url: Seq<char>,
    access_token: Seq<char>,
    set_cookies: Seq<(String, String)>,
) -> bool {
    if !(store is Object) {
        r == store
    } else if member(store, "authServers"@) matches Some(s) && !(s is Object) {
        forall|k: Seq<char>| member(r, k) == member(store, k)
    } else {
        &&& r is Object
        &&& forall|k: Seq<char>| k != "authServers"@ ==> member(r, k) == member(store, k)
        &&& member(r, "authServers"@) matches Some(servers) && servers is Object && (forall|
            k: Seq<char>,
        | k != auth_url ==> member(servers, k) == opt_member(member(store, "authServers"@), k))
            && (member(servers, auth_url) matches Some(e) && refreshed_entry(
            e,
            server_entry(store, auth_url),
            access_token,
            set_cookies,
        ))
    }
}

fn merge_cookies(c0: Option<Json>, set_cookies: &[(String, String)]) -> (c: Json)
    ensures
        merged_cookies(c, c0, set_cookies@),
{
    let c = match c0 {
        Some(x) => x,
        None => Json::empty_object(),
    };
    let is_obj = match &c {
        Json::Object(_) => true,
        _ => false,
    };
    if !is_obj {
        return c;
    }
    let mut cur = c;
    let mut i: usize = 0;
    assert(set_cookies@.take(0) =~= Seq::<(String, String)>::empty());
    while i < set_cookies.len()
        invariant
            i <= set_cookies@.len(),
            cur is Object,
            c0 matches Some(x) ==> x is Object,
            forall|k: Seq<char>| #![trigger member(cur, k)] match last_cookie(set_cookies@.take(i as int), k) {
                Some(v) => member_str(cur, k) == Some(v),
                None => member(cur, k) == opt_member(c0, k),
            },
        decreases set_cookies@.len() - i,
    {
        let (name, value) = &set_cookies[i];
        assert(set_cookies@.take(i + 1).drop_last() =~= set_cookies@.take(i as int));
        cur = with_member(cur, name.as_str(), Json::str_of(value.as_str()));
        i = i + 1;
    }
    assert(set_cookies@.take(i as int) =~= set_cookies@);
    cur
}

fn refresh_entry(e0: Option<Json>, access_token: &str, set_cookies: &[(String, String)]) -> (e: Json)
    ensures
        refreshed_entry(e, e0, access_token@, set_cookies@),
{
    proof {
        reveal_strlit("accessToken");
        reveal_strlit("cookies");
    }
    assert("accessToken"@.len() == 11 && "cookies"@.len() == 7);
    let base = match e0 {
        Some(e) => {
            let e_is_obj = match &e {
                Json::Object(_) => true,
                _ => false,
            };
            if !e_is_obj {
                return e;
            }
            e
        },
        None => Json::empty_object(),
    };
    assert(forall|k: Seq<char>| member(base, k) == opt_member(e0, k));
    let e1 = with_member(base, "accessToken", Json::str_of(access_token));
    let (e2, c0) = extract_member(e1, "cookies");
    assert(c0 == opt_member(e0, "cookies"@));
    let c = merge_cookies(c0, set_cookies);
    let e = with_member(e2, "cookies", c);
    assert(member(e, "accessToken"@) == member(e1, "accessToken"@));
    e
}

/// The token store after a successful refresh against `auth_url`: the
/// server entry gets the new access token, and the rotated cookies are
/// merged over the stored ones (replay-safe). Parts of the store that are
/// not objects are left alone.
pub fn apply_refresh(
    store: Json,
    auth_url: &str,
    access_token: &str,
    set_cookies: &[(String, String)],
) -> (r: Json)
    ensures
        refreshed_store(r, store, auth_url@, access_token@, set_cookies@),
{
    proof {
        reveal_strlit("accessToken");
        reveal_strlit("cookies");
    }
    assert("accessToken"@.len() == 11 && "cookies"@.len() == 7);
    let store_is_obj = match &store {
        Json::Object(_) => true,
        _ => false,
    };
    if !store_is_obj {
        return store;
    }
    let ghost s0 = member(store, "authServers"@);
    let (root, servers) = extract_member(store, "authServers");
    assert(servers == s0);
    let servers = match servers {
        Some(s) => {
            let s_is_obj = match &s {
                Json::Object(_) => true,
                _ => false,
            };
            if !s_is_obj {
                let back = with_member(root, "authServers", s);
                return back;
            }
            s
        },
        None => Json::empty_object(),
    };
    assert(forall|k: Seq<char>| member(servers, k) == opt_member(s0, k));
    let (servers_rest, entry) = extract_member(servers, auth_url);
    let new_entry = refresh_entry(entry, access_token, set_cookies);
    let servers2 = with_member(servers_rest, auth_url, new_entry);
    with_member(root, "authServers", servers2)
}

// ---------------------------------------------------------------------------
// Token resolution: store lookup, then refresh
// ---------------------------------------------------------------------------

/// How a token is resolved from the store.
#[derive(Debug)]
pub enum ResolvePlan {
    /// The stored token is usable as it is (it has been cached).
    Use(String),
    /// Refresh against the auth server, sending this `Cookie:` header, then
    /// finish with [`after_refresh`].
    Refresh(String),
    /// No token can be had.
    GiveUp,
}

/// Decide how to resolve a token for a gated box from its stored entry:
/// use the stored token when it is fresh and not the one the gateway just
/// rejected (`avoid`), else refresh with the stored cookies, else give up.
pub fn resolve_plan(
    auth: &mut GatewayAuth,
    stored: Option<String>,
    cookies: &[(String, Json)],
    avoid: Option<&str>,
    stored_fresh: bool,
) -> (p: ResolvePlan)
    ensures
        match stored {
            Some(t) if stored_fresh && !(avoid matches Some(a) && a@ == t@) => p == ResolvePlan::Use(t)
                && (old(auth)@.static_token is None ==> final(auth)@ == (GatewayAuthView {
                    token: Some(t@),
                    ..old(auth)@
                })) && (old(auth)@.static_token is Some ==> final(auth)@ == old(auth)@),
            _ => final(auth)@ == old(auth)@ && if cookies@.len() == 0 {
                p == ResolvePlan::GiveUp
            } else {
                p matches ResolvePlan::Refresh(h) && h@ == joined(cookie_pieces(cookies@), "; "@)
            },
        },
{
    let (usable, needs_refresh) = usable_or_refresh(stored, avoid, stored_fresh);
    if let Some(t) = usable {
        auth.cache_token(t.as_str());
        return ResolvePlan::Use(t);
    }
    if !needs_refresh || cookies.len() == 0 {
        return ResolvePlan::GiveUp;
    }
    ResolvePlan::Refresh(cookie_header(cookies))
}

/// The access token of a refresh reply's body (`accessToken`), if any.
pub fn refreshed_token(body: &Json) -> (t: Option<String>)
    ensures
        opt_view(t) == member_str(*body, "accessToken"@),
{
    match body.get_str("accessToken") {
        Some(x) => Some(String::from_str(x)),
        None => None,
    }
}

/// Finish a refresh: cache the new token and return the token store to
/// write back, with the token recorded and the rotated cookies merged.
pub fn after_refresh(
    auth: &mut GatewayAuth,
    store: Json,
    auth_url: &str,
    access_token: &str,
    set_cookies: &[(String, String)],
) -> (r: Json)
    ensures
        refreshed_store(r, store, auth_url@, access_token@, set_cookies@),
        old(auth)@.static_token is None ==> final(auth)@ == (GatewayAuthView {
            token: Some(access_token@),
            ..old(auth)@
        }),
        old(auth)@.static_token is Some ==> final(auth)@ == old(auth)@,
{
    let r = apply_refresh(store, auth_url, access_token, set_cookies);
    auth.cache_token(access_token);
    r
}

// ---------------------------------------------------------------------------
// Laws of the token store
// ---------------------------------------------------------------------------

/// Learning an auth server sticks: after recording `box_host -> auth_url`
/// (in a store with room for it), looking the box up gives that auth
/// server, whether the store had to be rewritten or already held it.
pub proof fn law_recorded_auth_server_is_found(store: Json, box_host: Seq<char>, auth_url: Seq<char>, r: Option<Json>)
    requires
        recorded_store(store, box_host, auth_url, r),
        store is Object,
        member(store, "boxes"@) matches Some(b) ==> b is Object,
    ensures
        match r {
            Some(n) => store_auth_url(n, box_host) == Some(auth_url),
            None => store_auth_url(store, box_host) == Some(auth_url),
        },
{
}

/// A refresh is read back: after the refreshed token is recorded against
/// `auth_url` (in a store whose `authServers` and entry are objects, or
/// absent), the stored entry carries that token and every rotated cookie
/// with its new value.
pub proof fn law_refresh_is_read_back(
    r: Json,
    store: Json,
    auth_url: Seq<char>,
    access_token: Seq<char>,
    set_cookies: Seq<(String, String)>,
)
    requires
        refreshed_store(r, store, auth_url, access_token, set_cookies),
        store is Object,
        member(store, "authServers"@) matches Some(s) ==> s is Object,
        server_entry(store, auth_url) matches Some(e) ==> e is Object,
        opt_member(server_entry(store, auth_url), "cookies"@) matches Some(c) ==> c is Object,
    ensures
        server_entry(r, auth_url) matches Some(e) && member_str(e, "accessToken"@) == Some(access_token),
        forall|name: Seq<char>| match #[trigger] last_cookie(set_cookies, name) {
            Some(v) => opt_member(server_entry(r, auth_url), "cookies"@) matches Some(c)
                && member_str(c, name) == Some(v),
            None => true,
        },
{
    let servers = member(r, "authServers"@)->0;
    let e = member(servers, auth_url)->0;
    let c = member(e, "cookies"@)->0;
    assert(server_entry(r, auth_url) == Some(e));
    assert forall|name: Seq<char>| match #[trigger] last_cookie(set_cookies, name) {
        Some(v) => opt_member(server_entry(r, auth_url), "cookies"@) matches Some(c2)
            && member_str(c2, name) == Some(v),
        None => true,
    } by {
        assert(member(c, name) == member(c, name));
    }
}

} // verus!
