//! Byte codecs used on the wire: lowercase hex (Socket.IO payloads and
//! debug memory reads), standard base64 (firmware uploads), unpadded
//! base64url (JWT payloads) and RFC 3986 percent-encoding (query strings).

use vstd::prelude::*;
use vstd::string::StringSliceAdditionalSpecFns;
use crate::text::{chars_of, digit_char, string_of, strip_end, strip_end_chars, trim, trim_chars};

verus! {

// ---------------------------------------------------------------------------
// Hex
// ---------------------------------------------------------------------------

/// Lowercase hex digit for `d < 16`.
pub open spec fn hex_digit(d: nat) -> char {
    if d < 10 { digit_char(d) } else { ((d - 10) + 97) as char }
}

/// Value of one hex digit character (either case).
pub open spec fn hex_value(c: char) -> Option<nat> {
    if '0' <= c && c <= '9' {
        Some((c as nat - 48) as nat)
    } else if 'a' <= c && c <= 'f' {
        Some((c as nat - 87) as nat)
    } else if 'A' <= c && c <= 'F' {
        Some((c as nat - 55) as nat)
    } else {
        None
    }
}

/// Two lowercase hex digits for one byte (`format!("{b:02x}")`).
pub open spec fn byte_hex(b: u8) -> Seq<char> {
    seq![hex_digit(b as nat / 16), hex_digit(b as nat % 16)]
}

/// Lowercase hex of a byte sequence.
pub open spec fn hex_of(s: Seq<u8>) -> Seq<char>
    decreases s.len(),
{
    if s.len() == 0 {
        Seq::empty()
    } else {
        hex_of(s.drop_last()) + byte_hex(s.last())
    }
}

fn hex_digit_char(d: u8) -> (c: char)
    requires
        d < 16,
    ensures
        c == hex_digit(d as nat),
{
    if d < 10 {
        ((d + 48) as u8) as char
    } else {
        ((d - 10 + 97) as u8) as char
    }
}

fn hex_value_of(c: char) -> (r: Option<u8>)
    ensures
        r matches Some(v) ==> hex_value(c) == Some(v as nat),
        r is None ==> hex_value(c) is None,
{
    if '0' <= c && c <= '9' {
        Some(((c as u32) - 48) as u8)
    } else if 'a' <= c && c <= 'f' {
        Some(((c as u32) - 87) as u8)
    } else if 'A' <= c && c <= 'F' {
        Some(((c as u32) - 55) as u8)
    } else {
        None
    }
}

/// Encode bytes as lowercase hex, two characters per byte.
pub fn hex_encode(data: &[u8]) -> (s: String)
    ensures
        s@ == hex_of(data@),
{
    let mut v: Vec<char> = Vec::new();
    let mut i: usize = 0;
    while i < data.len()
        invariant
            i <= data@.len(),
            v@ == hex_of(data@.take(i as int)),
        decreases data@.len() - i,
    {
        let b = data[i];
        v.push(hex_digit_char(b / 16));
        v.push(hex_digit_char(b % 16));
        assert(data@.take(i + 1).drop_last() =~= data@.take(i as int));
        i = i + 1;
        assert(v@ =~= hex_of(data@.take(i as int)));
    }
    assert(data@.take(data@.len() as int) =~= data@);
    string_of(v.as_slice())
}

/// Value of one two-character hex pair (`u8::from_str_radix(pair, 16)`,
/// which also takes a leading `+`).
pub open spec fn pair_value(c: char, d: char) -> Option<u8> {
    if c == '+' {
        match hex_value(d) {
            Some(b) => Some(b as u8),
            None => None,
        }
    } else {
        match (hex_value(c), hex_value(d)) {
            (Some(hi), Some(lo)) => Some((hi * 16 + lo) as u8),
            _ => None,
        }
    }
}

/// Number of UTF-8 bytes of a character.
pub open spec fn utf8_width(c: char) -> nat {
    if (c as u32) < 0x80 { 1 } else if (c as u32) < 0x800 { 2 } else if (c as u32) < 0x10000 { 3 } else { 4 }
}

/// Number of UTF-8 bytes of a character sequence (`str::len`).
pub open spec fn utf8_len(s: Seq<char>) -> nat
    decreases s.len(),
{
    if s.len() == 0 { 0 } else { utf8_len(s.drop_last()) + utf8_width(s.last()) }
}

/// Outcome of splitting a text into two-byte pairs and decoding each, the
/// way `decode_hex` slices `&s[i..i + 2]` for every even byte offset `i`.
pub enum HexPairs {
    /// Every pair decoded.
    Bytes(Seq<u8>),
    /// The first pair that is not a hex byte, as text.
    BadPair(Seq<char>),
    /// A pair boundary falls inside a multi-byte character (the byte slice
    /// would not be a valid `str`).
    Split,
}

/// Walk the pairs of `t` from the front (stopping at the first bad pair).
pub open spec fn hex_pairs(t: Seq<char>) -> HexPairs
    decreases t.len(),
{
    if t.len() == 0 {
        HexPairs::Bytes(Seq::empty())
    } else if utf8_width(t[0]) == 1 {
        if t.len() < 2 || utf8_width(t[1]) != 1 {
            HexPairs::Split
        } else {
            match pair_value(t[0], t[1]) {
                Some(b) => match hex_pairs(t.skip(2)) {
                    HexPairs::Bytes(rest) => HexPairs::Bytes(seq![b] + rest),
                    other => other,
                },
                None => HexPairs::BadPair(t.take(2)),
            }
        }
    } else if utf8_width(t[0]) == 2 {
        HexPairs::BadPair(t.take(1))
    } else {
        HexPairs::Split
    }
}

/// Decoding `s` as hex would slice inside a multi-byte character.
pub open spec fn hex_splits_char(s: Seq<char>) -> bool {
    utf8_len(trim(s)) % 2 == 0 && hex_pairs(trim(s)) is Split
}

/// The bytes `s` decodes to as lowercase/uppercase hex (after trimming),
/// or `None` when it is not hex.
pub open spec fn hex_decoded(s: Seq<char>) -> Option<Seq<u8>> {
    if utf8_len(trim(s)) % 2 != 0 {
        None
    } else {
        match hex_pairs(trim(s)) {
            HexPairs::Bytes(b) => Some(b),
            _ => None,
        }
    }
}

fn utf8_width_of(c: char) -> (w: usize)
    ensures
        w == utf8_width(c),
{
    if (c as u32) < 0x80 { 1 } else if (c as u32) < 0x800 { 2 } else if (c as u32) < 0x10000 { 3 } else { 4 }
}

/// Whether the UTF-8 encoding of `v` has an even number of bytes.
pub fn utf8_len_is_even(v: &[char]) -> (b: bool)
    ensures
        b == (utf8_len(v@) % 2 == 0),
{
    let mut odd = false;
    let mut i: usize = 0;
    while i < v.len()
        invariant
            i <= v@.len(),
            odd == (utf8_len(v@.take(i as int)) % 2 == 1),
        decreases v@.len() - i,
    {
        assert(v@.take(i + 1).drop_last() =~= v@.take(i as int));
        if utf8_width_of(v[i]) % 2 == 1 {
            odd = !odd;
        }
        i = i + 1;
    }
    assert(v@.take(v@.len() as int) =~= v@);
    !odd
}

/// Result of the pair walk, computed.
pub enum PairWalk {
    Bytes(Vec<u8>),
    BadPair(Vec<char>),
}

/// Walk the two-character pairs of `t` (see [`hex_pairs`]).
pub fn walk_hex_pairs(t: &[char]) -> (r: PairWalk)
    requires
        !(hex_pairs(t@) is Split),
    ensures
        match r {
            PairWalk::Bytes(b) => hex_pairs(t@) == HexPairs::Bytes(b@),
            PairWalk::BadPair(p) => hex_pairs(t@) == HexPairs::BadPair(p@),
        },
{
    let mut out: Vec<u8> = Vec::new();
    let mut i: usize = 0;
    assert(t@.skip(0) =~= t@);
    proof {
        match hex_pairs(t@) {
            HexPairs::Bytes(r) => { assert(out@ + r =~= r); }
            _ => {}
        }
    }
    while i < t.len()
        invariant
            i <= t@.len(),
            !(hex_pairs(t@) is Split),
            hex_pairs(t@) == (match hex_pairs(t@.skip(i as int)) {
                HexPairs::Bytes(rest) => HexPairs::Bytes(out@ + rest),
                other => other,
            }),
        decreases t@.len() - i,
    {
        let ghost rest = t@.skip(i as int);
        let c = t[i];
        assert(rest[0] == c);
        if utf8_width_of(c) == 1 {
            assert(rest.len() >= 2 && utf8_width(rest[1]) == 1) by {
                if rest.len() < 2 || utf8_width(rest[1]) != 1 {
                    assert(hex_pairs(rest) is Split);
                }
            }
            let d = t[i + 1];
            assert(rest[1] == d);
            let hi = hex_value_of(c);
            let lo = hex_value_of(d);
            let v: Option<u8> = if c == '+' {
                lo
            } else {
                match (hi, lo) {
                    (Some(h), Some(l)) => Some(h * 16 + l),
                    _ => None,
                }
            };
            assert(v == pair_value(c, d) || (v is None && pair_value(c, d) is None)) by {
                if c == '+' {
                } else {
                    if hi is Some && lo is Some {
                        assert(hex_value(c) is Some);
                    }
                }
            };
            match v {
                Some(b) => {
                    assert(pair_value(c, d) == Some(b));
                    assert(rest.skip(2) =~= t@.skip(i + 2));
                    let ghost before = out@;
                    out.push(b);
                    proof {
                        match hex_pairs(t@.skip(i + 2)) {
                            HexPairs::Bytes(r2) => {
                                assert(before + (seq![b] + r2) =~= out@ + r2);
                            }
                            _ => {}
                        }
                    }
                    i = i + 2;
                },
                None => {
                    assert(rest.take(2) =~= seq![c, d]);
                    let mut p: Vec<char> = Vec::new();
                    p.push(c);
                    p.push(d);
                    assert(p@ =~= rest.take(2));
                    return PairWalk::BadPair(p);
                },
            }
        } else {
            assert(utf8_width(c) == 2) by {
                if utf8_width(c) != 2 {
                    assert(hex_pairs(rest) is Split);
                }
            }
            let mut p: Vec<char> = Vec::new();
            p.push(c);
            assert(p@ =~= rest.take(1));
            return PairWalk::BadPair(p);
        }
    }
    assert(t@.skip(i as int) =~= Seq::<char>::empty());
    assert(out@ + Seq::<u8>::empty() =~= out@);
    PairWalk::Bytes(out)
}


} // verus!

verus! {

fn pairs_split(t: &[char]) -> (b: bool)
    ensures
        b == hex_pairs(t@) is Split,
{
    let mut i: usize = 0;
    assert(t@.skip(0) =~= t@);
    while i < t.len()
        invariant
            i <= t@.len(),
            (hex_pairs(t@) is Split) == (hex_pairs(t@.skip(i as int)) is Split),
        decreases t@.len() - i,
    {
        let ghost rest = t@.skip(i as int);
        let c = t[i];
        assert(rest[0] == c);
        let w = utf8_width_of(c);
        if w == 1 {
            if i + 1 >= t.len() {
                return true;
            }
            let d = t[i + 1];
            assert(rest[1] == d);
            if utf8_width_of(d) != 1 {
                return true;
            }
            let lo = hex_value_of(d);
            let ok = if c == '+' {
                lo.is_some()
            } else {
                hex_value_of(c).is_some() && lo.is_some()
            };
            assert(ok == pair_value(c, d) is Some);
            if !ok {
                return false;
            }
            assert(rest.skip(2) =~= t@.skip(i + 2));
            i = i + 2;
        } else if w == 2 {
            return false;
        } else {
            return true;
        }
    }
    assert(t@.skip(i as int) =~= Seq::<char>::empty());
    false
}

/// Whether decoding `s` as hex would slice inside a multi-byte character
/// (an input the two-byte slicing cannot take).
pub fn hex_splits(s: &str) -> (b: bool)
    ensures
        b == hex_splits_char(s@),
{
    let t = trim_chars(chars_of(s).as_slice());
    utf8_len_is_even(t.as_slice()) && pairs_split(t.as_slice())
}

/// Decode a hex string into bytes (surrounding whitespace ignored);
/// `None` unless every two-character pair is a hex byte.
pub fn hex_decode(s: &str) -> (r: Option<Vec<u8>>)
    requires
        !hex_splits_char(s@),
    ensures
        r matches Some(b) ==> hex_decoded(s@) == Some(b@),
        r is None ==> hex_decoded(s@) is None,
{
    let chars = chars_of(s);
    let t = trim_chars(chars.as_slice());
    if !utf8_len_is_even(t.as_slice()) {
        return None;
    }
    match walk_hex_pairs(t.as_slice()) {
        PairWalk::Bytes(b) => Some(b),
        PairWalk::BadPair(_) => None,
    }
}

// ---------------------------------------------------------------------------
// Hex round trip
// ---------------------------------------------------------------------------

proof fn lemma_hex_digit_value(d: nat)
    requires
        d < 16,
    ensures
        hex_value(hex_digit(d)) == Some(d),
        utf8_width(hex_digit(d)) == 1,
        hex_digit(d) != '+',
        !crate::text::is_ws(hex_digit(d)),
{
}

proof fn lemma_hex_of_cons(x: u8, rest: Seq<u8>)
    ensures
        hex_of(seq![x] + rest) == byte_hex(x) + hex_of(rest),
    decreases rest.len(),
{
    if rest.len() == 0 {
        assert(seq![x] + rest =~= seq![x]);
        assert(seq![x].drop_last() =~= Seq::<u8>::empty());
        assert(hex_of(Seq::<u8>::empty()) =~= Seq::<char>::empty());
        assert(seq![x].last() == x);
        assert(hex_of(seq![x]) == hex_of(seq![x].drop_last()) + byte_hex(seq![x].last()));
        assert(hex_of(seq![x]) =~= byte_hex(x));
        assert(hex_of(rest) =~= Seq::<char>::empty());
    } else {
        lemma_hex_of_cons(x, rest.drop_last());
        assert((seq![x] + rest).drop_last() =~= seq![x] + rest.drop_last());
        assert(byte_hex(x) + hex_of(rest.drop_last()) + byte_hex(rest.last()) =~= byte_hex(x) + (
        hex_of(rest.drop_last()) + byte_hex(rest.last())));
    }
}

proof fn lemma_hex_of_chars(b: Seq<u8>)
    ensures
        hex_of(b).len() == 2 * b.len(),
        utf8_len(hex_of(b)) == 2 * b.len(),
        forall|i: int| 0 <= i < hex_of(b).len() ==> utf8_width(#[trigger] hex_of(b)[i]) == 1
            && !crate::text::is_ws(hex_of(b)[i]),
    decreases b.len(),
{
    if b.len() > 0 {
        lemma_hex_of_chars(b.drop_last());
        lemma_hex_digit_value(b.last() as nat / 16);
        lemma_hex_digit_value(b.last() as nat % 16);
        let h = hex_of(b);
        let h0 = hex_of(b.drop_last());
        assert(h == h0 + byte_hex(b.last()));
        assert(h.drop_last() =~= h0 + seq![hex_digit(b.last() as nat / 16)]);
        assert(h.drop_last().drop_last() =~= h0);
        assert(utf8_len(h) == utf8_len(h.drop_last()) + 1);
        assert(utf8_len(h.drop_last()) == utf8_len(h0) + 1);
    } else {
        assert(hex_of(b) =~= Seq::<char>::empty());
    }
}

proof fn lemma_hex_pairs_of(b: Seq<u8>)
    ensures
        hex_pairs(hex_of(b)) == HexPairs::Bytes(b),
    decreases b.len(),
{
    if b.len() > 0 {
        let x = b[0];
        let rest = b.drop_first();
        assert(b =~= seq![x] + rest);
        lemma_hex_of_cons(x, rest);
        lemma_hex_digit_value(x as nat / 16);
        lemma_hex_digit_value(x as nat % 16);
        let t = hex_of(b);
        assert(t == byte_hex(x) + hex_of(rest));
        assert(t.len() >= 2);
        assert(t[0] == hex_digit(x as nat / 16));
        assert(t[1] == hex_digit(x as nat % 16));
        assert(t.skip(2) =~= hex_of(rest));
        assert((x as nat / 16) * 16 + x as nat % 16 == x as nat);
        assert(((x as nat / 16) * 16 + x as nat % 16) as u8 == x);
        assert(pair_value(t[0], t[1]) == Some(x));
        lemma_hex_pairs_of(rest);
        assert(hex_pairs(t) == (match hex_pairs(t.skip(2)) {
            HexPairs::Bytes(r) => HexPairs::Bytes(seq![x] + r),
            other => other,
        }));
        assert(seq![x] + rest =~= b);
    } else {
        assert(hex_of(b) =~= Seq::<char>::empty());
        assert(hex_pairs(Seq::<char>::empty()) == HexPairs::Bytes(Seq::<u8>::empty()));
        assert(b =~= Seq::<u8>::empty());
    }
}

/// Hex decoding undoes hex encoding: the lowercase hex of any bytes decodes
/// back to exactly those bytes (and is always safe to decode).
pub proof fn law_hex_roundtrip(b: Seq<u8>)
    ensures
        !hex_splits_char(hex_of(b)),
        hex_decoded(hex_of(b)) == Some(b),
{
    lemma_hex_of_chars(b);
    lemma_hex_pairs_of(b);
    let h = hex_of(b);
    crate::text::lemma_trim_of_unpadded(h);
    assert(trim(h) == h);
    assert((2 * b.len()) % 2 == 0) by (nonlinear_arith);
}

proof fn lemma_hex_pairs_bytes(t: Seq<char>)
    ensures
        hex_pairs(t) matches HexPairs::Bytes(b) ==> b.len() * 2 == t.len() && forall|i: int|
            0 <= i < t.len() ==> utf8_width(#[trigger] t[i]) == 1,
    decreases t.len(),
{
    if t.len() > 0 && utf8_width(t[0]) == 1 && t.len() >= 2 && utf8_width(t[1]) == 1 {
        lemma_hex_pairs_bytes(t.skip(2));
        if let HexPairs::Bytes(b) = hex_pairs(t) {
            assert forall|i: int| 0 <= i < t.len() implies utf8_width(#[trigger] t[i]) == 1 by {
                if i >= 2 {
                    assert(t[i] == t.skip(2)[i - 2]);
                }
            }
        }
    }
}

proof fn lemma_utf8_len_narrow(t: Seq<char>)
    requires
        forall|i: int| 0 <= i < t.len() ==> utf8_width(#[trigger] t[i]) == 1,
    ensures
        utf8_len(t) == t.len(),
    decreases t.len(),
{
    if t.len() > 0 {
        assert forall|i: int| 0 <= i < t.drop_last().len() implies utf8_width(
            #[trigger] t.drop_last()[i],
        ) == 1 by {
            assert(t.drop_last()[i] == t[i]);
        }
        lemma_utf8_len_narrow(t.drop_last());
        assert(utf8_width(t[t.len() - 1]) == 1);
    }
}

/// A hex text that decodes has an even number of bytes once trimmed, and
/// decodes to half that many bytes.
pub proof fn law_hex_decoded_length(s: Seq<char>)
    ensures
        hex_decoded(s) matches Some(v) ==> utf8_len(trim(s)) % 2 == 0 && v.len() * 2 == utf8_len(
            trim(s),
        ),
{
    let t = trim(s);
    lemma_hex_pairs_bytes(t);
    if let HexPairs::Bytes(b) = hex_pairs(t) {
        lemma_utf8_len_narrow(t);
    }
}

// ---------------------------------------------------------------------------
// Base64 (standard alphabet, padded)
// ---------------------------------------------------------------------------

/// Character for a 6-bit index in the standard base64 alphabet.
pub open spec fn b64_char(i: nat) -> char {
    if i < 26 {
        (i + 65) as char
    } else if i < 52 {
        (i - 26 + 97) as char
    } else if i < 62 {
        (i - 52 + 48) as char
    } else if i == 62 {
        '+'
    } else {
        '/'
    }
}

/// Base64 of one chunk of one to three bytes, padded to four characters.
pub open spec fn b64_chunk(c: Seq<u8>) -> Seq<char> {
    let b0 = c[0] as nat;
    let b1 = if c.len() > 1 { c[1] as nat } else { 0 };
    let b2 = if c.len() > 2 { c[2] as nat } else { 0 };
    seq![
        b64_char(b0 / 4),
        b64_char((b0 % 4) * 16 + b1 / 16),
        if c.len() > 1 { b64_char((b1 % 16) * 4 + b2 / 64) } else { '=' },
        if c.len() > 2 { b64_char(b2 % 64) } else { '=' },
    ]
}

/// Standard padded base64 of a byte sequence.
pub open spec fn base64_of(s: Seq<u8>) -> Seq<char>
    decreases s.len(),
{
    if s.len() == 0 {
        Seq::empty()
    } else if s.len() <= 3 {
        b64_chunk(s)
    } else {
        b64_chunk(s.take(3)) + base64_of(s.skip(3))
    }
}

fn b64_char_of(i: u8) -> (c: char)
    requires
        i < 64,
    ensures
        c == b64_char(i as nat),
{
    if i < 26 {
        ((i + 65) as u8) as char
    } else if i < 52 {
        ((i - 26 + 97) as u8) as char
    } else if i < 62 {
        ((i - 52 + 48) as u8) as char
    } else if i == 62 {
        '+'
    } else {
        '/'
    }
}

/// Encode bytes as standard, padded base64.
pub fn base64_encode(input: &[u8]) -> (out: String)
    ensures
        out@ == base64_of(input@),
{
    let mut v: Vec<char> = Vec::new();
    let mut i: usize = 0;
    let n = input.len();
    assert(input@.skip(0) =~= input@);
    while i < n
        invariant
            n == input@.len(),
            i <= n,
            i % 3 == 0 || i == n,
            v@ + base64_of(input@.skip(i as int)) == base64_of(input@),
        decreases n - i,
    {
        let ghost rest = input@.skip(i as int);
        let b0 = input[i];
        let has1 = i + 1 < n;
        let has2 = i + 2 < n;
        let b1: u8 = if has1 { input[i + 1] } else { 0 };
        let b2: u8 = if has2 { input[i + 2] } else { 0 };
        let ghost chunk = if rest.len() <= 3 { rest } else { rest.take(3) };
        assert(chunk[0] == b0);
        assert(has1 ==> chunk[1] == b1);
        assert(has2 ==> chunk[2] == b2);
        assert(chunk.len() > 1 <==> has1);
        assert(chunk.len() > 2 <==> has2);
        v.push(b64_char_of(b0 / 4));
        v.push(b64_char_of((b0 % 4) * 16 + b1 / 16));
        if has1 {
            v.push(b64_char_of((b1 % 16) * 4 + b2 / 64));
        } else {
            v.push('=');
        }
        if has2 {
            v.push(b64_char_of(b2 % 64));
        } else {
            v.push('=');
        }
        let ghost before = v@.take(v@.len() - 4);
        assert(v@ =~= before + b64_chunk(chunk));
        if n - i <= 3 {
            assert(base64_of(rest) == b64_chunk(rest));
            i = n;
            assert(input@.skip(i as int) =~= Seq::<u8>::empty());
            assert(v@ + base64_of(input@.skip(i as int)) =~= v@);
        } else {
            assert(rest.skip(3) =~= input@.skip(i + 3));
            assert(base64_of(rest) == b64_chunk(rest.take(3)) + base64_of(rest.skip(3)));
            i = i + 3;
            assert(v@ + base64_of(input@.skip(i as int)) =~= before + base64_of(rest));
        }
    }
    assert(input@.skip(n as int) =~= Seq::<u8>::empty());
    assert(v@ + Seq::<char>::empty() =~= v@);
    string_of(v.as_slice())
}

} // verus!

verus! {

// ---------------------------------------------------------------------------
// Base64url (unpadded, as in JWTs)
// ---------------------------------------------------------------------------

/// Value of one base64url character.
pub open spec fn url_value(c: char) -> Option<nat> {
    if 'A' <= c && c <= 'Z' {
        Some((c as nat - 65) as nat)
    } else if 'a' <= c && c <= 'z' {
        Some((c as nat - 97 + 26) as nat)
    } else if '0' <= c && c <= '9' {
        Some((c as nat - 48 + 52) as nat)
    } else if c == '-' {
        Some(62)
    } else if c == '_' {
        Some(63)
    } else {
        None
    }
}

pub open spec fn uv(c: char) -> nat {
    match url_value(c) {
        Some(v) => v,
        None => 0,
    }
}

/// Bytes carried by one chunk of one to four base64url characters.
pub open spec fn url_chunk(c: Seq<char>) -> Seq<u8> {
    let v0 = uv(c[0]);
    let v1 = if c.len() > 1 { uv(c[1]) } else { 0 };
    let v2 = if c.len() > 2 { uv(c[2]) } else { 0 };
    let v3 = if c.len() > 3 { uv(c[3]) } else { 0 };
    let b0 = (v0 * 4 + v1 / 16) as u8;
    let b1 = ((v1 % 16) * 16 + v2 / 4) as u8;
    let b2 = ((v2 % 4) * 64 + v3) as u8;
    if c.len() <= 2 {
        seq![b0]
    } else if c.len() == 3 {
        seq![b0, b1]
    } else {
        seq![b0, b1, b2]
    }
}

/// Bytes carried by a base64url text, four characters at a time.
pub open spec fn url_bytes(t: Seq<char>) -> Seq<u8>
    decreases t.len(),
{
    if t.len() == 0 {
        Seq::empty()
    } else if t.len() <= 4 {
        url_chunk(t)
    } else {
        url_chunk(t.take(4)) + url_bytes(t.skip(4))
    }
}

/// What unpadded base64url decoding of `s` yields (trailing `=` ignored).
pub open spec fn base64url_decoded(s: Seq<char>) -> Option<Seq<u8>> {
    let t = strip_end(s, '=');
    if exists|i: int| 0 <= i < t.len() && url_value(#[trigger] t[i]) is None {
        None
    } else if t.len() % 4 == 1 {
        None
    } else {
        Some(url_bytes(t))
    }
}

fn url_value_of(c: char) -> (r: Option<u8>)
    ensures
        r matches Some(v) ==> url_value(c) == Some(v as nat) && v < 64,
        r is None ==> url_value(c) is None,
{
    if 'A' <= c && c <= 'Z' {
        Some(((c as u32) - 65) as u8)
    } else if 'a' <= c && c <= 'z' {
        Some(((c as u32) - 97 + 26) as u8)
    } else if '0' <= c && c <= '9' {
        Some(((c as u32) - 48 + 52) as u8)
    } else if c == '-' {
        Some(62)
    } else if c == '_' {
        Some(63)
    } else {
        None
    }
}

/// Decode unpadded base64url. Returns `None` on any invalid input.
#[verifier::rlimit(40)]
pub fn base64url_decode(s: &str) -> (r: Option<Vec<u8>>)
    ensures
        r matches Some(b) ==> base64url_decoded(s@) == Some(b@),
        r is None ==> base64url_decoded(s@) is None,
{
    let chars = chars_of(s);
    let t = strip_end_chars(chars.as_slice(), '=');
    let n = t.len();
    let mut vals: Vec<u8> = Vec::new();
    let mut k: usize = 0;
    while k < n
        invariant
            n == t@.len(),
            t@ == strip_end(s@, '='),
            k <= n,
            vals@.len() == k,
            forall|m: int| 0 <= m < k ==> url_value(t@[m]) == Some(vals@[m] as nat) && vals@[m] < 64,
        decreases n - k,
    {
        match url_value_of(t[k]) {
            Some(v) => vals.push(v),
            None => {
                assert(url_value(strip_end(s@, '=')[k as int]) is None);
                return None;
            },
        }
        k = k + 1;
    }
    if n % 4 == 1 {
        return None;
    }
    let mut out: Vec<u8> = Vec::new();
    let mut i: usize = 0;
    assert(t@.skip(0) =~= t@);
    while i < n
        invariant
            n == t@.len(),
            t@ == strip_end(s@, '='),
            n % 4 != 1,
            i <= n,
            i % 4 == 0 || i == n,
            vals@.len() == n,
            forall|m: int| 0 <= m < n ==> url_value(t@[m]) == Some(vals@[m] as nat) && vals@[m] < 64,
            out@ + url_bytes(t@.skip(i as int)) == url_bytes(t@),
        decreases n - i,
    {
        let ghost rest = t@.skip(i as int);
        let len = if n - i < 4 { n - i } else { 4 };
        let v0 = vals[i];
        let v1: u8 = if len > 1 { vals[i + 1] } else { 0 };
        let v2: u8 = if len > 2 { vals[i + 2] } else { 0 };
        let v3: u8 = if len > 3 { vals[i + 3] } else { 0 };
        let ghost chunk = if rest.len() <= 4 { rest } else { rest.take(4) };
        assert(chunk.len() == len);
        assert(uv(chunk[0]) == v0);
        assert(len > 1 ==> uv(chunk[1]) == v1);
        assert(len > 2 ==> uv(chunk[2]) == v2);
        assert(len > 3 ==> uv(chunk[3]) == v3);
        let b0: u8 = v0 * 4 + v1 / 16;
        let b1: u8 = (v1 % 16) * 16 + v2 / 4;
        let b2: u8 = (v2 % 4) * 64 + v3;
        let ghost before = out@;
        out.push(b0);
        if len > 2 {
            out.push(b1);
        }
        if len > 3 {
            out.push(b2);
        }
        assert(out@ =~= before + url_chunk(chunk));
        if n - i <= 4 {
            i = n;
            assert(t@.skip(i as int) =~= Seq::<char>::empty());
            assert(out@ + url_bytes(t@.skip(i as int)) =~= out@);
        } else {
            assert(rest.skip(4) =~= t@.skip(i + 4));
            i = i + 4;
            assert(out@ + url_bytes(t@.skip(i as int)) =~= before + url_bytes(rest));
        }
    }
    assert(t@.skip(n as int) =~= Seq::<char>::empty());
    assert(out@ + Seq::<u8>::empty() =~= out@);
    Some(out)
}

// ---------------------------------------------------------------------------
// Laws of the base64 codecs
// ---------------------------------------------------------------------------

/// A character of the standard base64 alphabet (`A-Z a-z 0-9 + /`).
pub open spec fn b64_alphabet(c: char) -> bool {
    ('A' <= c && c <= 'Z') || ('a' <= c && c <= 'z') || ('0' <= c && c <= '9') || c == '+' || c
        == '/'
}

/// Number of `=` characters padding the base64 of `n` bytes.
pub open spec fn pad_len(n: nat) -> nat {
    ((3 - n % 3) % 3) as nat
}

/// The URL-safe form of a base64 character: `-` for `+`, `_` for `/`.
pub open spec fn url_safe_char(c: char) -> char {
    if c == '+' {
        '-'
    } else if c == '/' {
        '_'
    } else {
        c
    }
}

/// Base64 text rewritten to the URL-safe alphabet.
pub open spec fn url_safe(s: Seq<char>) -> Seq<char> {
    s.map_values(|c: char| url_safe_char(c))
}

/// `k` padding characters.
pub open spec fn pads(k: nat) -> Seq<char> {
    Seq::new(k, |i: int| '=')
}

/// URL-safe base64 of `s` without its padding.
spec fn url_unpadded(s: Seq<u8>) -> Seq<char>
    decreases s.len(),
{
    if s.len() == 0 {
        Seq::empty()
    } else if s.len() <= 3 {
        url_safe(b64_chunk(s)).take(s.len() + 1int)
    } else {
        url_safe(b64_chunk(s.take(3))) + url_unpadded(s.skip(3))
    }
}

proof fn lemma_b64_char(i: nat)
    requires
        i < 64,
    ensures
        url_value(url_safe_char(b64_char(i))) == Some(i),
        b64_alphabet(b64_char(i)),
        b64_char(i) != '=',
        url_safe_char(b64_char(i)) != '=',
{
}

proof fn lemma_chunk(c: Seq<u8>)
    requires
        1 <= c.len() <= 3,
    ensures
        b64_chunk(c).len() == 4,
        forall|k: int| 0 <= k < c.len() + 1 ==> b64_alphabet(#[trigger] b64_chunk(c)[k]),
        forall|k: int| c.len() + 1 <= k < 4 ==> #[trigger] b64_chunk(c)[k] == '=',
        forall|k: int| 0 <= k < c.len() + 1 ==> url_value(#[trigger] url_safe(b64_chunk(c))[k]) is Some
            && url_safe(b64_chunk(c))[k] != '=',
        forall|k: int| c.len() + 1 <= k < 4 ==> #[trigger] url_safe(b64_chunk(c))[k] == '=',
        url_chunk(url_safe(b64_chunk(c)).take(c.len() + 1int)) == c,
{
    let b0 = c[0] as nat;
    let b1: nat = if c.len() > 1 { c[1] as nat } else { 0 };
    let b2: nat = if c.len() > 2 { c[2] as nat } else { 0 };
    let i0 = b0 / 4;
    let i1 = (b0 % 4) * 16 + b1 / 16;
    let i2 = (b1 % 16) * 4 + b2 / 64;
    let i3 = b2 % 64;
    assert(i0 < 64 && i1 < 64 && i2 < 64 && i3 < 64);
    lemma_b64_char(i0);
    lemma_b64_char(i1);
    lemma_b64_char(i2);
    lemma_b64_char(i3);
    let e = b64_chunk(c);
    let u = url_safe(e);
    let t = u.take(c.len() + 1int);
    assert(e[0] == b64_char(i0) && e[1] == b64_char(i1));
    assert(c.len() > 1 ==> e[2] == b64_char(i2));
    assert(c.len() > 2 ==> e[3] == b64_char(i3));
    assert(uv(t[0]) == i0);
    assert(uv(t[1]) == i1);
    assert(c.len() > 1 ==> uv(t[2]) == i2);
    assert(c.len() > 2 ==> uv(t[3]) == i3);
    assert(i0 * 4 + i1 / 16 == b0);
    assert(c.len() > 1 ==> (i1 % 16) * 16 + i2 / 4 == b1);
    assert(c.len() > 2 ==> (i2 % 4) * 64 + i3 == b2);
    assert(url_chunk(t) =~= c);
}

proof fn lemma_unpadded_len(s: Seq<u8>)
    ensures
        s.len() == 0 ==> url_unpadded(s).len() == 0,
        1 <= s.len() <= 3 ==> url_unpadded(s).len() == s.len() + 1,
        s.len() > 3 ==> url_unpadded(s).len() == 4 + url_unpadded(s.skip(3)).len(),
        s.len() > 0 ==> url_unpadded(s).len() >= 2,
        url_unpadded(s).len() % 4 != 1,
    decreases s.len(),
{
    if s.len() == 0 {
    } else if s.len() <= 3 {
        lemma_chunk(s);
    } else {
        lemma_chunk(s.take(3));
        lemma_unpadded_len(s.skip(3));
    }
}

proof fn lemma_unpadded_chars(s: Seq<u8>)
    ensures
        forall|k: int| 0 <= k < url_unpadded(s).len() ==> url_value(#[trigger] url_unpadded(s)[k]) is Some
            && url_unpadded(s)[k] != '=',
    decreases s.len(),
{
    let u = url_unpadded(s);
    if s.len() == 0 {
    } else if s.len() <= 3 {
        lemma_chunk(s);
    } else {
        let c = s.take(3);
        let r = s.skip(3);
        lemma_chunk(c);
        lemma_unpadded_chars(r);
        let w = url_safe(b64_chunk(c));
        let ur = url_unpadded(r);
        assert(u == w + ur);
        assert forall|k: int| 0 <= k < u.len() implies url_value(#[trigger] u[k]) is Some && u[k] != '=' by {
            if k < 4 {
                assert(u[k] == w[k]);
            } else {
                assert(u[k] == ur[k - 4]);
            }
        }
    }
}

proof fn lemma_unpadded_pads(s: Seq<u8>)
    ensures
        url_safe(base64_of(s)) == url_unpadded(s) + pads(pad_len(s.len())),
    decreases s.len(),
{
    let u = url_unpadded(s);
    if s.len() == 0 {
        assert(base64_of(s) =~= Seq::<char>::empty());
        assert(url_safe(base64_of(s)) =~= u + pads(pad_len(s.len())));
    } else if s.len() <= 3 {
        lemma_chunk(s);
        let w = url_safe(b64_chunk(s));
        assert(w =~= u + pads(pad_len(s.len())));
    } else {
        let c = s.take(3);
        let r = s.skip(3);
        lemma_chunk(c);
        lemma_unpadded_pads(r);
        let w = url_safe(b64_chunk(c));
        assert(url_safe(base64_of(s)) =~= w + url_safe(base64_of(r)));
        assert(pad_len(s.len()) == pad_len(r.len()));
        assert(url_safe(base64_of(s)) =~= u + pads(pad_len(s.len())));
    }
}

proof fn lemma_unpadded_bytes(s: Seq<u8>)
    ensures
        url_bytes(url_unpadded(s)) == s,
    decreases s.len(),
{
    let u = url_unpadded(s);
    if s.len() == 0 {
        assert(url_bytes(u) =~= s);
    } else if s.len() <= 3 {
        lemma_chunk(s);
        lemma_unpadded_len(s);
        assert(url_bytes(u) == url_chunk(u));
    } else {
        let c = s.take(3);
        let r = s.skip(3);
        lemma_chunk(c);
        lemma_unpadded_len(s);
        lemma_unpadded_len(r);
        lemma_unpadded_bytes(r);
        let w = url_safe(b64_chunk(c));
        let ur = url_unpadded(r);
        assert(w.take(4) =~= w);
        assert(u == w + ur);
        assert(u.take(4) =~= w);
        assert(u.skip(4) =~= ur);
        assert(url_bytes(u) == url_chunk(u.take(4)) + url_bytes(u.skip(4)));
        assert(c + r =~= s);
    }
}

proof fn lemma_strip_pads(u: Seq<char>, k: nat)
    requires
        forall|i: int| 0 <= i < u.len() ==> #[trigger] u[i] != '=',
    ensures
        strip_end(u + pads(k), '=') == u,
    decreases k,
{
    if k == 0 {
        assert(u + pads(k) =~= u);
        if u.len() > 0 {
            assert(u.last() == u[u.len() - 1]);
        }
    } else {
        lemma_strip_pads(u, (k - 1) as nat);
        assert((u + pads(k)).drop_last() =~= u + pads((k - 1) as nat));
        assert((u + pads(k)).last() == '=');
    }
}

/// Base64 output has four characters for every started group of three
/// bytes; it ends with exactly `(3 - n % 3) % 3` padding characters and
/// every other character is of the base64 alphabet.
pub proof fn law_base64_shape(s: Seq<u8>)
    ensures
        base64_of(s).len() == 4 * ((s.len() + 2) / 3),
        forall|i: int| 0 <= i < base64_of(s).len() - pad_len(s.len()) ==> b64_alphabet(
            #[trigger] base64_of(s)[i],
        ),
        forall|i: int| base64_of(s).len() - pad_len(s.len()) <= i < base64_of(s).len() ==> #[trigger] base64_of(s)[i]
            == '=',
    decreases s.len(),
{
    let e = base64_of(s);
    if s.len() == 0 {
    } else if s.len() <= 3 {
        lemma_chunk(s);
    } else {
        let c = s.take(3);
        let r = s.skip(3);
        lemma_chunk(c);
        law_base64_shape(r);
        let w = b64_chunk(c);
        let er = base64_of(r);
        assert(e == w + er);
        assert((s.len() + 2) / 3 == (r.len() + 2) / 3 + 1);
        assert(pad_len(s.len()) == pad_len(r.len()));
        assert forall|i: int| 0 <= i < e.len() - pad_len(s.len()) implies b64_alphabet(#[trigger] e[i]) by {
            if i < 4 {
                assert(e[i] == w[i]);
            } else {
                assert(e[i] == er[i - 4]);
            }
        }
        assert forall|i: int| e.len() - pad_len(s.len()) <= i < e.len() implies #[trigger] e[i] == '=' by {
            assert(e[i] == er[i - 4]);
        }
    }
}

/// Decoding undoes URL-safe base64 encoding, padded or not: the standard
/// base64 of any bytes, rewritten to the URL-safe alphabet, decodes back
/// to exactly those bytes, with its `=` padding and without.
pub proof fn law_base64url_roundtrip(b: Seq<u8>)
    ensures
        base64url_decoded(url_safe(base64_of(b))) == Some(b),
        base64url_decoded(strip_end(url_safe(base64_of(b)), '=')) == Some(b),
{
    lemma_unpadded_len(b);
    lemma_unpadded_chars(b);
    lemma_unpadded_pads(b);
    lemma_unpadded_bytes(b);
    let u = url_unpadded(b);
    lemma_strip_pads(u, pad_len(b.len()));
    lemma_strip_pads(u, 0);
    assert(u + pads(0) =~= u);
    assert(strip_end(url_safe(base64_of(b)), '=') == u);
    assert(strip_end(u, '=') == u);
}

// ---------------------------------------------------------------------------
// Percent-encoding of query values
// ---------------------------------------------------------------------------

/// RFC 3986 unreserved bytes, which stay as they are.
pub open spec fn unreserved(b: u8) -> bool {
    (65 <= b <= 90) || (97 <= b <= 122) || (48 <= b <= 57) || b == 45 || b == 95 || b == 46 || b == 126
}

/// Uppercase hex digit for `d < 16`.
pub open spec fn hex_upper(d: nat) -> char {
    if d < 10 { digit_char(d) } else { ((d - 10) + 65) as char }
}

/// Encoding of one byte: itself when unreserved, else `%XX`.
pub open spec fn pct_byte(b: u8) -> Seq<char> {
    if unreserved(b) {
        seq![b as char]
    } else {
        seq!['%', hex_upper(b as nat / 16), hex_upper(b as nat % 16)]
    }
}

/// Percent-encoding of a byte sequence.
pub open spec fn pct_of(s: Seq<u8>) -> Seq<char>
    decreases s.len(),
{
    if s.len() == 0 {
        Seq::empty()
    } else {
        pct_of(s.drop_last()) + pct_byte(s.last())
    }
}

fn hex_upper_char(d: u8) -> (c: char)
    requires
        d < 16,
    ensures
        c == hex_upper(d as nat),
{
    if d < 10 {
        ((d + 48) as u8) as char
    } else {
        ((d - 10 + 65) as u8) as char
    }
}

/// Percent-encode one query-string value (RFC 3986 unreserved set), over
/// the value's UTF-8 bytes.
pub fn encode_query_value(s: &str) -> (out: String)
    ensures
        out@ == pct_of(s.spec_bytes()),
{
    let bytes = s.as_bytes();
    let mut v: Vec<char> = Vec::new();
    let mut i: usize = 0;
    while i < bytes.len()
        invariant
            i <= bytes@.len(),
            bytes@ == s.spec_bytes(),
            v@ == pct_of(bytes@.take(i as int)),
        decreases bytes@.len() - i,
    {
        let b = bytes[i];
        assert(bytes@.take(i + 1).drop_last() =~= bytes@.take(i as int));
        if (65 <= b && b <= 90) || (97 <= b && b <= 122) || (48 <= b && b <= 57) || b == 45
            || b == 95 || b == 46 || b == 126 {
            v.push(b as char);
        } else {
            v.push('%');
            v.push(hex_upper_char(b / 16));
            v.push(hex_upper_char(b % 16));
        }
        i = i + 1;
        assert(v@ =~= pct_of(bytes@.take(i as int)));
    }
    assert(bytes@.take(bytes@.len() as int) =~= bytes@);
    string_of(v.as_slice())
}

} // verus!
