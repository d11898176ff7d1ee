//! SPI bus nets: requests on `POST /net/command` with the `spi` role.
//! Bus transactions run box-side under the physical device's shared lock,
//! so a full transfer never interleaves with a concurrent request.

use vstd::prelude::*;
use vstd::string::StringExecFns;
use crate::error::{Error, Result};
use crate::json::{
    distinct_keys, is_uint, is_uint_list, lemma_member_key, member, member_str, obj_keys,
    with_member, words_array, Json,
};
use crate::wire::{keyed, net_request, params_of, role_command, HttpRequest, Timeout};

verus! {

/// SPI bit order.
#[derive(Debug, Clone, Copy, PartialEq, Eq, Structural)]
pub enum BitOrder {
    /// Most-significant bit first.
    Msb,
    /// Least-significant bit first.
    Lsb,
}

/// Chip-select active polarity.
#[derive(Debug, Clone, Copy, PartialEq, Eq, Structural)]
pub enum CsActive {
    /// CS is active-low (typical).
    Low,
    /// CS is active-high.
    High,
}

/// Chip-select handling mode.
#[derive(Debug, Clone, Copy, PartialEq, Eq, Structural)]
pub enum CsMode {
    /// The driver asserts/deasserts CS around each transaction.
    Auto,
    /// The caller controls CS (e.g. via a GPIO net).
    Manual,
}

/// Wire encoding of a bit order.
pub open spec fn bit_order_text(b: BitOrder) -> Seq<char> {
    match b {
        BitOrder::Msb => "msb"@,
        BitOrder::Lsb => "lsb"@,
    }
}

/// Wire encoding of a CS polarity.
pub open spec fn cs_active_text(c: CsActive) -> Seq<char> {
    match c {
        CsActive::Low => "low"@,
        CsActive::High => "high"@,
    }
}

/// Wire encoding of a CS mode.
pub open spec fn cs_mode_text(c: CsMode) -> Seq<char> {
    match c {
        CsMode::Auto => "auto"@,
        CsMode::Manual => "manual"@,
    }
}

impl BitOrder {
    /// Wire encoding.
    pub fn as_str(&self) -> (s: &'static str)
        ensures
            s@ == bit_order_text(*self),
    {
        match self {
            BitOrder::Msb => "msb",
            BitOrder::Lsb => "lsb",
        }
    }
}

impl CsActive {
    /// Wire encoding.
    pub fn as_str(&self) -> (s: &'static str)
        ensures
            s@ == cs_active_text(*self),
    {
        match self {
            CsActive::Low => "low",
            CsActive::High => "high",
        }
    }
}

impl CsMode {
    /// Wire encoding.
    pub fn as_str(&self) -> (s: &'static str)
        ensures
            s@ == cs_mode_text(*self),
    {
        match self {
            CsMode::Auto => "auto",
            CsMode::Manual => "manual",
        }
    }
}

/// Configuration overrides for `configure`. `None` fields keep the net's
/// saved value; explicit fields are applied to the live driver and
/// persisted on the box.
#[derive(Debug, Clone, Copy)]
pub struct SpiConfig {
    /// SPI mode 0-3 (CPOL/CPHA).
    pub mode: Option<u8>,
    /// Bit order.
    pub bit_order: Option<BitOrder>,
    /// Clock frequency in Hz.
    pub frequency_hz: Option<u32>,
    /// Word size in bits (8, 16, or 32).
    pub word_size: Option<u8>,
    /// CS active polarity.
    pub cs_active: Option<CsActive>,
    /// CS handling mode.
    pub cs_mode: Option<CsMode>,
}

impl Default for SpiConfig {
    fn default() -> (c: Self)
        ensures
            c.mode is None && c.bit_order is None && c.frequency_hz is None && c.word_size is None
                && c.cs_active is None && c.cs_mode is None,
    {
        SpiConfig {
            mode: None,
            bit_order: None,
            frequency_hz: None,
            word_size: None,
            cs_active: None,
            cs_mode: None,
        }
    }
}

/// Result of an SPI transaction: the words clocked in, plus the word size
/// they were clocked at.
#[derive(Debug)]
pub struct SpiTransfer {
    /// Words read back (one entry per word, regardless of word size).
    pub words: Vec<u32>,
    /// Word size in bits the transaction ran at.
    pub word_size: u32,
}

/// Per-transaction options. The defaults match the CLI: fill `0xFF`, CS
/// released at the end of the transaction.
#[derive(Debug, Clone, Copy)]
pub struct SpiOptions {
    /// Fill word clocked out when reading (or padding a transfer).
    pub fill: u32,
    /// Keep CS asserted after the transaction (for multi-part transfers).
    pub keep_cs: bool,
}

impl Default for SpiOptions {
    fn default() -> (o: Self)
        ensures
            o.fill == 0xFF && !o.keep_cs,
    {
        SpiOptions { fill: 0xFF, keep_cs: false }
    }
}

/// `key`, when `present`.
pub open spec fn key_when(present: bool, key: Seq<char>) -> Set<Seq<char>> {
    if present {
        set![key]
    } else {
        Set::empty()
    }
}

/// `p` holds exactly the configuration overrides that are set.
pub open spec fn config_params(p: Json, c: SpiConfig) -> bool {
    &&& match c.mode {
        Some(m) => member(p, "mode"@) matches Some(x) && is_uint(x, m as nat),
        None => member(p, "mode"@) is None,
    }
    &&& match c.bit_order {
        Some(b) => member_str(p, "bit_order"@) == Some(bit_order_text(b)),
        None => member(p, "bit_order"@) is None,
    }
    &&& match c.frequency_hz {
        Some(f) => member(p, "frequency_hz"@) matches Some(x) && is_uint(x, f as nat),
        None => member(p, "frequency_hz"@) is None,
    }
    &&& match c.word_size {
        Some(w) => member(p, "word_size"@) matches Some(x) && is_uint(x, w as nat),
        None => member(p, "word_size"@) is None,
    }
    &&& match c.cs_active {
        Some(a) => member_str(p, "cs_active"@) == Some(cs_active_text(a)),
        None => member(p, "cs_active"@) is None,
    }
    &&& match c.cs_mode {
        Some(m) => member_str(p, "cs_mode"@) == Some(cs_mode_text(m)),
        None => member(p, "cs_mode"@) is None,
    }
    &&& distinct_keys(p)
    &&& obj_keys(p) == key_when(c.mode is Some, "mode"@).union(
        key_when(c.bit_order is Some, "bit_order"@),
    ).union(key_when(c.frequency_hz is Some, "frequency_hz"@)).union(
        key_when(c.word_size is Some, "word_size"@),
    ).union(key_when(c.cs_active is Some, "cs_active"@)).union(
        key_when(c.cs_mode is Some, "cs_mode"@),
    )
}

/// Apply configuration overrides (persisted on the box); the reply's
/// `value` is the effective configuration.
pub fn configure(name: &str, config: &SpiConfig) -> (r: HttpRequest)
    ensures
        net_request(r, name@, "spi"@, "config"@, Timeout::Default),
        config_params(params_of(r), *config),
{
    proof {
        reveal_strlit("mode");
        reveal_strlit("bit_order");
        reveal_strlit("frequency_hz");
        reveal_strlit("word_size");
        reveal_strlit("cs_active");
        reveal_strlit("cs_mode");
    }
    assert("mode"@.len() == 4 && "bit_order"@.len() == 9 && "frequency_hz"@.len() == 12
        && "word_size"@.len() == 9 && "cs_active"@.len() == 9 && "cs_mode"@.len() == 7);
    assert("bit_order"@[0] != "word_size"@[0] && "bit_order"@[0] != "cs_active"@[0]
        && "word_size"@[0] != "cs_active"@[0]);
    let p0 = Json::empty_object();
    let p1 = match config.mode {
        Some(m) => with_member(p0, "mode", Json::uint(m as u64)),
        None => p0,
    };
    let p2 = match config.bit_order {
        Some(b) => with_member(p1, "bit_order", Json::str_of(b.as_str())),
        None => p1,
    };
    let p3 = match config.frequency_hz {
        Some(f) => with_member(p2, "frequency_hz", Json::uint(f as u64)),
        None => p2,
    };
    let p4 = match config.word_size {
        Some(w) => with_member(p3, "word_size", Json::uint(w as u64)),
        None => p3,
    };
    let p5 = match config.cs_active {
        Some(a) => with_member(p4, "cs_active", Json::str_of(a.as_str())),
        None => p4,
    };
    let p = match config.cs_mode {
        Some(m) => with_member(p5, "cs_mode", Json::str_of(m.as_str())),
        None => p5,
    };
    proof {
        lemma_member_key(p0, "mode"@);
        lemma_member_key(p0, "bit_order"@);
        lemma_member_key(p0, "frequency_hz"@);
        lemma_member_key(p0, "word_size"@);
        lemma_member_key(p0, "cs_active"@);
        lemma_member_key(p0, "cs_mode"@);
        lemma_member_key(p1, "bit_order"@);
        lemma_member_key(p1, "frequency_hz"@);
        lemma_member_key(p1, "word_size"@);
        lemma_member_key(p1, "cs_active"@);
        lemma_member_key(p1, "cs_mode"@);
        lemma_member_key(p2, "frequency_hz"@);
        lemma_member_key(p2, "word_size"@);
        lemma_member_key(p2, "cs_active"@);
        lemma_member_key(p2, "cs_mode"@);
        lemma_member_key(p3, "word_size"@);
        lemma_member_key(p3, "cs_active"@);
        lemma_member_key(p3, "cs_mode"@);
        lemma_member_key(p4, "cs_active"@);
        lemma_member_key(p4, "cs_mode"@);
        lemma_member_key(p5, "cs_mode"@);
        assert(obj_keys(p) =~= key_when(config.mode is Some, "mode"@).union(
            key_when(config.bit_order is Some, "bit_order"@),
        ).union(key_when(config.frequency_hz is Some, "frequency_hz"@)).union(
            key_when(config.word_size is Some, "word_size"@),
        ).union(key_when(config.cs_active is Some, "cs_active"@)).union(
            key_when(config.cs_mode is Some, "cs_mode"@),
        ));
    }
    role_command(name, "spi", "config", p, Timeout::Default)
}

/// The words of a slice, as numbers.
pub open spec fn word_values(data: Seq<u32>) -> Seq<nat> {
    data.map_values(|x: u32| x as nat)
}

/// Clock in `n_words` words, clocking out the fill word.
pub fn read(name: &str, n_words: u32, opts: &SpiOptions) -> (r: HttpRequest)
    ensures
        net_request(r, name@, "spi"@, "read"@, Timeout::Default),
        member(params_of(r), "n_words"@) matches Some(x) && is_uint(x, n_words as nat),
        member(params_of(r), "fill"@) matches Some(x) && is_uint(x, opts.fill as nat),
        member(params_of(r), "keep_cs"@) == Some(Json::Bool(opts.keep_cs)),
        keyed(params_of(r), set!["n_words"@, "fill"@, "keep_cs"@]),
{
    proof {
        reveal_strlit("n_words");
        reveal_strlit("fill");
        reveal_strlit("keep_cs");
    }
    assert("n_words"@.len() == 7 && "fill"@.len() == 4 && "keep_cs"@.len() == 7);
    assert("n_words"@[0] != "keep_cs"@[0]);
    let p1 = with_member(Json::empty_object(), "n_words", Json::uint(n_words as u64));
    let p2 = with_member(p1, "fill", Json::uint(opts.fill as u64));
    let p = with_member(p2, "keep_cs", Json::Bool(opts.keep_cs));
    assert(member(p, "n_words"@) == member(p1, "n_words"@));
    assert(member(p, "fill"@) == member(p2, "fill"@));
    assert(obj_keys(p) =~= set!["n_words"@, "fill"@, "keep_cs"@]);
    role_command(name, "spi", "read", p, Timeout::Default)
}

fn data_params(data: &[u32], keep_cs: bool) -> (p: Json)
    ensures
        member(p, "data"@) matches Some(d) && is_uint_list(d, word_values(data@)),
        member(p, "keep_cs"@) == Some(Json::Bool(keep_cs)),
        keyed(p, set!["data"@, "keep_cs"@]),
        p is Object,
{
    proof {
        reveal_strlit("data");
        reveal_strlit("keep_cs");
    }
    assert("data"@.len() == 4 && "keep_cs"@.len() == 7);
    let p1 = with_member(Json::empty_object(), "data", words_array(data));
    let p = with_member(p1, "keep_cs", Json::Bool(keep_cs));
    assert(member(p, "data"@) == member(p1, "data"@));
    assert(obj_keys(p) =~= set!["data"@, "keep_cs"@]);
    p
}

/// Clock out exactly `data` (full duplex: the reply carries the words
/// clocked in).
pub fn write(name: &str, data: &[u32], opts: &SpiOptions) -> (r: HttpRequest)
    ensures
        net_request(r, name@, "spi"@, "write"@, Timeout::Default),
        member(params_of(r), "data"@) matches Some(d) && is_uint_list(d, word_values(data@)),
        member(params_of(r), "keep_cs"@) == Some(Json::Bool(opts.keep_cs)),
        keyed(params_of(r), set!["data"@, "keep_cs"@]),
{
    role_command(name, "spi", "write", data_params(data, opts.keep_cs), Timeout::Default)
}

/// Full-duplex transfer of exactly `data`.
pub fn read_write(name: &str, data: &[u32], opts: &SpiOptions) -> (r: HttpRequest)
    ensures
        net_request(r, name@, "spi"@, "read_write"@, Timeout::Default),
        member(params_of(r), "data"@) matches Some(d) && is_uint_list(d, word_values(data@)),
        member(params_of(r), "keep_cs"@) == Some(Json::Bool(opts.keep_cs)),
        keyed(params_of(r), set!["data"@, "keep_cs"@]),
{
    role_command(name, "spi", "read_write", data_params(data, opts.keep_cs), Timeout::Default)
}

/// Transfer `n_words` words, padding or truncating `data` with the fill
/// word.
pub fn transfer(name: &str, data: &[u32], n_words: u32, opts: &SpiOptions) -> (r: HttpRequest)
    ensures
        net_request(r, name@, "spi"@, "transfer"@, Timeout::Default),
        member(params_of(r), "data"@) matches Some(d) && is_uint_list(d, word_values(data@)),
        member(params_of(r), "n_words"@) matches Some(x) && is_uint(x, n_words as nat),
        member(params_of(r), "fill"@) matches Some(x) && is_uint(x, opts.fill as nat),
        member(params_of(r), "keep_cs"@) == Some(Json::Bool(opts.keep_cs)),
        keyed(params_of(r), set!["data"@, "n_words"@, "fill"@, "keep_cs"@]),
{
    proof {
        reveal_strlit("data");
        reveal_strlit("n_words");
        reveal_strlit("fill");
        reveal_strlit("keep_cs");
    }
    assert("data"@.len() == 4 && "n_words"@.len() == 7 && "fill"@.len() == 4
        && "keep_cs"@.len() == 7);
    assert("n_words"@[0] != "keep_cs"@[0] && "data"@[0] != "fill"@[0]);
    let p1 = with_member(Json::empty_object(), "data", words_array(data));
    let p2 = with_member(p1, "n_words", Json::uint(n_words as u64));
    let p3 = with_member(p2, "fill", Json::uint(opts.fill as u64));
    let p = with_member(p3, "keep_cs", Json::Bool(opts.keep_cs));
    assert(member(p, "data"@) == member(p1, "data"@));
    assert(member(p, "n_words"@) == member(p2, "n_words"@));
    assert(member(p, "fill"@) == member(p3, "fill"@));
    assert(obj_keys(p) =~= set!["data"@, "n_words"@, "fill"@, "keep_cs"@]);
    role_command(name, "spi", "transfer", p, Timeout::Default)
}

/// Assemble a transfer result from a reply's parts, read leniently by the
/// transport: its top-level `word_size` (which must fit in a `u32`) and its
/// `value` word list. A bad word size is reported before a bad word list.
pub fn transfer_of(words: Result<Vec<u32>>, word_size: Option<i64>) -> (r: Result<SpiTransfer>)
    ensures
        match word_size {
            Some(w) if 0 <= w <= u32::MAX => match words {
                Ok(ws) => r matches Ok(t) && t.words@ == ws@ && t.word_size == w,
                Err(e) => r == Err::<SpiTransfer, Error>(e),
            },
            _ => r matches Err(Error::Decode(m)) && m@ == "SPI response missing 'word_size'"@,
        },
{
    let w = match word_size {
        Some(w) => {
            if 0 <= w && w <= u32::MAX as i64 {
                w as u32
            } else {
                return Err(Error::Decode(String::from_str("SPI response missing 'word_size'")));
            }
        },
        None => return Err(Error::Decode(String::from_str("SPI response missing 'word_size'"))),
    };
    match words {
        Ok(ws) => Ok(SpiTransfer { words: ws, word_size: w }),
        Err(e) => Err(e),
    }
}

} // verus!
