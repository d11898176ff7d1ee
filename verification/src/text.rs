//! Character-level helpers over `str` and `String`.
//!
//! Everything the wire layer does with text (URLs, HTTP heads, error
//! messages) is stated over `Seq<char>`, the view of `str` and `String`.

use vstd::prelude::*;

verus! {

/// Collect the characters of `s`, in order.
pub fn chars_of(s: &str) -> (v: Vec<char>)
    ensures
        v@ == s@,
{
    let mut v: Vec<char> = Vec::new();
    for c in it: s.chars()
        invariant
            v@ == it.seq().take(it.index() as int),
    {
        v.push(c);
    }
    v
}

/// Appends one character to a `String` (`String::push`).
#[verifier::external_body]
pub(crate) fn push_char(s: &mut String, c: char)
    ensures
        final(s)@ == old(s)@.push(c),
{
    s.push(c);
}

/// Build a `String` holding exactly the characters of `v`.
pub fn string_of(v: &[char]) -> (s: String)
    ensures
        s@ == v@,
{
    let mut s = String::new();
    let mut i: usize = 0;
    while i < v.len()
        invariant
            i <= v@.len(),
            s@ == v@.take(i as int),
        decreases v@.len() - i,
    {
        push_char(&mut s, v[i]);
        i = i + 1;
        assert(s@ == v@.take(i as int));
    }
    assert(v@.take(v@.len() as int) == v@);
    s
}

/// The decimal digit character for `d < 10`.
pub open spec fn digit_char(d: nat) -> char {
    if d == 0 { '0' }
    else if d == 1 { '1' }
    else if d == 2 { '2' }
    else if d == 3 { '3' }
    else if d == 4 { '4' }
    else if d == 5 { '5' }
    else if d == 6 { '6' }
    else if d == 7 { '7' }
    else if d == 8 { '8' }
    else { '9' }
}

/// Decimal rendering of a natural number, without leading zeros.
pub open spec fn decimal(n: nat) -> Seq<char>
    decreases n,
{
    if n < 10 {
        seq![digit_char(n)]
    } else {
        decimal(n / 10).push(digit_char(n % 10))
    }
}

fn digit_of(d: u64) -> (c: char)
    requires
        d < 10,
    ensures
        c == digit_char(d as nat),
{
    if d == 0 { '0' }
    else if d == 1 { '1' }
    else if d == 2 { '2' }
    else if d == 3 { '3' }
    else if d == 4 { '4' }
    else if d == 5 { '5' }
    else if d == 6 { '6' }
    else if d == 7 { '7' }
    else if d == 8 { '8' }
    else { '9' }
}

/// Decimal characters of `n`.
pub fn decimal_chars(n: u64) -> (v: Vec<char>)
    ensures
        v@ == decimal(n as nat),
    decreases n,
{
    if n < 10 {
        let mut v = Vec::new();
        v.push(digit_of(n));
        v
    } else {
        let mut v = decimal_chars(n / 10);
        v.push(digit_of(n % 10));
        v
    }
}

} // verus!

verus! {

/// ASCII lowercase of one character (others unchanged).
pub open spec fn lower(c: char) -> char {
    if 'A' <= c <= 'Z' { ((c as u32) + 32) as char } else { c }
}

pub fn lower_char(c: char) -> (r: char)
    ensures
        r == lower(c),
{
    if 'A' <= c && c <= 'Z' {
        let n: u32 = (c as u32) + 32;
        assert(n < 0xD800);
        (n as u8) as char
    } else {
        c
    }
}

} // verus!

verus! {

/// Unicode `White_Space` characters (what `str::trim` removes).
pub open spec fn is_ws(c: char) -> bool {
    ||| ('\u{9}' <= c && c <= '\u{d}')
    ||| c == ' '
    ||| c == '\u{85}'
    ||| c == '\u{a0}'
    ||| c == '\u{1680}'
    ||| ('\u{2000}' <= c && c <= '\u{200a}')
    ||| c == '\u{2028}'
    ||| c == '\u{2029}'
    ||| c == '\u{202f}'
    ||| c == '\u{205f}'
    ||| c == '\u{3000}'
}

pub fn is_ws_char(c: char) -> (b: bool)
    ensures
        b == is_ws(c),
{
    ('\u{9}' <= c && c <= '\u{d}') || c == ' ' || c == '\u{85}' || c == '\u{a0}'
        || c == '\u{1680}' || ('\u{2000}' <= c && c <= '\u{200a}') || c == '\u{2028}'
        || c == '\u{2029}' || c == '\u{202f}' || c == '\u{205f}' || c == '\u{3000}'
}

/// `s` without leading whitespace.
pub open spec fn trim_start(s: Seq<char>) -> Seq<char>
    decreases s.len(),
{
    if s.len() > 0 && is_ws(s[0]) {
        trim_start(s.drop_first())
    } else {
        s
    }
}

/// `s` without trailing whitespace.
pub open spec fn trim_end(s: Seq<char>) -> Seq<char>
    decreases s.len(),
{
    if s.len() > 0 && is_ws(s.last()) {
        trim_end(s.drop_last())
    } else {
        s
    }
}

/// `s` without leading or trailing whitespace (`str::trim`).
pub open spec fn trim(s: Seq<char>) -> Seq<char> {
    trim_end(trim_start(s))
}

/// `s` with every trailing `c` removed (`str::trim_end_matches(c)`).
pub open spec fn strip_end(s: Seq<char>, c: char) -> Seq<char>
    decreases s.len(),
{
    if s.len() > 0 && s.last() == c {
        strip_end(s.drop_last(), c)
    } else {
        s
    }
}

/// `s` with every leading `c` removed (`str::trim_start_matches(c)`).
pub open spec fn strip_start(s: Seq<char>, c: char) -> Seq<char>
    decreases s.len(),
{
    if s.len() > 0 && s[0] == c {
        strip_start(s.drop_first(), c)
    } else {
        s
    }
}

proof fn lemma_trim_start_skip(s: Seq<char>, i: int)
    requires
        0 <= i < s.len(),
        is_ws(s[i]),
    ensures
        trim_start(s.skip(i)) == trim_start(s.skip(i + 1)),
{
    assert(s.skip(i).drop_first() =~= s.skip(i + 1));
}

proof fn lemma_trim_end_take(s: Seq<char>, j: int)
    requires
        0 < j <= s.len(),
        is_ws(s[j - 1]),
    ensures
        trim_end(s.take(j)) == trim_end(s.take(j - 1)),
{
    assert(s.take(j).drop_last() =~= s.take(j - 1));
}

/// Trimming leaves a text alone when neither end is whitespace.
pub proof fn lemma_trim_of_unpadded(s: Seq<char>)
    requires
        forall|i: int| 0 <= i < s.len() ==> !is_ws(#[trigger] s[i]),
    ensures
        trim(s) == s,
{
    assert(trim_start(s) == s);
    assert(trim_end(s) == s);
}

/// Copy of `v[from..to]`.
pub fn slice_chars(v: &[char], from: usize, to: usize) -> (r: Vec<char>)
    requires
        from <= to <= v@.len(),
    ensures
        r@ == v@.subrange(from as int, to as int),
{
    let mut r: Vec<char> = Vec::new();
    let mut i = from;
    while i < to
        invariant
            from <= i <= to <= v@.len(),
            r@ == v@.subrange(from as int, i as int),
        decreases to - i,
    {
        r.push(v[i]);
        i = i + 1;
        assert(r@ == v@.subrange(from as int, i as int));
    }
    r
}

/// `str::trim` over characters.
pub fn trim_chars(v: &[char]) -> (r: Vec<char>)
    ensures
        r@ == trim(v@),
{
    let n = v.len();
    let mut i: usize = 0;
    assert(v@.skip(0) =~= v@);
    while i < n && is_ws_char(v[i])
        invariant
            i <= n == v@.len(),
            trim_start(v@) == trim_start(v@.skip(i as int)),
        decreases n - i,
    {
        proof { lemma_trim_start_skip(v@, i as int); }
        i = i + 1;
    }
    let ghost t = v@.skip(i as int);
    assert(trim_start(v@) == t);
    let mut j: usize = n;
    assert(t.take(t.len() as int) =~= t);
    while j > i && is_ws_char(v[j - 1])
        invariant
            i <= j <= n == v@.len(),
            t == v@.skip(i as int),
            trim_end(t) == trim_end(t.take(j - i)),
        decreases j,
    {
        proof {
            lemma_trim_end_take(t, j - i);
        }
        j = j - 1;
    }
    assert(trim_end(t.take(j - i)) == t.take(j - i));
    assert(t.take(j - i) =~= v@.subrange(i as int, j as int));
    slice_chars(v, i, j)
}

/// `str::trim_end_matches(c)` over characters.
pub fn strip_end_chars(v: &[char], c: char) -> (r: Vec<char>)
    ensures
        r@ == strip_end(v@, c),
{
    let mut j: usize = v.len();
    assert(v@.take(j as int) =~= v@);
    while j > 0 && v[j - 1] == c
        invariant
            j <= v@.len(),
            strip_end(v@, c) == strip_end(v@.take(j as int), c),
        decreases j,
    {
        assert(v@.take(j as int).drop_last() =~= v@.take(j - 1));
        j = j - 1;
    }
    slice_chars(v, 0, j)
}

/// `str::trim_start_matches(c)` over characters.
pub fn strip_start_chars(v: &[char], c: char) -> (r: Vec<char>)
    ensures
        r@ == strip_start(v@, c),
{
    let mut i: usize = 0;
    assert(v@.skip(0) =~= v@);
    while i < v.len() && v[i] == c
        invariant
            i <= v@.len(),
            strip_start(v@, c) == strip_start(v@.skip(i as int), c),
        decreases v@.len() - i,
    {
        assert(v@.skip(i as int).drop_first() =~= v@.skip(i + 1));
        i = i + 1;
    }
    assert(v@.skip(i as int) =~= v@.subrange(i as int, v@.len() as int));
    slice_chars(v, i, v.len())
}

} // verus!

verus! {

/// `pat` occurs in `s` starting at index `i`.
pub open spec fn occurs_at(s: Seq<char>, pat: Seq<char>, i: int) -> bool {
    0 <= i && i + pat.len() <= s.len() && s.subrange(i, i + pat.len()) == pat
}

/// Index of the first occurrence of a non-empty `pat` at or after `i`.
pub open spec fn find_from(s: Seq<char>, pat: Seq<char>, i: nat) -> Option<nat>
    decreases s.len() - i,
{
    if pat.len() == 0 || i + pat.len() > s.len() {
        None
    } else if s.subrange(i as int, (i + pat.len()) as int) == pat {
        Some(i)
    } else {
        find_from(s, pat, i + 1)
    }
}

/// Index of the first occurrence of a non-empty `pat` in `s` (`str::find`).
pub open spec fn find(s: Seq<char>, pat: Seq<char>) -> Option<nat> {
    find_from(s, pat, 0)
}

/// `s` contains the non-empty `pat` (`str::contains`).
pub open spec fn contains(s: Seq<char>, pat: Seq<char>) -> bool {
    find(s, pat) is Some
}

/// Index of the last occurrence of `c` in `s` (`str::rfind`).
pub open spec fn rfind_char(s: Seq<char>, c: char) -> Option<nat>
    decreases s.len(),
{
    if s.len() == 0 {
        None
    } else if s.last() == c {
        Some((s.len() - 1) as nat)
    } else {
        rfind_char(s.drop_last(), c)
    }
}

pub proof fn lemma_find_from_found(s: Seq<char>, pat: Seq<char>, i: nat)
    requires
        find_from(s, pat, i) is Some,
    ensures
        i <= find_from(s, pat, i)->0,
        occurs_at(s, pat, find_from(s, pat, i)->0 as int),
        pat.len() > 0,
    decreases s.len() - i,
{
    if pat.len() == 0 || i + pat.len() > s.len() {
    } else if s.subrange(i as int, (i + pat.len()) as int) == pat {
    } else {
        lemma_find_from_found(s, pat, i + 1);
    }
}

fn matches_at(v: &[char], pat: &[char], i: usize) -> (b: bool)
    requires
        i + pat@.len() <= v@.len(),
    ensures
        b == (v@.subrange(i as int, i + pat@.len()) == pat@),
{
    let mut k: usize = 0;
    while k < pat.len()
        invariant
            k <= pat@.len(),
            i + pat@.len() <= v@.len(),
            v@.len() == v.len(),
            forall|m: int| 0 <= m < k ==> v@[i + m] == pat@[m],
        decreases pat@.len() - k,
    {
        if v[i + k] != pat[k] {
            assert(v@.subrange(i as int, i + pat@.len())[k as int] != pat@[k as int]);
            return false;
        }
        k = k + 1;
    }
    assert(v@.subrange(i as int, i + pat@.len()) =~= pat@);
    true
}

/// First index of the non-empty `pat` in `v`.
pub fn find_chars(v: &[char], pat: &[char]) -> (r: Option<usize>)
    ensures
        r matches Some(i) ==> find(v@, pat@) == Some(i as nat),
        r is None ==> find(v@, pat@) is None,
{
    if pat.len() == 0 || pat.len() > v.len() {
        return None;
    }
    let mut i: usize = 0;
    while i <= v.len() - pat.len()
        invariant
            pat@.len() <= v@.len(),
            pat@.len() > 0,
            i + pat@.len() <= v@.len() + 1,
            find(v@, pat@) == find_from(v@, pat@, i as nat),
        decreases v@.len() - i,
    {
        if matches_at(v, pat, i) {
            return Some(i);
        }
        i = i + 1;
    }
    None
}

/// Last index of `c` in `v`.
pub fn rfind_char_in(v: &[char], c: char) -> (r: Option<usize>)
    ensures
        r matches Some(i) ==> rfind_char(v@, c) == Some(i as nat) && i < v@.len() && v@[i as int] == c,
        r is None ==> rfind_char(v@, c) is None,
{
    let mut j: usize = v.len();
    assert(v@.take(j as int) =~= v@);
    while j > 0
        invariant
            j <= v@.len(),
            rfind_char(v@, c) == rfind_char(v@.take(j as int), c),
        decreases j,
    {
        if v[j - 1] == c {
            return Some(j - 1);
        }
        assert(v@.take(j as int).drop_last() =~= v@.take(j - 1));
        j = j - 1;
    }
    None
}

/// `v` contains the non-empty `pat`.
pub fn contains_chars(v: &[char], pat: &[char]) -> (b: bool)
    ensures
        b == contains(v@, pat@),
{
    find_chars(v, pat).is_some()
}

/// `s` starts with `p`.
pub open spec fn starts_with(s: Seq<char>, p: Seq<char>) -> bool {
    p.len() <= s.len() && s.take(p.len() as int) == p
}

pub fn starts_with_chars(v: &[char], p: &[char]) -> (b: bool)
    ensures
        b == starts_with(v@, p@),
{
    if p.len() > v.len() {
        return false;
    }
    let r = matches_at(v, p, 0);
    assert(v@.subrange(0, p@.len() as int) =~= v@.take(p@.len() as int));
    r
}

/// ASCII-case-insensitive equality (`str::eq_ignore_ascii_case`).
pub open spec fn eq_ignore_case(a: Seq<char>, b: Seq<char>) -> bool {
    a.len() == b.len() && forall|i: int| 0 <= i < a.len() ==> lower(a[i]) == lower(b[i])
}

pub fn eq_ignore_case_chars(a: &[char], b: &[char]) -> (r: bool)
    ensures
        r == eq_ignore_case(a@, b@),
{
    if a.len() != b.len() {
        return false;
    }
    let mut i: usize = 0;
    while i < a.len()
        invariant
            i <= a@.len() == b@.len(),
            forall|m: int| 0 <= m < i ==> lower(a@[m]) == lower(b@[m]),
        decreases a@.len() - i,
    {
        if lower_char(a[i]) != lower_char(b[i]) {
            return false;
        }
        i = i + 1;
    }
    true
}

/// ASCII lowercase of a whole sequence.
pub open spec fn lower_all(s: Seq<char>) -> Seq<char> {
    s.map_values(|c: char| lower(c))
}

pub fn lower_chars(v: &[char]) -> (r: Vec<char>)
    ensures
        r@ == lower_all(v@),
{
    let mut r: Vec<char> = Vec::new();
    let mut i: usize = 0;
    while i < v.len()
        invariant
            i <= v@.len(),
            r@ == lower_all(v@.take(i as int)),
        decreases v@.len() - i,
    {
        r.push(lower_char(v[i]));
        i = i + 1;
        assert(r@ =~= lower_all(v@.take(i as int)));
    }
    assert(v@.take(v@.len() as int) =~= v@);
    r
}

/// Append all characters of `b` to `a`.
pub fn extend_chars(a: &mut Vec<char>, b: &[char])
    ensures
        final(a)@ == old(a)@ + b@,
{
    let mut i: usize = 0;
    while i < b.len()
        invariant
            i <= b@.len(),
            a@ == old(a)@ + b@.take(i as int),
        decreases b@.len() - i,
    {
        a.push(b[i]);
        i = i + 1;
        assert(a@ =~= old(a)@ + b@.take(i as int));
    }
    assert(b@.take(b@.len() as int) =~= b@);
}

} // verus!

verus! {

/// Whether `c` occurs in `v`.
pub fn has_char(v: &[char], c: char) -> (b: bool)
    ensures
        b == v@.contains(c),
{
    let mut i: usize = 0;
    while i < v.len()
        invariant
            i <= v@.len(),
            forall|m: int| 0 <= m < i ==> v@[m] != c,
        decreases v@.len() - i,
    {
        if v[i] == c {
            assert(v@[i as int] == c);
            return true;
        }
        i = i + 1;
    }
    false
}

/// Concatenate the characters of several pieces into one `String`.
pub fn join_chars(a: &[char], b: &[char]) -> (r: Vec<char>)
    ensures
        r@ == a@ + b@,
{
    let mut r = slice_chars(a, 0, a.len());
    assert(a@.subrange(0, a@.len() as int) =~= a@);
    extend_chars(&mut r, b);
    r
}

} // verus!

verus! {

/// `c` is an ASCII decimal digit.
pub open spec fn is_digit(c: char) -> bool {
    '0' <= c && c <= '9'
}

/// Value of a sequence of decimal digits.
pub open spec fn digits_value(s: Seq<char>) -> nat
    decreases s.len(),
{
    if s.len() == 0 {
        0
    } else {
        digits_value(s.drop_last()) * 10 + (s.last() as nat - 48) as nat
    }
}

/// The digits part of an unsigned literal (after an optional `+`).
pub open spec fn unsigned_digits(s: Seq<char>) -> Seq<char> {
    if s.len() > 0 && s[0] == '+' { s.drop_first() } else { s }
}

/// Every character is a decimal digit.
pub open spec fn all_digits(d: Seq<char>) -> bool {
    forall|i: int| 0 <= i < d.len() ==> is_digit(#[trigger] d[i])
}

/// What `str::parse` yields for an unsigned integer type whose maximum is
/// `max`: an optional `+`, then one or more decimal digits, in range.
pub open spec fn parse_unsigned(s: Seq<char>, max: nat) -> Option<nat> {
    let d = unsigned_digits(s);
    if d.len() == 0 || !all_digits(d) {
        None
    } else if digits_value(d) > max {
        None
    } else {
        Some(digits_value(d))
    }
}

proof fn lemma_digits_value_mono(s: Seq<char>, k: int)
    requires
        0 <= k <= s.len(),
        forall|i: int| 0 <= i < s.len() ==> is_digit(#[trigger] s[i]),
    ensures
        digits_value(s) >= digits_value(s.take(k)),
    decreases s.len() - k,
{
    if k < s.len() {
        lemma_digits_value_mono(s, k + 1);
        assert(s.take(k + 1).drop_last() =~= s.take(k));
    } else {
        assert(s.take(k) =~= s);
    }
}

/// Parse an unsigned decimal the way `str::parse` does, with `max` the
/// type's maximum.
pub fn parse_unsigned_chars(v: &[char], max: u64) -> (r: Option<u64>)
    ensures
        r matches Some(n) ==> parse_unsigned(v@, max as nat) == Some(n as nat),
        r is None ==> parse_unsigned(v@, max as nat) is None,
{
    let start: usize = if v.len() > 0 && v[0] == '+' { 1 } else { 0 };
    let ghost d = unsigned_digits(v@);
    assert(d =~= v@.skip(start as int));
    if start >= v.len() {
        return None;
    }
    let mut i: usize = start;
    while i < v.len()
        invariant
            start <= i <= v@.len(),
            d =~= v@.skip(start as int),
            d == unsigned_digits(v@),
            forall|m: int| start <= m < i ==> is_digit(#[trigger] v@[m]),
        decreases v@.len() - i,
    {
        if !('0' <= v[i] && v[i] <= '9') {
            assert(!is_digit(d[i - start]));
            return None;
        }
        i = i + 1;
    }
    assert(forall|m: int| 0 <= m < d.len() ==> is_digit(#[trigger] d[m])) by {
        assert forall|m: int| 0 <= m < d.len() implies is_digit(#[trigger] d[m]) by {
            assert(d[m] == v@[m + start]);
        }
    }
    let mut acc: u128 = 0;
    let mut j: usize = start;
    assert(d.take(0) =~= Seq::<char>::empty());
    while j < v.len()
        invariant
            start <= j <= v@.len(),
            d =~= v@.skip(start as int),
            d == unsigned_digits(v@),
            forall|m: int| 0 <= m < d.len() ==> is_digit(#[trigger] d[m]),
            acc == digits_value(d.take(j - start)),
            acc <= max,
        decreases v@.len() - j,
    {
        assert(d[j - start] == v@[j as int]);
        assert(is_digit(d[j - start]));
        let dig = ((v[j] as u32) - 48) as u128;
        assert(d.take(j - start + 1).drop_last() =~= d.take(j - start));
        let next = acc * 10 + dig;
        if next > max as u128 {
            proof {
                lemma_digits_value_mono(d, j - start + 1);
            }
            return None;
        }
        acc = next;
        j = j + 1;
    }
    assert(d.take(d.len() as int) =~= d);
    Some(acc as u64)
}

} // verus!

verus! {

/// Pieces joined with `sep`.
pub open spec fn joined(pieces: Seq<Seq<char>>, sep: Seq<char>) -> Seq<char>
    decreases pieces.len(),
{
    if pieces.len() == 0 {
        Seq::empty()
    } else if pieces.len() == 1 {
        pieces[0]
    } else {
        joined(pieces.drop_last(), sep) + sep + pieces.last()
    }
}

/// The character sequences of several pieces.
pub open spec fn views_of(pieces: Seq<Vec<char>>) -> Seq<Seq<char>> {
    pieces.map_values(|p: Vec<char>| p@)
}

/// Join character pieces with `sep` (`[..].join(sep)`).
pub fn join_with(pieces: &[Vec<char>], sep: &[char]) -> (r: Vec<char>)
    ensures
        r@ == joined(views_of(pieces@), sep@),
{
    let mut out: Vec<char> = Vec::new();
    let mut i: usize = 0;
    while i < pieces.len()
        invariant
            i <= pieces@.len(),
            out@ == joined(views_of(pieces@.take(i as int)), sep@),
        decreases pieces@.len() - i,
    {
        let ghost before = out@;
        assert(views_of(pieces@.take(i + 1)).drop_last() =~= views_of(pieces@.take(i as int)));
        assert(views_of(pieces@.take(i + 1)).last() == pieces@[i as int]@);
        if i > 0 {
            extend_chars(&mut out, sep);
        }
        extend_chars(&mut out, pieces[i].as_slice());
        proof {
            if i == 0 {
                assert(out@ =~= pieces@[0]@);
                assert(views_of(pieces@.take(1)).len() == 1);
            } else {
                assert(out@ =~= before + sep@ + pieces@[i as int]@);
            }
        }
        i = i + 1;
    }
    assert(pieces@.take(pieces@.len() as int) =~= pieces@);
    out
}

} // verus!

verus! {

/// The characters after the last `c` (all of `s` when there is none).
pub open spec fn last_piece(s: Seq<char>, c: char) -> Seq<char>
    decreases s.len(),
{
    if s.len() == 0 || s.last() == c {
        Seq::empty()
    } else {
        last_piece(s.drop_last(), c).push(s.last())
    }
}

/// The characters before the last `c`, or `None` when there is none.
pub open spec fn before_last(s: Seq<char>, c: char) -> Option<Seq<char>>
    decreases s.len(),
{
    if s.len() == 0 {
        None
    } else if s.last() == c {
        Some(s.drop_last())
    } else {
        before_last(s.drop_last(), c)
    }
}

pub proof fn lemma_before_last_shorter(s: Seq<char>, c: char)
    ensures
        before_last(s, c) matches Some(b) ==> b.len() < s.len(),
    decreases s.len(),
{
    if s.len() > 0 && s.last() != c {
        lemma_before_last_shorter(s.drop_last(), c);
    }
}

/// Split `v` at its last `c`: the part before it (`None` without a `c`)
/// and the part after it.
pub fn split_last(v: &[char], c: char) -> (r: (Option<Vec<char>>, Vec<char>))
    ensures
        match r.0 {
            Some(b) => before_last(v@, c) == Some(b@),
            None => before_last(v@, c) is None,
        },
        r.1@ == last_piece(v@, c),
{
    let mut j: usize = v.len();
    assert(v@.take(j as int) =~= v@);
    assert(v@.skip(j as int) =~= Seq::<char>::empty());
    while j > 0
        invariant
            j <= v@.len(),
            last_piece(v@, c) == last_piece(v@.take(j as int), c) + v@.skip(j as int),
            before_last(v@, c) == before_last(v@.take(j as int), c),
        decreases j,
    {
        assert(v@.take(j as int).last() == v@[j - 1]);
        if v[j - 1] == c {
            let before = slice_chars(v, 0, j - 1);
            let after = slice_chars(v, j, v.len());
            assert(before@ =~= v@.take(j as int).drop_last());
            assert(after@ =~= v@.skip(j as int));
            assert(last_piece(v@.take(j as int), c) =~= Seq::<char>::empty());
            assert(last_piece(v@, c) =~= after@);
            return (Some(before), after);
        }
        assert(v@.take(j as int).drop_last() =~= v@.take(j - 1));
        assert(last_piece(v@.take(j - 1), c) + v@.skip(j - 1) =~= last_piece(
            v@.take(j - 1),
            c,
        ).push(v@[j - 1]) + v@.skip(j as int));
        j = j - 1;
    }
    assert(v@.take(0) =~= Seq::<char>::empty());
    let after = slice_chars(v, 0, v.len());
    assert(after@ =~= v@.skip(0));
    (None, after)
}

} // verus!

verus! {

/// Trimming the start leaves a text that does not start with whitespace,
/// and is a suffix of the original.
pub proof fn lemma_trim_start_shape(s: Seq<char>)
    ensures
        trim_start(s).len() <= s.len(),
        trim_start(s) == s.skip(s.len() - trim_start(s).len()),
        trim_start(s).len() > 0 ==> !is_ws(trim_start(s)[0]),
    decreases s.len(),
{
    if s.len() > 0 && is_ws(s[0]) {
        lemma_trim_start_shape(s.drop_first());
        assert(s.drop_first().skip(s.drop_first().len() - trim_start(s).len()) =~= s.skip(
            s.len() - trim_start(s).len(),
        ));
    } else {
        assert(s.skip(0) =~= s);
    }
}

/// Trimming the end leaves a prefix of the original, and keeps a first
/// character that is not whitespace.
pub proof fn lemma_trim_end_shape(s: Seq<char>)
    ensures
        trim_end(s).len() <= s.len(),
        trim_end(s) == s.take(trim_end(s).len() as int),
        s.len() > 0 && !is_ws(s[0]) ==> trim_end(s).len() > 0,
        trim_end(s).len() > 0 ==> !is_ws(trim_end(s).last()),
    decreases s.len(),
{
    if s.len() > 0 && is_ws(s.last()) {
        lemma_trim_end_shape(s.drop_last());
        assert(s.drop_last().take(trim_end(s).len() as int) =~= s.take(trim_end(s).len() as int));
        if s.len() > 0 && !is_ws(s[0]) {
            assert(s.drop_last().len() > 0);
            assert(s.drop_last()[0] == s[0]);
        }
    } else {
        assert(s.take(s.len() as int) =~= s);
    }
}

/// A trimmed text starts and ends with something other than whitespace.
pub proof fn lemma_trim_shape(s: Seq<char>)
    ensures
        trim(s).len() > 0 ==> !is_ws(trim(s)[0]) && !is_ws(trim(s).last()),
{
    let t = trim_start(s);
    lemma_trim_start_shape(s);
    lemma_trim_end_shape(t);
    if trim(s).len() > 0 {
        assert(trim(s)[0] == t[0]);
    }
}

/// A text that neither starts nor ends with whitespace is its own trim.
pub proof fn lemma_trim_of_ends(s: Seq<char>)
    requires
        s.len() > 0,
        !is_ws(s[0]),
        !is_ws(s.last()),
    ensures
        trim(s) == s,
{
    assert(trim_start(s) == s);
    assert(trim_end(s) == s);
}

/// Stripping a trailing character leaves a prefix that does not end in it.
pub proof fn lemma_strip_end_shape(s: Seq<char>, c: char)
    ensures
        strip_end(s, c).len() <= s.len(),
        strip_end(s, c) == s.take(strip_end(s, c).len() as int),
        strip_end(s, c).len() > 0 ==> strip_end(s, c).last() != c,
    decreases s.len(),
{
    if s.len() > 0 && s.last() == c {
        lemma_strip_end_shape(s.drop_last(), c);
        assert(s.drop_last().take(strip_end(s, c).len() as int) =~= s.take(
            strip_end(s, c).len() as int,
        ));
    } else {
        assert(s.take(s.len() as int) =~= s);
    }
}

/// Nothing before the first occurrence found from `i` matches.
pub proof fn lemma_find_from_first(s: Seq<char>, pat: Seq<char>, i: nat, j: int)
    requires
        i <= j,
        find_from(s, pat, i) matches Some(k) && j < k,
    ensures
        !occurs_at(s, pat, j),
    decreases s.len() - i,
{
    if pat.len() == 0 || i + pat.len() > s.len() {
    } else if s.subrange(i as int, (i + pat.len()) as int) == pat {
    } else if j == i {
    } else {
        lemma_find_from_first(s, pat, i + 1, j);
    }
}

/// The search from `i` finds `k` when `pat` occurs at `k` and nowhere in
/// between.
pub proof fn lemma_find_from_at(s: Seq<char>, pat: Seq<char>, i: nat, k: nat)
    requires
        pat.len() > 0,
        i <= k,
        occurs_at(s, pat, k as int),
        forall|j: int| i <= j < k ==> !occurs_at(s, pat, j),
    ensures
        find_from(s, pat, i) == Some(k),
    decreases k - i,
{
    if i < k {
        assert(!occurs_at(s, pat, i as int));
        lemma_find_from_at(s, pat, i + 1, k);
    }
}

proof fn lemma_find_from_reaches(s: Seq<char>, pat: Seq<char>, j: nat, i: int)
    requires
        pat.len() > 0,
        j <= i,
        occurs_at(s, pat, i),
    ensures
        find_from(s, pat, j) is Some,
    decreases i - j,
{
    if s.subrange(j as int, (j + pat.len()) as int) != pat {
        assert(j != i);
        lemma_find_from_reaches(s, pat, j + 1, i);
    }
}

/// `s` contains a non-empty `pat` exactly when `pat` occurs in it somewhere.
pub proof fn lemma_contains_iff(s: Seq<char>, pat: Seq<char>)
    requires
        pat.len() > 0,
    ensures
        contains(s, pat) <==> exists|i: int| occurs_at(s, pat, i),
{
    if contains(s, pat) {
        lemma_find_from_found(s, pat, 0);
    }
    if exists|i: int| occurs_at(s, pat, i) {
        let i = choose|i: int| occurs_at(s, pat, i);
        lemma_find_from_reaches(s, pat, 0, i);
    }
}

/// Every piece occurs in the pieces joined with a separator.
pub proof fn lemma_joined_has_piece(pieces: Seq<Seq<char>>, sep: Seq<char>, i: int)
    requires
        0 <= i < pieces.len(),
    ensures
        exists|off: int| occurs_at(joined(pieces, sep), pieces[i], off),
    decreases pieces.len(),
{
    let j = joined(pieces, sep);
    if pieces.len() == 1 {
        assert(j.subrange(0, pieces[0].len() as int) =~= pieces[0]);
        assert(occurs_at(j, pieces[i], 0));
    } else {
        let front = joined(pieces.drop_last(), sep);
        assert(j == front + sep + pieces.last());
        if i == pieces.len() - 1 {
            let off: int = (front.len() + sep.len()) as int;
            assert(j.subrange(off, off + pieces[i].len()) =~= pieces[i]);
            assert(occurs_at(j, pieces[i], off));
        } else {
            lemma_joined_has_piece(pieces.drop_last(), sep, i);
            assert(pieces.drop_last()[i] == pieces[i]);
            let off = choose|off: int| occurs_at(front, pieces[i], off);
            assert(j.subrange(off, off + pieces[i].len()) =~= front.subrange(off, off + pieces[i].len()));
            assert(occurs_at(j, pieces[i], off));
        }
    }
}

/// The last character of a decimal rendering is a digit, not `/`.
pub proof fn lemma_decimal_last(n: nat)
    ensures
        decimal(n).len() > 0,
        decimal(n).last() != '/',
        decimal(n).last() != ':',
    decreases n,
{
    if n >= 10 {
        lemma_decimal_last(n / 10);
    }
}

} // verus!
