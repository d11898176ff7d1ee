//! How a JSON value reads in an error message: the `Debug` form of a
//! `serde_json` value, e.g. `Some(String("on"))`, `Some(Number(1))`,
//! `Some(Array [Bool(true), Null])` or `Some(Object {"a": Null})`.
//!
//! Object entries are written in their stored order (a decoded reply keeps
//! them sorted by key, as `serde_json`'s map does). A string is quoted and
//! each of its characters is written as `str`'s `Debug` writes it: the
//! escape `char::escape_debug` gives, except that a single quote stays as it
//! is.

use vstd::prelude::*;
use crate::json::Json;
use crate::text::{chars_of, extend_chars, string_of};

verus! {

/// The text `char::escape_debug` yields for `c`.
pub uninterp spec fn escape_debug_text(c: char) -> Seq<char>;

/// One character inside a quoted string.
pub open spec fn escaped_char(c: char) -> Seq<char> {
    if c == '\'' {
        seq!['\'']
    } else {
        escape_debug_text(c)
    }
}

/// The characters of `s`, each escaped.
pub open spec fn escaped(s: Seq<char>) -> Seq<char>
    decreases s.len(),
{
    if s.len() == 0 {
        Seq::empty()
    } else {
        escaped(s.drop_last()) + escaped_char(s.last())
    }
}

/// `s` in double quotes, escaped.
pub open spec fn quoted(s: Seq<char>) -> Seq<char> {
    seq!['"'] + escaped(s) + seq!['"']
}

/// The text of one JSON value.
pub open spec fn json_text(j: Json) -> Seq<char>
    decreases j,
{
    match j {
        Json::Null => "Null"@,
        Json::Bool(b) => if b {
            "Bool(true)"@
        } else {
            "Bool(false)"@
        },
        Json::Number(t) => "Number("@ + t@ + ")"@,
        Json::Str(s) => "String("@ + quoted(s@) + ")"@,
        Json::Array(a) => "Array ["@ + items_text(a@) + "]"@,
        Json::Object(e) => "Object {"@ + entries_text(e@) + "}"@,
    }
}

/// Array items, separated by `, `.
pub open spec fn items_text(s: Seq<Json>) -> Seq<char>
    decreases s,
{
    if s.len() == 0 {
        Seq::empty()
    } else if s.len() == 1 {
        json_text(s[0])
    } else {
        items_text(s.subrange(0, s.len() - 1)) + ", "@ + json_text(s[s.len() - 1])
    }
}

/// Object entries as `"key": value`, separated by `, `.
pub open spec fn entries_text(s: Seq<(String, Json)>) -> Seq<char>
    decreases s,
{
    if s.len() == 0 {
        Seq::empty()
    } else if s.len() == 1 {
        quoted(s[0].0@) + ": "@ + json_text(s[0].1)
    } else {
        entries_text(s.subrange(0, s.len() - 1)) + ", "@ + quoted(s[s.len() - 1].0@) + ": "@
            + json_text(s[s.len() - 1].1)
    }
}

/// The text of an optional value: `None` or `Some(..)`.
pub open spec fn value_text(v: Option<Json>) -> Seq<char> {
    match v {
        None => "None"@,
        Some(j) => "Some("@ + json_text(j) + ")"@,
    }
}

fn push_lit(out: &mut Vec<char>, s: &str)
    ensures
        final(out)@ == old(out)@ + s@,
{
    let v = chars_of(s);
    extend_chars(out, v.as_slice());
}

/// `c.escape_debug()`, collected (the escape std's `Debug` uses).
#[verifier::external_body]
fn escape_debug(c: char) -> (s: String)
    ensures
        s@ == escape_debug_text(c),
{
    c.escape_debug().collect::<String>()
}

/// One character of a quoted string, given what `char::escape_debug`
/// yields for it: a single quote is written as it is, any other character
/// as its escape.
pub fn string_char_text(c: char, escape: &str) -> (r: Vec<char>)
    ensures
        r@ == (if c == '\'' {
            seq!['\'']
        } else {
            escape@
        }),
{
    if c == '\'' {
        let mut v: Vec<char> = Vec::new();
        v.push('\'');
        v
    } else {
        chars_of(escape)
    }
}

fn push_escaped_char(out: &mut Vec<char>, c: char)
    ensures
        final(out)@ == old(out)@ + escaped_char(c),
{
    let e = escape_debug(c);
    let t = string_char_text(c, e.as_str());
    extend_chars(out, t.as_slice());
}

fn push_quoted(out: &mut Vec<char>, s: &str)
    ensures
        final(out)@ == old(out)@ + quoted(s@),
{
    let v = chars_of(s);
    let ghost start = out@;
    out.push('"');
    let mut i: usize = 0;
    while i < v.len()
        invariant
            i <= v@.len(),
            v@ == s@,
            out@ == start + seq!['"'] + escaped(v@.take(i as int)),
        decreases v@.len() - i,
    {
        let ghost before = out@;
        push_escaped_char(out, v[i]);
        proof {
            assert(v@.take(i + 1).drop_last() =~= v@.take(i as int));
            assert(v@.take(i + 1).last() == v@[i as int]);
        }
        i = i + 1;
        assert(out@ =~= start + seq!['"'] + escaped(v@.take(i as int)));
    }
    out.push('"');
    assert(v@.take(v@.len() as int) =~= v@);
    assert(out@ =~= old(out)@ + quoted(s@));
}

fn push_json(out: &mut Vec<char>, j: &Json)
    ensures
        final(out)@ == old(out)@ + json_text(*j),
    decreases j,
{
    let ghost start = out@;
    match j {
        Json::Null => push_lit(out, "Null"),
        Json::Bool(b) => if *b {
            push_lit(out, "Bool(true)")
        } else {
            push_lit(out, "Bool(false)")
        },
        Json::Number(t) => {
            push_lit(out, "Number(");
            push_lit(out, t.as_str());
            push_lit(out, ")");
            assert(out@ =~= start + json_text(*j));
        },
        Json::Str(s) => {
            push_lit(out, "String(");
            push_quoted(out, s.as_str());
            push_lit(out, ")");
            assert(out@ =~= start + json_text(*j));
        },
        Json::Array(a) => {
            push_lit(out, "Array [");
            let mut i: usize = 0;
            while i < a.len()
                invariant
                    i <= a@.len(),
                    out@ == start + "Array ["@ + items_text(a@.take(i as int)),
                    *j == Json::Array(*a),
                decreases a@.len() - i,
            {
                if i > 0 {
                    push_lit(out, ", ");
                }
                proof {
                    lemma_item_smaller(*j, *a, i as int);
                }
                push_json(out, &a[i]);
                proof {
                    let t = a@.take(i + 1);
                    assert(t.subrange(0, t.len() - 1) =~= a@.take(i as int));
                    assert(t[t.len() - 1] == a@[i as int]);
                    if i == 0 {
                        assert(a@.take(0) =~= Seq::<Json>::empty());
                    }
                }
                i = i + 1;
                assert(out@ =~= start + "Array ["@ + items_text(a@.take(i as int)));
            }
            push_lit(out, "]");
            assert(a@.take(a@.len() as int) =~= a@);
            assert(out@ =~= start + json_text(*j));
        },
        Json::Object(e) => {
            push_lit(out, "Object {");
            let mut i: usize = 0;
            while i < e.len()
                invariant
                    i <= e@.len(),
                    out@ == start + "Object {"@ + entries_text(e@.take(i as int)),
                    *j == Json::Object(*e),
                decreases e@.len() - i,
            {
                if i > 0 {
                    push_lit(out, ", ");
                }
                push_quoted(out, e[i].0.as_str());
                push_lit(out, ": ");
                proof {
                    lemma_entry_smaller(*j, *e, i as int);
                }
                push_json(out, &e[i].1);
                proof {
                    let t = e@.take(i + 1);
                    assert(t.subrange(0, t.len() - 1) =~= e@.take(i as int));
                    assert(t[t.len() - 1] == e@[i as int]);
                    if i == 0 {
                        assert(e@.take(0) =~= Seq::<(String, Json)>::empty());
                    }
                }
                i = i + 1;
                assert(out@ =~= start + "Object {"@ + entries_text(e@.take(i as int)));
            }
            push_lit(out, "}");
            assert(e@.take(e@.len() as int) =~= e@);
            assert(out@ =~= start + json_text(*j));
        },
    }
}

/// Render an optional value for a message (see [`value_text`]).
pub fn describe(v: &Option<Json>) -> (s: String)
    ensures
        s@ == value_text(*v),
{
    let mut out: Vec<char> = Vec::new();
    match v {
        None => push_lit(&mut out, "None"),
        Some(j) => {
            push_lit(&mut out, "Some(");
            push_json(&mut out, j);
            push_lit(&mut out, ")");
            assert(out@ =~= value_text(*v));
        },
    }
    string_of(out.as_slice())
}


proof fn lemma_item_smaller(j: Json, a: Vec<Json>, i: int)
    requires
        j == Json::Array(a),
        0 <= i < a.len(),
    ensures
        decreases_to!(j => a[i]),
{
    assert(decreases_to!(j => j->Array_0));
    assert(decreases_to!(a => a[i]));
}

proof fn lemma_entry_smaller(j: Json, e: Vec<(String, Json)>, i: int)
    requires
        j == Json::Object(e),
        0 <= i < e.len(),
    ensures
        decreases_to!(j => e[i].1),
{
    assert(decreases_to!(j => j->Object_0));
    assert(decreases_to!(e => e[i]));
    assert(decreases_to!(e[i] => e[i].1));
}

} // verus!
