//! A plain JSON value, as the wire layer reads and builds request and
//! response bodies. Numbers are kept as their JSON text, so a value passes
//! through the library without loss.

use vstd::prelude::*;
use vstd::string::StringExecFns;
use crate::text::{chars_of, decimal, decimal_chars, parse_unsigned, parse_unsigned_chars, string_of};

verus! {

/// One JSON value.
#[derive(Debug, PartialEq, Eq)]
pub enum Json {
    /// `null`.
    Null,
    /// `true` / `false`.
    Bool(bool),
    /// A number, as its JSON text (e.g. `"42"`, `"-1.5"`).
    Number(String),
    /// A string.
    Str(String),
    /// An array.
    Array(Vec<Json>),
    /// An object, as `(key, value)` entries in order.
    Object(Vec<(String, Json)>),
}

/// The value under `key` in object entries: the first entry with that key.
pub open spec fn entry_value(entries: Seq<(String, Json)>, key: Seq<char>) -> Option<Json>
    decreases entries.len(),
{
    if entries.len() == 0 {
        None
    } else if entries[0].0@ == key {
        Some(entries[0].1)
    } else {
        entry_value(entries.drop_first(), key)
    }
}

/// `j.get(key)`: the member `key` of an object, `None` for anything else.
pub open spec fn member(j: Json, key: Seq<char>) -> Option<Json> {
    match j {
        Json::Object(entries) => entry_value(entries@, key),
        _ => None,
    }
}

/// `j` is the JSON string `s`.
pub open spec fn is_str(j: Json, s: Seq<char>) -> bool {
    j matches Json::Str(x) && x@ == s
}

/// `j` is the JSON number `n` (a non-negative integer).
pub open spec fn is_uint(j: Json, n: nat) -> bool {
    j matches Json::Number(x) && x@ == decimal(n)
}

/// `j.get(key).and_then(Value::as_str)`.
pub open spec fn member_str(j: Json, key: Seq<char>) -> Option<Seq<char>> {
    match member(j, key) {
        Some(Json::Str(s)) => Some(s@),
        _ => None,
    }
}

/// `Value::as_u64`: the number's value when it is a non-negative integer
/// that fits in a `u64` (number texts are canonical, so such a number is
/// written as plain digits).
pub open spec fn json_u64(j: Json) -> Option<u64> {
    match j {
        Json::Number(t) => if t@.len() > 0 && t@[0] == '+' {
            None
        } else {
            match parse_unsigned(t@, u64::MAX as nat) {
                Some(n) => Some(n as u64),
                None => None,
            }
        },
        _ => None,
    }
}

/// The keys of object entries, in order.
pub open spec fn keys_of(entries: Seq<(String, Json)>) -> Seq<Seq<char>> {
    entries.map_values(|e: (String, Json)| e.0@)
}

pub proof fn lemma_entry_value_index(entries: Seq<(String, Json)>, key: Seq<char>)
    ensures
        entry_value(entries, key) is Some <==> exists|i: int|
            0 <= i < entries.len() && (#[trigger] entries[i]).0@ == key,
        entry_value(entries, key) matches Some(v) ==> exists|i: int|
            0 <= i < entries.len() && (#[trigger] entries[i]).0@ == key && entries[i].1 == v,
    decreases entries.len(),
{
    if entries.len() > 0 {
        lemma_entry_value_index(entries.drop_first(), key);
        if entries[0].0@ != key {
            assert forall|i: int| 0 <= i < entries.len() && (#[trigger] entries[i]).0@ == key
                implies exists|k: int| 0 <= k < entries.drop_first().len()
                    && (#[trigger] entries.drop_first()[k]).0@ == key by {
                assert(entries.drop_first()[i - 1] == entries[i]);
            }
            if let Some(v) = entry_value(entries, key) {
                let k = choose|k: int| 0 <= k < entries.drop_first().len()
                    && (#[trigger] entries.drop_first()[k]).0@ == key
                    && entries.drop_first()[k].1 == v;
                assert(entries[k + 1] == entries.drop_first()[k]);
            }
        }
    }
}

pub proof fn lemma_entry_value_push(s: Seq<(String, Json)>, e: (String, Json), key: Seq<char>)
    ensures
        entry_value(s.push(e), key) == (match entry_value(s, key) {
            Some(v) => Some(v),
            None => if e.0@ == key {
                Some(e.1)
            } else {
                None
            },
        }),
    decreases s.len(),
{
    if s.len() > 0 {
        assert(s.push(e).drop_first() =~= s.drop_first().push(e));
        assert(s.push(e)[0] == s[0]);
        lemma_entry_value_push(s.drop_first(), e, key);
        assert(entry_value(s.push(e), key) == (if s[0].0@ == key {
            Some(s[0].1)
        } else {
            entry_value(s.drop_first().push(e), key)
        }));
    } else {
        assert(s.push(e)[0] == e);
        assert(s.push(e).drop_first() =~= Seq::<(String, Json)>::empty());
        assert(entry_value(s.push(e).drop_first(), key) is None);
    }
}

pub proof fn lemma_member_key(j: Json, key: Seq<char>)
    ensures
        member(j, key) is Some ==> obj_keys(j).contains(key),
        j is Object && obj_keys(j).contains(key) ==> member(j, key) is Some,
{
    if let Json::Object(entries) = j {
        lemma_entry_value_index(entries@, key);
        if member(j, key) is Some {
            let i = choose|i: int| 0 <= i < entries@.len() && (#[trigger] entries@[i]).0@ == key;
            assert(keys_of(entries@)[i] == key);
        }
        if obj_keys(j).contains(key) {
            let i = choose|i: int| 0 <= i < keys_of(entries@).len() && keys_of(entries@)[i] == key;
            assert(entries@[i].0@ == key);
        }
    }
}

impl Json {
    /// A JSON string holding `s`.
    pub fn str_of(s: &str) -> (j: Json)
        ensures
            is_str(j, s@),
    {
        Json::Str(String::from_str(s))
    }

    /// A JSON number holding the non-negative integer `n`.
    pub fn uint(n: u64) -> (j: Json)
        ensures
            is_uint(j, n as nat),
    {
        Json::Number(string_of(decimal_chars(n).as_slice()))
    }

    /// An empty object (`{}`).
    pub fn empty_object() -> (j: Json)
        ensures
            j matches Json::Object(e) && e@.len() == 0,
            obj_keys(j) == Set::<Seq<char>>::empty(),
            distinct_keys(j),
            forall|k: Seq<char>| member(j, k) is None,
    {
        let j = Json::Object(Vec::new());
        proof {
            assert(keys_of(Seq::<(String, Json)>::empty()) =~= Seq::<Seq<char>>::empty());
        }
        j
    }

    /// The member `key` of an object (`Value::get`).
    pub fn get(&self, key: &str) -> (r: Option<&Json>)
        ensures
            r matches Some(v) ==> member(*self, key@) == Some(*v),
            r is None ==> member(*self, key@) is None,
    {
        match self {
            Json::Object(entries) => {
                let mut i: usize = 0;
                assert(entries@.skip(0) =~= entries@);
                assert(member(*self, key@) == entry_value(entries@, key@));
                while i < entries.len()
                    invariant
                        i <= entries@.len(),
                        member(*self, key@) == entry_value(entries@, key@),
                        entry_value(entries@, key@) == entry_value(entries@.skip(i as int), key@),
                    decreases entries@.len() - i,
                {
                    assert(entries@.skip(i as int)[0] == entries@[i as int]);
                    if string_eq(&entries[i].0, key) {
                        assert(entry_value(entries@.skip(i as int), key@) == Some(
                            entries@[i as int].1,
                        ));
                        return Some(&entries[i].1);
                    }
                    assert(entries@.skip(i as int).drop_first() =~= entries@.skip(i + 1));
                    i = i + 1;
                }
                None
            },
            _ => None,
        }
    }

    /// The string this value holds (`Value::as_str`).
    pub fn as_str(&self) -> (r: Option<&str>)
        ensures
            r matches Some(s) ==> (*self matches Json::Str(x) && x@ == s@),
            r is None ==> !(*self is Str),
    {
        match self {
            Json::Str(s) => Some(s.as_str()),
            _ => None,
        }
    }

    /// The non-negative integer this value holds (`Value::as_u64`).
    pub fn as_u64(&self) -> (r: Option<u64>)
        ensures
            r == json_u64(*self),
    {
        match self {
            Json::Number(t) => {
                let v = chars_of(t.as_str());
                if v.len() > 0 && v[0] == '+' {
                    None
                } else {
                    match parse_unsigned_chars(v.as_slice(), u64::MAX) {
                        Some(n) => Some(n),
                        None => None,
                    }
                }
            },
            _ => None,
        }
    }

    /// The string member `key` of an object
    /// (`v.get(key).and_then(Value::as_str)`).
    pub fn get_str(&self, key: &str) -> (r: Option<&str>)
        ensures
            r matches Some(s) ==> member_str(*self, key@) == Some(s@),
            r is None ==> member_str(*self, key@) is None,
    {
        match self.get(key) {
            Some(v) => v.as_str(),
            None => None,
        }
    }
}

/// The key set of an object (empty for anything else).
pub open spec fn obj_keys(j: Json) -> Set<Seq<char>> {
    match j {
        Json::Object(entries) => keys_of(entries@).to_set(),
        _ => Set::empty(),
    }
}

/// An object whose entries have pairwise distinct keys.
pub open spec fn distinct_keys(j: Json) -> bool {
    j matches Json::Object(entries) && keys_of(entries@).no_duplicates()
}

/// `j` with member `key` set to `v` (`value[key] = v` on an object);
/// anything but an object comes back unchanged.
pub fn with_member(j: Json, key: &str, v: Json) -> (r: Json)
    ensures
        j is Object ==> {
            &&& r is Object
            &&& member(r, key@) == Some(v)
            &&& forall|k: Seq<char>| k != key@ ==> member(r, k) == member(j, k)
            &&& obj_keys(r) == obj_keys(j).insert(key@)
            &&& distinct_keys(j) ==> distinct_keys(r)
        },
        !(j is Object) ==> r == j,
{
    match j {
        Json::Object(entries) => {
            let mut e = entries;
            insert_entry(&mut e, key, v);
            Json::Object(e)
        },
        other => other,
    }
}

/// Move the member `key` out of an object (the value `j.get(key)` would
/// borrow); `None` for a missing key or a non-object.
pub fn take_member(j: Json, key: &str) -> (r: Option<Json>)
    ensures
        r == member(j, key@),
{
    match j {
        Json::Object(entries) => {
            assert(member(j, key@) == entry_value(entries@, key@));
            let mut e = entries;
            let ghost whole = e@;
            let mut i: usize = 0;
            assert(e@.skip(0) =~= e@);
            while i < e.len()
                invariant
                    i <= e@.len(),
                    e@ == whole,
                    member(j, key@) == entry_value(whole, key@),
                    entry_value(whole, key@) == entry_value(whole.skip(i as int), key@),
                decreases e@.len() - i,
            {
                assert(whole.skip(i as int)[0] == whole[i as int]);
                if string_eq(&e[i].0, key) {
                    assert(entry_value(whole.skip(i as int), key@) == Some(whole[i as int].1));
                    let (_, v) = e.remove(i);
                    return Some(v);
                }
                assert(whole.skip(i as int).drop_first() =~= whole.skip(i + 1));
                i = i + 1;
            }
            assert(whole.skip(i as int) =~= Seq::<(String, Json)>::empty());
            None
        },
        _ => None,
    }
}

/// `j` is an array of the non-negative integers `s`, in order.
pub open spec fn is_uint_list(j: Json, s: Seq<nat>) -> bool {
    j matches Json::Array(a) && a@.len() == s.len() && forall|i: int|
        0 <= i < s.len() ==> is_uint(#[trigger] a@[i], s[i])
}

/// A JSON array of the words `data`.
pub fn words_array(data: &[u32]) -> (j: Json)
    ensures
        is_uint_list(j, data@.map_values(|x: u32| x as nat)),
{
    let mut a: Vec<Json> = Vec::new();
    let mut i: usize = 0;
    while i < data.len()
        invariant
            i <= data@.len(),
            a@.len() == i,
            forall|k: int| 0 <= k < i ==> is_uint(#[trigger] a@[k], data@[k] as nat),
        decreases data@.len() - i,
    {
        a.push(Json::uint(data[i] as u64));
        i = i + 1;
    }
    Json::Array(a)
}

/// A JSON array of the bytes `data` (how a byte slice serializes).
pub fn bytes_array(data: &[u8]) -> (j: Json)
    ensures
        is_uint_list(j, data@.map_values(|x: u8| x as nat)),
{
    let mut a: Vec<Json> = Vec::new();
    let mut i: usize = 0;
    while i < data.len()
        invariant
            i <= data@.len(),
            a@.len() == i,
            forall|k: int| 0 <= k < i ==> is_uint(#[trigger] a@[k], data@[k] as nat),
        decreases data@.len() - i,
    {
        a.push(Json::uint(data[i] as u64));
        i = i + 1;
    }
    Json::Array(a)
}

/// Split the member `key` off an object: the object without that entry,
/// and the entry's value (`map.remove(key)`). Anything but an object comes
/// back whole, with no value.
pub fn extract_member(j: Json, key: &str) -> (r: (Json, Option<Json>))
    ensures
        r.1 == member(j, key@),
        !(j is Object) ==> r.0 == j,
        j is Object ==> {
            &&& r.0 is Object
            &&& forall|k: Seq<char>| k != key@ ==> member(r.0, k) == member(j, k)
            &&& distinct_keys(j) ==> distinct_keys(r.0) && obj_keys(r.0) == obj_keys(j).remove(key@)
                && member(r.0, key@) is None
        },
{
    match j {
        Json::Object(entries) => {
            assert(member(j, key@) == entry_value(entries@, key@));
            assert(distinct_keys(j) == keys_of(entries@).no_duplicates());
            assert(obj_keys(j) == keys_of(entries@).to_set());
            assert(forall|k: Seq<char>| member(j, k) == entry_value(entries@, k));
            let mut e = entries;
            let ghost whole = e@;
            let mut i: usize = 0;
            assert(whole.skip(0) =~= whole);
            while i < e.len()
                invariant
                    i <= e@.len(),
                    e@ == whole,
                    forall|m: int| 0 <= m < i ==> (#[trigger] whole[m]).0@ != key@,
                    member(j, key@) == entry_value(whole, key@),
                    j is Object ==> (distinct_keys(j) == keys_of(whole).no_duplicates()),
                    j is Object ==> obj_keys(j) == keys_of(whole).to_set(),
                    j is Object ==> forall|k: Seq<char>| member(j, k) == entry_value(whole, k),
                    entry_value(whole, key@) == entry_value(whole.skip(i as int), key@),
                decreases e@.len() - i,
            {
                assert(whole.skip(i as int)[0] == whole[i as int]);
                if string_eq(&e[i].0, key) {
                    assert(entry_value(whole.skip(i as int), key@) == Some(whole[i as int].1));
                    let (_, v) = e.remove(i);
                    proof {
                        lemma_remove_entry(whole, i as int, key@);
                    }
                    return (Json::Object(e), Some(v));
                }
                assert(whole.skip(i as int).drop_first() =~= whole.skip(i + 1));
                i = i + 1;
            }
            assert(whole.skip(i as int) =~= Seq::<(String, Json)>::empty());
            proof {
                lemma_entry_value_index(whole, key@);
                if keys_of(whole).no_duplicates() {
                    assert(!keys_of(whole).contains(key@));
                    assert(keys_of(whole).to_set() =~= keys_of(whole).to_set().remove(key@));
                }
            }
            (Json::Object(e), None)
        },
        _ => (j, None),
    }
}

proof fn lemma_remove_entry(s: Seq<(String, Json)>, i: int, key: Seq<char>)
    requires
        0 <= i < s.len(),
        s[i].0@ == key,
        forall|m: int| 0 <= m < i ==> (#[trigger] s[m]).0@ != key,
    ensures
        forall|k: Seq<char>| k != key ==> entry_value(s.remove(i), k) == entry_value(s, k),
        keys_of(s).no_duplicates() ==> keys_of(s.remove(i)).no_duplicates()
            && keys_of(s.remove(i)).to_set() == keys_of(s).to_set().remove(key)
            && entry_value(s.remove(i), key) is None,
    decreases i,
{
    assert(keys_of(s.remove(i)) =~= keys_of(s).remove(i));
    assert(s.remove(i).len() == s.len() - 1);
    assert forall|m: int| 0 <= m < s.len() - 1 implies #[trigger] s.remove(i)[m] == (if m < i {
        s[m]
    } else {
        s[m + 1]
    }) by {}
    if i == 0 {
        assert(s.remove(0) =~= s.drop_first());
        assert forall|k: Seq<char>| k != key implies entry_value(s.remove(i), k) == entry_value(s, k) by {}
    } else {
        assert forall|m: int| 0 <= m < i - 1 implies (#[trigger] s.drop_first()[m]).0@ != key by {
            assert(s.drop_first()[m] == s[m + 1]);
        }
        lemma_remove_entry(s.drop_first(), i - 1, key);
        assert(s.remove(i).drop_first() =~= s.drop_first().remove(i - 1));
        assert(s.remove(i)[0] == s[0]);
        assert forall|k: Seq<char>| k != key implies entry_value(s.remove(i), k) == entry_value(s, k) by {
            if s[0].0@ != k {
                assert(entry_value(s.remove(i), k) == entry_value(s.remove(i).drop_first(), k));
                assert(entry_value(s.remove(i).drop_first(), k) == entry_value(
                    s.drop_first().remove(i - 1),
                    k,
                ));
                assert(entry_value(s.drop_first().remove(i - 1), k) == entry_value(s.drop_first(), k));
                assert(entry_value(s, k) == entry_value(s.drop_first(), k));
            }
        }
    }
    if keys_of(s).no_duplicates() {
        let ks = keys_of(s);
        assert(ks.remove(i).len() == ks.len() - 1);
        assert forall|m: int| 0 <= m < ks.len() - 1 implies #[trigger] ks.remove(i)[m] == (if m < i {
            ks[m]
        } else {
            ks[m + 1]
        }) by {}
        assert forall|a: int, b: int| 0 <= a < b < ks.remove(i).len() implies ks.remove(i)[a] != ks.remove(i)[b] by {
            let a2 = if a < i { a } else { a + 1 };
            let b2 = if b < i { b } else { b + 1 };
            assert(ks.remove(i)[a] == ks[a2]);
            assert(ks.remove(i)[b] == ks[b2]);
        }
        assert(ks[i] == key);
        assert forall|x: Seq<char>| ks.remove(i).to_set().contains(x) <==> ks.to_set().remove(key).contains(x) by {
            if ks.remove(i).contains(x) {
                let m = choose|m: int| 0 <= m < ks.remove(i).len() && ks.remove(i)[m] == x;
                let m2 = if m < i { m } else { m + 1 };
                assert(ks[m2] == x);
                assert(m2 != i);
                assert(ks[m2] != ks[i]);
                assert(ks.contains(x));
            }
            if ks.contains(x) && x != key {
                let m = choose|m: int| 0 <= m < ks.len() && ks[m] == x;
                assert(m != i);
                let m2 = if m < i { m } else { m - 1 };
                assert(ks.remove(i)[m2] == x);
            }
        }
        assert(ks.remove(i).to_set() =~= ks.to_set().remove(key));
        lemma_entry_value_index(s.remove(i), key);
        if entry_value(s.remove(i), key) is Some {
            let m = choose|m: int| 0 <= m < s.remove(i).len() && (#[trigger] s.remove(i)[m]).0@ == key;
            let m2 = if m < i { m } else { m + 1 };
            assert(ks[m2] == key && ks[i] == key && m2 != i);
        }
    }
}

/// String equality by characters.
pub(crate) fn string_eq(a: &String, b: &str) -> (r: bool)
    ensures
        r == (a@ == b@),
{
    let other = String::from_str(b);
    a.eq(&other)
}

/// Set `key` to `v` in object entries: replace the first entry with that
/// key, or append one (`map.insert(key, v)`).
pub fn insert_entry(entries: &mut Vec<(String, Json)>, key: &str, v: Json)
    ensures
        entry_value(final(entries)@, key@) == Some(v),
        forall|k: Seq<char>| k != key@ ==> entry_value(final(entries)@, k) == entry_value(
            old(entries)@,
            k,
        ),
        keys_of(final(entries)@).to_set() == keys_of(old(entries)@).to_set().insert(key@),
        keys_of(old(entries)@).no_duplicates() ==> keys_of(final(entries)@).no_duplicates(),
{
    let ghost old_e = entries@;
    let mut i: usize = 0;
    let mut found = false;
    while i < entries.len()
        invariant
            i <= entries@.len(),
            entries@ == old_e,
            forall|m: int| 0 <= m < i ==> (#[trigger] entries@[m]).0@ != key@,
            found ==> i < entries@.len() && entries@[i as int].0@ == key@,
        ensures
            !found ==> i == entries@.len(),
        decreases entries@.len() - i - (if found { 1int } else { 0int }),
    {
        if string_eq(&entries[i].0, key) {
            found = true;
            break;
        }
        i = i + 1;
    }
    if found {
        let k = entries[i].0.clone();
        entries.set(i, (k, v));
        proof {
            assert(entries@ == old_e.update(i as int, (old_e[i as int].0, v)));
            lemma_set_entry(old_e, i as int, key@, v);
            assert(keys_of(old_e)[i as int] == key@);
            assert(keys_of(old_e).to_set().insert(key@) =~= keys_of(old_e).to_set());
        }
    } else {
        entries.push((String::from_str(key), v));
        proof {
            lemma_push_entry(old_e, key@, v, entries@);
        }
    }
}

proof fn lemma_set_entry(e: Seq<(String, Json)>, i: int, key: Seq<char>, v: Json)
    requires
        0 <= i < e.len(),
        e[i].0@ == key,
        forall|m: int| 0 <= m < i ==> (#[trigger] e[m]).0@ != key,
    ensures
        ({
            let f = e.update(i, (e[i].0, v));
            &&& entry_value(f, key) == Some(v)
            &&& forall|k: Seq<char>| k != key ==> entry_value(f, k) == entry_value(e, k)
            &&& keys_of(f) == keys_of(e)
        }),
    decreases i,
{
    let f = e.update(i, (e[i].0, v));
    assert(keys_of(f) =~= keys_of(e));
    if i == 0 {
        assert(f.drop_first() =~= e.drop_first());
        assert forall|k: Seq<char>| k != key implies entry_value(f, k) == entry_value(e, k) by {
            assert(entry_value(f, k) == entry_value(f.drop_first(), k));
        }
    } else {
        assert(e.drop_first()[i - 1] == e[i]);
        assert forall|m: int| 0 <= m < i - 1 implies (#[trigger] e.drop_first()[m]).0@ != key by {
            assert(e.drop_first()[m] == e[m + 1]);
        }
        lemma_set_entry(e.drop_first(), i - 1, key, v);
        assert(f.drop_first() =~= e.drop_first().update(i - 1, (e[i].0, v)));
        assert(f[0] == e[0]);
        assert(e[0].0@ != key);
        assert forall|k: Seq<char>| k != key implies entry_value(f, k) == entry_value(e, k) by {
            if e[0].0@ != k {
                assert(entry_value(f, k) == entry_value(f.drop_first(), k));
                assert(entry_value(e, k) == entry_value(e.drop_first(), k));
            }
        }
    }
}

proof fn lemma_push_entry(e: Seq<(String, Json)>, key: Seq<char>, v: Json, f: Seq<(String, Json)>)
    requires
        forall|m: int| 0 <= m < e.len() ==> (#[trigger] e[m]).0@ != key,
        f.len() == e.len() + 1,
        forall|m: int| 0 <= m < e.len() ==> f[m] == e[m],
        f[e.len() as int].0@ == key,
        f[e.len() as int].1 == v,
    ensures
        entry_value(f, key) == Some(v),
        forall|k: Seq<char>| k != key ==> entry_value(f, k) == entry_value(e, k),
        keys_of(f).to_set() == keys_of(e).to_set().insert(key),
        keys_of(e).no_duplicates() ==> keys_of(f).no_duplicates(),
    decreases e.len(),
{
    assert(keys_of(f) =~= keys_of(e).push(key));
    assert(keys_of(e).push(key).to_set() =~= keys_of(e).to_set().insert(key)) by {
        vstd::seq_lib::lemma_seq_contains_after_push(keys_of(e), key, key);
        assert forall|x: Seq<char>| keys_of(e).push(key).to_set().contains(x)
            <==> keys_of(e).to_set().insert(key).contains(x) by {
            if keys_of(e).push(key).contains(x) {
                let m = choose|m: int| 0 <= m < keys_of(e).push(key).len()
                    && keys_of(e).push(key)[m] == x;
                if m < e.len() {
                    assert(keys_of(e)[m] == x);
                }
            }
            if keys_of(e).contains(x) {
                let m = choose|m: int| 0 <= m < keys_of(e).len() && keys_of(e)[m] == x;
                assert(keys_of(e).push(key)[m] == x);
            }
            if x == key {
                assert(keys_of(e).push(key)[e.len() as int] == x);
            }
        }
    }
    if keys_of(e).no_duplicates() {
        assert forall|a: int, b: int| 0 <= a < b < keys_of(f).len() implies keys_of(f)[a]
            != keys_of(f)[b] by {
            if b == e.len() {
                assert(keys_of(f)[a] == e[a].0@);
            }
        }
    }
    if e.len() > 0 {
        assert forall|m: int| 0 <= m < e.drop_first().len() implies (
        #[trigger] e.drop_first()[m]).0@ != key by {
            assert(e.drop_first()[m] == e[m + 1]);
        }
        assert forall|m: int| 0 <= m < e.drop_first().len() implies f.drop_first()[m]
            == e.drop_first()[m] by {
            assert(f[m + 1] == e[m + 1]);
        }
        lemma_push_entry(e.drop_first(), key, v, f.drop_first());
        assert(f[0] == e[0]);
        assert(e[0].0@ != key);
        assert forall|k: Seq<char>| k != key implies entry_value(f, k) == entry_value(e, k) by {
            if e[0].0@ != k {
                assert(entry_value(f, k) == entry_value(f.drop_first(), k));
                assert(entry_value(e, k) == entry_value(e.drop_first(), k));
            }
        }
    } else {
        assert(f.drop_first().len() == 0);
        assert forall|k: Seq<char>| k != key implies entry_value(f, k) == entry_value(e, k) by {
            assert(entry_value(f, k) == entry_value(f.drop_first(), k));
        }
    }
}

} // verus!
