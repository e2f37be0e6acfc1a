//! JSON values as the reconciler reads and reshapes them: lookups by key,
//! numbers read as issue numbers, and objects built key by key.

use vstd::prelude::*;
use vstd::string::*;
use crate::number::{parse_u64, spec_parse_u64};
use crate::text::{chars_of, str_eq};

verus! {

/// A JSON number as `serde_json` holds it.
#[derive(Debug, Clone)]
pub enum JsonNumber {
    /// A non-negative integer.
    PosInt(u64),
    /// A negative integer.
    NegInt(i64),
    /// Any other number, as written.
    Float(String),
}

/// A JSON value. Object entries keep their order; a lookup takes the first
/// entry under a key.
#[derive(Debug)]
pub enum Json {
    Null,
    Bool(bool),
    Number(JsonNumber),
    Str(String),
    Array(Vec<Json>),
    Object(Vec<(String, Json)>),
}

/// A number as plain values.
pub enum NumV {
    PosInt(u64),
    NegInt(i64),
    Float(Seq<char>),
}

/// A JSON value as plain values.
pub enum JsonV {
    Null,
    Bool(bool),
    Number(NumV),
    Str(Seq<char>),
    Array(Seq<JsonV>),
    Object(Seq<(Seq<char>, JsonV)>),
}

pub open spec fn num_view(n: JsonNumber) -> NumV {
    match n {
        JsonNumber::PosInt(u) => NumV::PosInt(u),
        JsonNumber::NegInt(i) => NumV::NegInt(i),
        JsonNumber::Float(s) => NumV::Float(s@),
    }
}

/// The plain value of a JSON value.
pub open spec fn jview(j: Json) -> JsonV
    decreases j,
{
    match j {
        Json::Null => JsonV::Null,
        Json::Bool(b) => JsonV::Bool(b),
        Json::Number(n) => JsonV::Number(num_view(n)),
        Json::Str(s) => JsonV::Str(s@),
        Json::Array(v) => JsonV::Array(
            Seq::new(v@.len(), |i: int| if 0 <= i < v@.len() { jview(v@[i]) } else { JsonV::Null }),
        ),
        Json::Object(v) => JsonV::Object(
            Seq::new(
                v@.len(),
                |i: int| if 0 <= i < v@.len() { (v@[i].0@, jview(v@[i].1)) } else { (Seq::empty(), JsonV::Null) },
            ),
        ),
    }
}

/// The entries of an object, as plain values.
pub open spec fn entries_view(v: Seq<(String, Json)>) -> Seq<(Seq<char>, JsonV)> {
    Seq::new(v.len(), |i: int| (v[i].0@, jview(v[i].1)))
}

/// The value under `key` among `entries`: the first entry under that key.
pub open spec fn entry_get(entries: Seq<(Seq<char>, JsonV)>, key: Seq<char>) -> Option<JsonV>
    decreases entries.len(),
{
    if entries.len() == 0 {
        None
    } else if entries[0].0 == key {
        Some(entries[0].1)
    } else {
        entry_get(entries.drop_first(), key)
    }
}

/// `Value::get(key)`: the member of an object; nothing for other values.
pub open spec fn jv_get(v: JsonV, key: Seq<char>) -> Option<JsonV> {
    match v {
        JsonV::Object(es) => entry_get(es, key),
        _ => None,
    }
}

/// `Value::as_str`.
pub open spec fn jv_str(v: JsonV) -> Option<Seq<char>> {
    match v {
        JsonV::Str(s) => Some(s),
        _ => None,
    }
}

/// The member at `key` of an optional value.
pub open spec fn jv_path(v: Option<JsonV>, key: Seq<char>) -> Option<JsonV> {
    match v {
        Some(x) => jv_get(x, key),
        None => None,
    }
}

/// The text of an optional value, where it is a string.
pub open spec fn jv_opt_str(v: Option<JsonV>) -> Option<Seq<char>> {
    match v {
        Some(x) => jv_str(x),
        None => None,
    }
}

/// A number read as an issue number: a non-negative integer, or a string
/// that `str::parse::<u64>` accepts.
pub open spec fn spec_json_u64(v: JsonV) -> Option<nat> {
    match v {
        JsonV::Number(NumV::PosInt(n)) => Some(n as nat),
        JsonV::Number(NumV::NegInt(n)) => if n >= 0 { Some(n as nat) } else { None },
        JsonV::Str(s) => match spec_parse_u64(s) {
            Ok(n) => Some(n),
            Err(_) => None,
        },
        _ => None,
    }
}

pub open spec fn jv_opt_u64(v: Option<JsonV>) -> Option<nat> {
    match v {
        Some(x) => spec_json_u64(x),
        None => None,
    }
}

proof fn lemma_entries_view_first(v: Seq<(String, Json)>)
    requires
        v.len() > 0,
    ensures
        entries_view(v)[0] == (v[0].0@, jview(v[0].1)),
        entries_view(v).drop_first() == entries_view(v.drop_first()),
{
    assert(entries_view(v).drop_first() =~= entries_view(v.drop_first()));
}

/// The object view of `Json::Object(v)`.
pub proof fn lemma_object_view(v: Vec<(String, Json)>)
    ensures
        jview(Json::Object(v)) == JsonV::Object(entries_view(v@)),
{
    let jv = jview(Json::Object(v));
    assert(jv->Object_0 =~= entries_view(v@));
}

/// The first entry of `entries` under `key`.
pub fn entries_get<'a>(entries: &'a Vec<(String, Json)>, key: &str) -> (r: Option<&'a Json>)
    ensures
        match r {
            Some(x) => entry_get(entries_view(entries@), key@) == Some(jview(*x)),
            None => entry_get(entries_view(entries@), key@) is None,
        },
{
    let mut i: usize = 0;
    proof {
        assert(entries@.subrange(0, entries@.len() as int) =~= entries@);
    }
    while i < entries.len()
        invariant
            i <= entries@.len(),
            entry_get(entries_view(entries@), key@) == entry_get(entries_view(entries@.subrange(i as int, entries@.len() as int)), key@),
        decreases entries@.len() - i,
    {
        let ghost rest = entries@.subrange(i as int, entries@.len() as int);
        proof {
            lemma_entries_view_first(rest);
            assert(rest.drop_first() =~= entries@.subrange(i + 1, entries@.len() as int));
        }
        if str_eq(entries[i].0.as_str(), key) {
            return Some(&entries[i].1);
        }
        i = i + 1;
    }
    proof {
        assert(entries_view(entries@.subrange(i as int, entries@.len() as int)).len() == 0);
    }
    None
}

/// `Value::get(key)`.
pub fn json_get<'a>(j: &'a Json, key: &str) -> (r: Option<&'a Json>)
    ensures
        match r {
            Some(x) => jv_get(jview(*j), key@) == Some(jview(*x)),
            None => jv_get(jview(*j), key@) is None,
        },
{
    match j {
        Json::Object(entries) => {
            proof {
                lemma_object_view(*entries);
            }
            entries_get(entries, key)
        },
        _ => None,
    }
}

/// `Value::get(key)` on an optional value.
pub fn json_path<'a>(j: Option<&'a Json>, key: &str) -> (r: Option<&'a Json>)
    ensures
        match r {
            Some(x) => jv_path(
                match j {
                    Some(v) => Some(jview(*v)),
                    None => None,
                },
                key@,
            ) == Some(jview(*x)),
            None => jv_path(
                match j {
                    Some(v) => Some(jview(*v)),
                    None => None,
                },
                key@,
            ) is None,
        },
{
    match j {
        Some(v) => json_get(v, key),
        None => None,
    }
}

/// The view of an optional value.
pub open spec fn ojv(j: Option<&Json>) -> Option<JsonV> {
    match j {
        Some(v) => Some(jview(*v)),
        None => None,
    }
}

/// `Value::as_str`.
pub fn json_as_str(j: &Json) -> (r: Option<&str>)
    ensures
        match r {
            Some(s) => jv_str(jview(*j)) == Some(s@),
            None => jv_str(jview(*j)) is None,
        },
{
    match j {
        Json::Str(s) => Some(s.as_str()),
        _ => None,
    }
}

/// `Value::as_str` on an optional value.
pub fn json_opt_str(j: Option<&Json>) -> (r: Option<&str>)
    ensures
        match r {
            Some(s) => jv_opt_str(ojv(j)) == Some(s@),
            None => jv_opt_str(ojv(j)) is None,
        },
{
    match j {
        Some(v) => json_as_str(v),
        None => None,
    }
}

/// An issue number out of a JSON value.
pub fn json_u64(j: &Json) -> (r: Option<u64>)
    ensures
        match spec_json_u64(jview(*j)) {
            Some(n) => r matches Some(m) && m as nat == n,
            None => r is None,
        },
{
    match j {
        Json::Number(JsonNumber::PosInt(n)) => Some(*n),
        Json::Number(JsonNumber::NegInt(n)) => {
            if *n >= 0 {
                Some(*n as u64)
            } else {
                None
            }
        },
        Json::Str(s) => {
            let cs = chars_of(s.as_str());
            match parse_u64(cs.as_slice()) {
                Ok(n) => Some(n),
                Err(_) => None,
            }
        },
        _ => None,
    }
}

/// An issue number out of an optional JSON value.
pub fn json_opt_u64(j: Option<&Json>) -> (r: Option<u64>)
    ensures
        match jv_opt_u64(ojv(j)) {
            Some(n) => r matches Some(m) && m as nat == n,
            None => r is None,
        },
{
    match j {
        Some(v) => json_u64(v),
        None => None,
    }
}

/// `Value::as_u64`: a non-negative integer.
pub open spec fn jv_as_u64(v: JsonV) -> Option<u64> {
    match v {
        JsonV::Number(NumV::PosInt(n)) => Some(n),
        _ => None,
    }
}

/// `Value::as_bool`.
pub open spec fn jv_as_bool(v: JsonV) -> Option<bool> {
    match v {
        JsonV::Bool(b) => Some(b),
        _ => None,
    }
}

/// `Value::as_u64` on an optional value.
pub fn json_opt_as_u64(j: Option<&Json>) -> (r: Option<u64>)
    ensures
        r == match ojv(j) {
            Some(v) => jv_as_u64(v),
            None => None,
        },
{
    match j {
        Some(Json::Number(JsonNumber::PosInt(n))) => Some(*n),
        _ => None,
    }
}

/// `Value::as_bool` on an optional value.
pub fn json_opt_as_bool(j: Option<&Json>) -> (r: Option<bool>)
    ensures
        r == match ojv(j) {
            Some(v) => jv_as_bool(v),
            None => None,
        },
{
    match j {
        Some(Json::Bool(b)) => Some(*b),
        _ => None,
    }
}

/// A copy of a JSON value.
pub fn json_copy(j: &Json) -> (r: Json)
    ensures
        jview(r) == jview(*j),
    decreases j,
{
    match j {
        Json::Null => Json::Null,
        Json::Bool(b) => Json::Bool(*b),
        Json::Number(JsonNumber::PosInt(n)) => Json::Number(JsonNumber::PosInt(*n)),
        Json::Number(JsonNumber::NegInt(n)) => Json::Number(JsonNumber::NegInt(*n)),
        Json::Number(JsonNumber::Float(s)) => Json::Number(JsonNumber::Float(s.clone())),
        Json::Str(s) => Json::Str(s.clone()),
        Json::Array(v) => {
            let mut out: Vec<Json> = Vec::new();
            let mut i: usize = 0;
            while i < v.len()
                invariant
                    i <= v@.len(),
                    out@.len() == i,
                    *j == Json::Array(*v),
                    forall|k: int| 0 <= k < i ==> jview(#[trigger] out@[k]) == jview(v@[k]),
                decreases v@.len() - i,
            {
                proof {
                    assert(decreases_to!(*j => j->Array_0));
                    assert(decreases_to!(*v => v@));
                    assert(decreases_to!(v@ => v@[i as int]));
                }
                let c = json_copy(&v[i]);
                out.push(c);
                i = i + 1;
            }
            let r = Json::Array(out);
            proof {
                assert(jview(r)->Array_0 =~= jview(*j)->Array_0);
            }
            r
        },
        Json::Object(v) => {
            let mut out: Vec<(String, Json)> = Vec::new();
            let mut i: usize = 0;
            while i < v.len()
                invariant
                    i <= v@.len(),
                    out@.len() == i,
                    *j == Json::Object(*v),
                    forall|k: int| 0 <= k < i ==> (#[trigger] out@[k]).0@ == v@[k].0@ && jview(out@[k].1) == jview(v@[k].1),
                decreases v@.len() - i,
            {
                proof {
                    assert(decreases_to!(*j => j->Object_0));
                    assert(decreases_to!(*v => v@));
                    assert(decreases_to!(v@ => v@[i as int]));
                    assert(decreases_to!(v@[i as int] => v@[i as int].1));
                }
                let c = json_copy(&v[i].1);
                out.push((v[i].0.clone(), c));
                i = i + 1;
            }
            let r = Json::Object(out);
            proof {
                assert(jview(r)->Object_0 =~= jview(*j)->Object_0);
            }
            r
        },
    }
}

impl Clone for Json {
    /// A copy with the same plain value.
    fn clone(&self) -> (r: Self)
        ensures
            jview(r) == jview(*self),
    {
        json_copy(self)
    }
}

/// Set `key` to `value` among `entries`: the first entry under the key is
/// replaced, or a new entry goes at the end.
pub open spec fn entries_set(entries: Seq<(Seq<char>, JsonV)>, key: Seq<char>, value: JsonV) -> Seq<(Seq<char>, JsonV)>
    decreases entries.len(),
{
    if entries.len() == 0 {
        seq![(key, value)]
    } else if entries[0].0 == key {
        entries.update(0, (key, value))
    } else {
        seq![entries[0]] + entries_set(entries.drop_first(), key, value)
    }
}

/// After setting `key`, a lookup of `key` finds the value and other keys
/// find what they found before.
pub proof fn lemma_entries_set_get(entries: Seq<(Seq<char>, JsonV)>, key: Seq<char>, value: JsonV, other: Seq<char>)
    ensures
        entry_get(entries_set(entries, key, value), key) == Some(value),
        other != key ==> entry_get(entries_set(entries, key, value), other) == entry_get(entries, other),
    decreases entries.len(),
{
    if entries.len() == 0 {
        let u = seq![(key, value)];
        assert(entries_set(entries, key, value) == u);
        assert(u.drop_first().len() == 0);
        assert(entry_get(u.drop_first(), other) is None);
    } else {
        if entries[0].0 == key {
            let u = entries.update(0, (key, value));
            assert(u.drop_first() =~= entries.drop_first());
            assert(u[0] == (key, value));
            assert(entries_set(entries, key, value) == u);
            if other != key {
                assert(entry_get(u, other) == entry_get(u.drop_first(), other));
                assert(entry_get(entries, other) == entry_get(entries.drop_first(), other));
            }
        } else {
            lemma_entries_set_get(entries.drop_first(), key, value, other);
            let u = seq![entries[0]] + entries_set(entries.drop_first(), key, value);
            assert(u.drop_first() =~= entries_set(entries.drop_first(), key, value));
            assert(u[0] == entries[0]);
            assert(entries_set(entries, key, value) == u);
            if other != key && entries[0].0 != other {
                assert(entry_get(u, other) == entry_get(u.drop_first(), other));
                assert(entry_get(entries, other) == entry_get(entries.drop_first(), other));
            }
        }
    }
}

/// Set `key` to `value` in an object's entries.
pub fn entries_insert(entries: &mut Vec<(String, Json)>, key: &str, value: Json)
    ensures
        entries_view(final(entries)@) == entries_set(entries_view(old(entries)@), key@, jview(value)),
{
    let ghost pre = entries_view(entries@);
    let mut i: usize = 0;
    let mut found = false;
    while !found && i < entries.len()
        invariant
            i <= entries@.len(),
            entries_view(entries@) == pre,
            !found ==> forall|k: int| 0 <= k < i ==> (#[trigger] entries@[k]).0@ != key@,
            found ==> i < entries@.len() && entries@[i as int].0@ == key@ && forall|k: int|
                0 <= k < i ==> (#[trigger] entries@[k]).0@ != key@,
        decreases entries@.len() - i + if found { 0int } else { 1int },
    {
        if str_eq(entries[i].0.as_str(), key) {
            found = true;
        } else {
            i = i + 1;
        }
    }
    proof {
        assert forall|k: int| 0 <= k < i implies (#[trigger] pre[k]).0 != key@ by {
            assert(pre[k].0 == entries@[k].0@);
        }
    }
    if found {
        proof {
            assert(pre[i as int].0 == key@);
            lemma_set_at(pre, key@, jview(value), i as int);
        }
        let name = String::from_str(key);
        entries.set(i, (name, value));
        proof {
            assert(entries_view(entries@) =~= pre.update(i as int, (key@, jview(value))));
        }
    } else {
        proof {
            lemma_set_absent(pre, key@, jview(value));
        }
        entries.push((String::from_str(key), value));
        proof {
            assert(entries_view(entries@) =~= pre.push((key@, jview(value))));
        }
    }
}

proof fn lemma_set_at(entries: Seq<(Seq<char>, JsonV)>, key: Seq<char>, value: JsonV, i: int)
    requires
        0 <= i < entries.len(),
        entries[i].0 == key,
        forall|k: int| 0 <= k < i ==> (#[trigger] entries[k]).0 != key,
    ensures
        entries_set(entries, key, value) == entries.update(i, (key, value)),
    decreases entries.len(),
{
    if i > 0 {
        lemma_set_at(entries.drop_first(), key, value, i - 1);
        assert(seq![entries[0]] + entries.drop_first().update(i - 1, (key, value)) =~= entries.update(i, (key, value)));
    }
}

pub proof fn lemma_set_absent(entries: Seq<(Seq<char>, JsonV)>, key: Seq<char>, value: JsonV)
    requires
        forall|k: int| 0 <= k < entries.len() ==> (#[trigger] entries[k]).0 != key,
    ensures
        entries_set(entries, key, value) == entries.push((key, value)),
    decreases entries.len(),
{
    if entries.len() > 0 {
        lemma_set_absent(entries.drop_first(), key, value);
        assert(seq![entries[0]] + entries.drop_first().push((key, value)) =~= entries.push((key, value)));
    }
}

/// The entries whose keys `keep` allows, in order.
pub open spec fn entries_retain(entries: Seq<(Seq<char>, JsonV)>, keep: spec_fn(Seq<char>) -> bool) -> Seq<
    (Seq<char>, JsonV),
>
    decreases entries.len(),
{
    if entries.len() == 0 {
        Seq::empty()
    } else if keep(entries[0].0) {
        seq![entries[0]] + entries_retain(entries.drop_first(), keep)
    } else {
        entries_retain(entries.drop_first(), keep)
    }
}

/// After retaining, a lookup finds what it found before for kept keys and
/// nothing for the rest.
pub proof fn lemma_entries_retain_get(entries: Seq<(Seq<char>, JsonV)>, keep: spec_fn(Seq<char>) -> bool, key: Seq<char>)
    ensures
        entry_get(entries_retain(entries, keep), key) == if keep(key) {
            entry_get(entries, key)
        } else {
            None
        },
    decreases entries.len(),
{
    if entries.len() > 0 {
        lemma_entries_retain_get(entries.drop_first(), keep, key);
        if keep(entries[0].0) {
            assert((seq![entries[0]] + entries_retain(entries.drop_first(), keep)).drop_first() =~= entries_retain(
                entries.drop_first(),
                keep,
            ));
        }
    }
}

} // verus!
