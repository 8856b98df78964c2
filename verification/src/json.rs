//! A plain model of the JSON documents the platform exchanges.
//!
//! The caller parses response bodies with whatever JSON machinery it
//! likes and hands the result in as a [`JsonValue`] tree; every request
//! body this crate plans is likewise handed back as a tree.  Numbers are
//! restricted to integers: the payloads this client reads and writes
//! carry no other numeric shape.

use vstd::prelude::*;

verus! {

/// One JSON value.
#[derive(Debug)]
pub enum JsonValue {
    Null,
    Bool(bool),
    Int(i64),
    Text(String),
    List(Vec<JsonValue>),
    Object(Vec<(String, JsonValue)>),
}

/// The value bound to `key`, taking the first binding if a key repeats
/// (a parsed document binds each key once).
pub open spec fn spec_lookup(fields: Seq<(String, JsonValue)>, key: Seq<char>) -> Option<
    JsonValue,
>
    decreases fields.len(),
{
    if fields.len() == 0 {
        None
    } else if fields[0].0@ == key {
        Some(fields[0].1)
    } else {
        spec_lookup(fields.drop_first(), key)
    }
}

/// The member `key` of `v`, when `v` is an object that has it.
pub open spec fn get1(v: JsonValue, key: Seq<char>) -> Option<JsonValue> {
    match v {
        JsonValue::Object(fields) => spec_lookup(fields@, key),
        _ => None,
    }
}

/// `get1` lifted to an optional value, for composing paths.
pub open spec fn step(o: Option<JsonValue>, key: Seq<char>) -> Option<JsonValue> {
    match o {
        Some(v) => get1(v, key),
        None => None,
    }
}

/// The member at the path `k1.k2` of `v`.
pub open spec fn get2(v: JsonValue, k1: Seq<char>, k2: Seq<char>) -> Option<JsonValue> {
    step(get1(v, k1), k2)
}

/// The member at the path `k1.k2.k3` of `v`.
pub open spec fn get3(v: JsonValue, k1: Seq<char>, k2: Seq<char>, k3: Seq<char>) -> Option<
    JsonValue,
> {
    step(get2(v, k1, k2), k3)
}

/// The characters of an optional value that is a string.
pub open spec fn text_of(o: Option<JsonValue>) -> Option<Seq<char>> {
    match o {
        Some(JsonValue::Text(s)) => Some(s@),
        _ => None,
    }
}

/// The integer behind an optional value that is a number.
pub open spec fn int_of(o: Option<JsonValue>) -> Option<i64> {
    match o {
        Some(JsonValue::Int(i)) => Some(i),
        _ => None,
    }
}

/// The elements of an optional value that is a list.
pub open spec fn list_of(o: Option<JsonValue>) -> Option<Seq<JsonValue>> {
    match o {
        Some(JsonValue::List(items)) => Some(items@),
        _ => None,
    }
}

/// The bindings of an optional value that is an object.
pub open spec fn object_of(o: Option<JsonValue>) -> Option<Seq<(String, JsonValue)>> {
    match o {
        Some(JsonValue::Object(fields)) => Some(fields@),
        _ => None,
    }
}

/// String equality on views.
pub fn str_eq(a: &str, b: &str) -> (r: bool)
    ensures
        r == (a@ == b@),
{
    let sa = a.to_owned();
    let sb = b.to_owned();
    sa == sb
}

/// Looks `key` up among `fields`, first binding first.
pub fn lookup<'a>(fields: &'a Vec<(String, JsonValue)>, key: &str) -> (r: Option<
    &'a JsonValue,
>)
    ensures
        match r {
            Some(x) => spec_lookup(fields@, key@) == Some(*x),
            None => spec_lookup(fields@, key@) is None,
        },
{
    let mut i: usize = 0;
    proof {
        assert(fields@.skip(0) =~= fields@);
    }
    while i < fields.len()
        invariant
            i <= fields.len(),
            spec_lookup(fields@.skip(i as int), key@) == spec_lookup(fields@, key@),
        decreases fields.len() - i,
    {
        proof {
            assert(fields@.skip(i as int)[0] == fields@[i as int]);
        }
        if str_eq(fields[i].0.as_str(), key) {
            return Some(&fields[i].1);
        }
        proof {
            assert(fields@.skip(i as int).drop_first() =~= fields@.skip(i as int + 1));
        }
        i = i + 1;
    }
    proof {
        assert(fields@.skip(i as int) =~= Seq::<(String, JsonValue)>::empty());
    }
    None
}

/// The member `key` of `v`, when `v` is an object that has it.
pub fn get<'a>(v: &'a JsonValue, key: &str) -> (r: Option<&'a JsonValue>)
    ensures
        match r {
            Some(x) => get1(*v, key@) == Some(*x),
            None => get1(*v, key@) is None,
        },
{
    match v {
        JsonValue::Object(fields) => lookup(fields, key),
        _ => None,
    }
}

/// The string behind `v`, if it is one.
pub fn as_text<'a>(v: &'a JsonValue) -> (r: Option<&'a String>)
    ensures
        match r {
            Some(s) => text_of(Some(*v)) == Some(s@),
            None => text_of(Some(*v)) is None,
        },
{
    match v {
        JsonValue::Text(s) => Some(s),
        _ => None,
    }
}

/// The integer behind `v`, if it is one.
pub fn as_int(v: &JsonValue) -> (r: Option<i64>)
    ensures
        r == int_of(Some(*v)),
{
    match v {
        JsonValue::Int(i) => Some(*i),
        _ => None,
    }
}

/// The elements of `v`, if it is a list.
pub fn as_list<'a>(v: &'a JsonValue) -> (r: Option<&'a Vec<JsonValue>>)
    ensures
        match r {
            Some(items) => list_of(Some(*v)) == Some(items@),
            None => list_of(Some(*v)) is None,
        },
{
    match v {
        JsonValue::List(items) => Some(items),
        _ => None,
    }
}

/// The bindings of `v`, if it is an object.
pub fn as_object<'a>(v: &'a JsonValue) -> (r: Option<&'a Vec<(String, JsonValue)>>)
    ensures
        match r {
            Some(fields) => object_of(Some(*v)) == Some(fields@),
            None => object_of(Some(*v)) is None,
        },
{
    match v {
        JsonValue::Object(fields) => Some(fields),
        _ => None,
    }
}

} // verus!
