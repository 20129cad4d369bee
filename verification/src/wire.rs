//! A JSON value the library can build and inspect: the payload shape every protocol surface
//! serializes. Numbers the library computes are integers; scores travel as `f32` bits.
use vstd::prelude::*;
use crate::ids::{uuid_string, uuid_text};
use crate::text::str_eq;

verus! {

/// A JSON value.
#[derive(Debug)]
pub enum Wire {
    Null,
    Bool(bool),
    Str(String),
    Int(i64),
    UInt(u64),
    /// A score, as the bit pattern of an `f32`.
    F32(u32),
    /// A number read from input, kept as its JSON text.
    Number(String),
    Array(Vec<Wire>),
    Object(Vec<(String, Wire)>),
}

/// The mathematical value of a [`Wire`].
pub enum Json {
    Null,
    Bool(bool),
    Str(Seq<char>),
    Int(i64),
    UInt(u64),
    F32(u32),
    Number(Seq<char>),
    Array(Seq<Json>),
    Object(Seq<(Seq<char>, Json)>),
}

/// The value of a wire value.
pub open spec fn json(w: Wire) -> Json
    decreases w,
{
    match w {
        Wire::Null => Json::Null,
        Wire::Bool(b) => Json::Bool(b),
        Wire::Str(s) => Json::Str(s@),
        Wire::Int(i) => Json::Int(i),
        Wire::UInt(u) => Json::UInt(u),
        Wire::F32(b) => Json::F32(b),
        Wire::Number(s) => Json::Number(s@),
        Wire::Array(v) => Json::Array(
            Seq::new(
                v@.len(),
                |i: int|
                    if 0 <= i < v@.len() {
                        json(v@[i])
                    } else {
                        Json::Null
                    },
            ),
        ),
        Wire::Object(v) => Json::Object(
            Seq::new(
                v@.len(),
                |i: int|
                    if 0 <= i < v@.len() {
                        (v@[i].0@, json(v@[i].1))
                    } else {
                        (Seq::empty(), Json::Null)
                    },
            ),
        ),
    }
}

/// The values of a sequence of wire values.
pub open spec fn jsons(s: Seq<Wire>) -> Seq<Json> {
    Seq::new(s.len(), |i: int| json(s[i]))
}

/// The entries of a sequence of wire object entries.
pub open spec fn entries(s: Seq<(String, Wire)>) -> Seq<(Seq<char>, Json)> {
    Seq::new(s.len(), |i: int| (s[i].0@, json(s[i].1)))
}

pub proof fn lemma_json_array(v: Vec<Wire>)
    ensures
        json(Wire::Array(v)) == Json::Array(jsons(v@)),
{
    let j = json(Wire::Array(v));
    if let Json::Array(a) = j {
        assert forall|i: int| 0 <= i < v@.len() implies a[i] == json(v@[i]) by {}
        assert(a =~= jsons(v@));
    }
}

pub proof fn lemma_json_object(v: Vec<(String, Wire)>)
    ensures
        json(Wire::Object(v)) == Json::Object(entries(v@)),
{
    let j = json(Wire::Object(v));
    if let Json::Object(a) = j {
        assert forall|i: int| 0 <= i < v@.len() implies a[i] == (v@[i].0@, json(v@[i].1)) by {}
        assert(a =~= entries(v@));
    }
}

/// The value under the first entry whose key is `key`.
pub open spec fn entries_get(es: Seq<(Seq<char>, Json)>, key: Seq<char>) -> Option<Json>
    decreases es.len(),
{
    if es.len() == 0 {
        None
    } else if es[0].0 == key {
        Some(es[0].1)
    } else {
        entries_get(es.drop_first(), key)
    }
}

/// The value under `key` when `v` is an object holding it (`Value::get`).
pub open spec fn field(v: Json, key: Seq<char>) -> Option<Json> {
    match v {
        Json::Object(es) => entries_get(es, key),
        _ => None,
    }
}

impl Wire {
    /// The value under `key` when this is an object holding it (`Value::get`).
    pub fn get(&self, key: &str) -> (r: Option<&Wire>)
        ensures
            match field(json(*self), key@) {
                Some(j) => r matches Some(w) && json(*w) == j,
                None => r is None,
            },
    {
        match self {
            Wire::Object(es) => {
                proof {
                    lemma_json_object(*es);
                }
                let ghost e = entries(es@);
                let mut i: usize = 0;
                assert(e.skip(0) =~= e);
                while i < es.len()
                    invariant
                        0 <= i <= es@.len(),
                        e == entries(es@),
                        field(json(*self), key@) == entries_get(e.skip(i as int), key@),
                    decreases es.len() - i,
                {
                    proof {
                        assert(e.skip(i as int).drop_first() =~= e.skip(i + 1));
                        assert(e.skip(i as int)[0] == e[i as int]);
                    }
                    if str_eq(es[i].0.as_str(), key) {
                        return Some(&es[i].1);
                    }
                    i = i + 1;
                }
                None
            },
            _ => None,
        }
    }

    /// The string when this is a string (`Value::as_str`).
    pub fn as_str(&self) -> (r: Option<&String>)
        ensures
            match json(*self) {
                Json::Str(s) => r matches Some(t) && t@ == s,
                _ => r is None,
            },
    {
        match self {
            Wire::Str(s) => Some(s),
            _ => None,
        }
    }

    /// The elements when this is an array (`Value::as_array`).
    pub fn as_array(&self) -> (r: Option<&Vec<Wire>>)
        ensures
            match json(*self) {
                Json::Array(s) => r matches Some(v) && jsons(v@) == s,
                _ => r is None,
            },
    {
        match self {
            Wire::Array(v) => {
                proof {
                    lemma_json_array(*v);
                }
                Some(v)
            },
            _ => None,
        }
    }
}

/// A string value.
pub fn jstr(s: &str) -> (w: Wire)
    ensures
        json(w) == Json::Str(s@),
{
    Wire::Str(String::from_str(s))
}

/// A string value owning `s`.
pub fn jstring(s: String) -> (w: Wire)
    ensures
        json(w) == Json::Str(s@),
{
    Wire::Str(s)
}

/// A UUID value, rendered as JSON renders a `uuid::Uuid`: its hyphenated string.
pub fn juuid(id: u128) -> (w: Wire)
    ensures
        json(w) == Json::Str(uuid_text(id)),
{
    Wire::Str(uuid_string(id))
}

/// An object under construction: push fields, then close it.
pub fn obj_push(fields: &mut Vec<(String, Wire)>, key: &str, value: Wire)
    ensures
        entries(final(fields)@) == entries(old(fields)@).push((key@, json(value))),
{
    let ghost value_json = json(value);
    let ghost before = entries(fields@);
    fields.push((String::from_str(key), value));
    proof {
        assert(entries(fields@) =~= before.push((key@, value_json)));
    }
}

/// Close an object.
pub fn obj(fields: Vec<(String, Wire)>) -> (w: Wire)
    ensures
        json(w) == Json::Object(entries(fields@)),
{
    proof {
        lemma_json_object(fields);
    }
    Wire::Object(fields)
}

/// Push an element onto an array under construction.
pub fn arr_push(items: &mut Vec<Wire>, value: Wire)
    ensures
        jsons(final(items)@) == jsons(old(items)@).push(json(value)),
{
    let ghost value_json = json(value);
    let ghost before = jsons(items@);
    items.push(value);
    proof {
        assert(jsons(items@) =~= before.push(value_json));
    }
}

/// Close an array.
pub fn arr(items: Vec<Wire>) -> (w: Wire)
    ensures
        json(w) == Json::Array(jsons(items@)),
{
    proof {
        lemma_json_array(items);
    }
    Wire::Array(items)
}

/// An array of strings.
pub fn jstr_array(items: &[String]) -> (w: Wire)
    ensures
        json(w) == Json::Array(items@.map_values(|s: String| Json::Str(s@))),
{
    let mut v: Vec<Wire> = Vec::new();
    let mut i: usize = 0;
    while i < items.len()
        invariant
            0 <= i <= items@.len(),
            jsons(v@) == items@.take(i as int).map_values(|s: String| Json::Str(s@)),
        decreases items.len() - i,
    {
        arr_push(&mut v, jstring(items[i].clone()));
        proof {
            assert(items@.take(i + 1).map_values(|s: String| Json::Str(s@)) =~= items@.take(
                i as int,
            ).map_values(|s: String| Json::Str(s@)).push(Json::Str(items@[i as int]@)));
        }
        i = i + 1;
    }
    proof {
        assert(items@.take(items@.len() as int) =~= items@);
    }
    arr(v)
}


impl Wire {
    /// A copy of this value.
    pub fn duplicate(&self) -> (r: Wire)
        ensures
            json(r) == json(*self),
        decreases self,
    {
        match self {
            Wire::Null => Wire::Null,
            Wire::Bool(b) => Wire::Bool(*b),
            Wire::Str(s) => Wire::Str(s.clone()),
            Wire::Int(i) => Wire::Int(*i),
            Wire::UInt(u) => Wire::UInt(*u),
            Wire::F32(b) => Wire::F32(*b),
            Wire::Number(s) => Wire::Number(s.clone()),
            Wire::Array(v) => {
                proof {
                    lemma_json_array(*v);
                }
                let mut out: Vec<Wire> = Vec::new();
                let mut i: usize = 0;
                while i < v.len()
                    invariant
                        0 <= i <= v@.len(),
                        jsons(out@) == jsons(v@).take(i as int),
                        *self == Wire::Array(*v),
                    decreases v.len() - i,
                {
                    proof {
                        assert(decreases_to!(v@ => v@[i as int]));
                        assert(decreases_to!(*v => v@));
                        assert(decreases_to!(*self => (*self)->Array_0));
                        assert((*self)->Array_0 == *v);
                    }
                    let e = v[i].duplicate();
                    arr_push(&mut out, e);
                    assert(jsons(out@) =~= jsons(v@).take(i + 1));
                    i = i + 1;
                }
                assert(jsons(v@).take(v@.len() as int) =~= jsons(v@));
                arr(out)
            },
            Wire::Object(v) => {
                proof {
                    lemma_json_object(*v);
                }
                let mut out: Vec<(String, Wire)> = Vec::new();
                let mut i: usize = 0;
                while i < v.len()
                    invariant
                        0 <= i <= v@.len(),
                        entries(out@) == entries(v@).take(i as int),
                        *self == Wire::Object(*v),
                    decreases v.len() - i,
                {
                    proof {
                        assert(decreases_to!(v@[i as int] => v@[i as int].1));
                        assert(decreases_to!(v@ => v@[i as int]));
                        assert(decreases_to!(*v => v@));
                        assert(decreases_to!(*self => (*self)->Object_0));
                        assert((*self)->Object_0 == *v);
                    }
                    let e = v[i].1.duplicate();
                    let ghost before = entries(out@);
                    let ghost ej = json(e);
                    out.push((v[i].0.clone(), e));
                    assert(entries(out@) =~= before.push((v@[i as int].0@, ej)));
                    assert(entries(out@) =~= entries(v@).take(i + 1));
                    i = i + 1;
                }
                assert(entries(v@).take(v@.len() as int) =~= entries(v@));
                obj(out)
            },
        }
    }
}

} // verus!
