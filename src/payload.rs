//! Payload classification and the flattening of structured payloads into
//! `(key path, value)` pairs.
//!
//! A structured payload is handed to the flattening as a [`Tree`], whatever
//! encoding it came in. Numbers in a tree are already rendered: a `Number`
//! leaf holds the decimal text of a finite 64-bit float, and string leaves
//! have been coerced (see `coerce`) into `Bool`, `Number` or `Null`.

use crate::text::push_char;
use vstd::prelude::*;
use vstd::utf8::{decode_utf8, valid_utf8};

verus! {

/// One segment of a key path: a map key or an array index.
#[derive(Debug, Clone, PartialEq, Eq)]
pub enum Key {
    String(String),
    Int(usize),
}

/// A map key as a structured payload holds it. Keys of the text format are
/// always `Text`; the binary format allows other scalars as keys.
#[derive(Debug)]
pub enum MapKey {
    Text(String),
    Bool(bool),
    Nil,
    Unsigned(u64),
    /// A key that names no path segment (a float, a negative integer, a
    /// byte string, a container).
    Other,
}

/// A structured payload, independent of its encoding.
#[derive(Debug)]
pub enum Tree {
    Null,
    Bool(bool),
    /// The decimal text of a finite 64-bit float.
    Number(String),
    Array(Vec<Tree>),
    Object(Vec<(MapKey, Tree)>),
}

/// The path segment that a map key names, if any: `true` is index 1, `false`
/// and nil are index 0.
pub open spec fn key_of(k: MapKey) -> Option<Key> {
    match k {
        MapKey::Text(s) => Some(Key::String(s)),
        MapKey::Bool(b) => Some(Key::Int(
            if b {
                1
            } else {
                0
            },
        )),
        MapKey::Nil => Some(Key::Int(0)),
        MapKey::Unsigned(n) => if n <= usize::MAX {
            Some(Key::Int(n as usize))
        } else {
            None
        },
        MapKey::Other => None,
    }
}

/// The value text of a boolean leaf.
pub open spec fn flag_text(b: bool) -> Seq<char> {
    if b {
        seq!['1']
    } else {
        seq!['0']
    }
}

/// Number of leading map entries whose keys name a path segment, counted
/// from `i`: the walk of a map stops at the first key that names none.
pub open spec fn keyed_prefix(es: Seq<(MapKey, Tree)>, i: int) -> int
    decreases es.len() - i,
{
    if 0 <= i < es.len() && key_of(es[i].0) is Some {
        keyed_prefix(es, i + 1)
    } else {
        i
    }
}

/// The `(key path, value)` pairs of `t` in walk order, each path prefixed
/// by `path`. Null leaves contribute nothing.
pub open spec fn flatten(t: Tree, path: Seq<Key>) -> Seq<(Seq<Key>, Seq<char>)>
    decreases t, 0int,
{
    match t {
        Tree::Null => seq![],
        Tree::Bool(b) => seq![(path, flag_text(b))],
        Tree::Number(v) => seq![(path, v@)],
        Tree::Array(items) => flatten_items(items@, path, items@.len() as int),
        Tree::Object(entries) => flatten_entries(entries@, path, keyed_prefix(entries@, 0)),
    }
}

/// The pairs of the first `n` array elements.
pub open spec fn flatten_items(items: Seq<Tree>, path: Seq<Key>, n: int) -> Seq<
    (Seq<Key>, Seq<char>),
>
    decreases items, n,
{
    if n <= 0 || n > items.len() {
        seq![]
    } else {
        flatten_items(items, path, n - 1) + flatten(items[n - 1], path.push(Key::Int((n - 1) as usize)))
    }
}

/// The pairs of the first `n` map entries.
pub open spec fn flatten_entries(es: Seq<(MapKey, Tree)>, path: Seq<Key>, n: int) -> Seq<
    (Seq<Key>, Seq<char>),
>
    decreases es, n,
{
    if n <= 0 || n > es.len() {
        seq![]
    } else {
        flatten_entries(es, path, n - 1) + match key_of(es[n - 1].0) {
            Some(k) => flatten(es[n - 1].1, path.push(k)),
            None => seq![],
        }
    }
}

/// Every path in `flatten(t, path)` extends `path`, strictly so below a
/// container.
proof fn lemma_flatten_paths(t: Tree, path: Seq<Key>)
    ensures
        forall|i: int|
            0 <= i < flatten(t, path).len() ==> (#[trigger] flatten(t, path)[i]).0.len()
                >= path.len(),
        (t is Array || t is Object) ==> forall|i: int|
            0 <= i < flatten(t, path).len() ==> (#[trigger] flatten(t, path)[i]).0.len()
                > path.len(),
    decreases t, 0int,
{
    match t {
        Tree::Array(items) => {
            lemma_items_paths(items@, path, items@.len() as int);
            assert(flatten(t, path) == flatten_items(items@, path, items@.len() as int));
        },
        Tree::Object(entries) => {
            lemma_entries_paths(entries@, path, keyed_prefix(entries@, 0));
            assert(flatten(t, path) == flatten_entries(entries@, path, keyed_prefix(entries@, 0)));
        },
        Tree::Null => {},
        Tree::Bool(b) => {
            assert(flatten(t, path) == seq![(path, flag_text(b))]);
        },
        Tree::Number(v) => {
            assert(flatten(t, path) == seq![(path, v@)]);
        },
    }
}

proof fn lemma_items_paths(items: Seq<Tree>, path: Seq<Key>, n: int)
    ensures
        forall|i: int|
            0 <= i < flatten_items(items, path, n).len() ==> (#[trigger] flatten_items(
                items,
                path,
                n,
            )[i]).0.len() > path.len(),
    decreases items, n,
{
    if 0 < n <= items.len() {
        lemma_items_paths(items, path, n - 1);
        let p = path.push(Key::Int((n - 1) as usize));
        lemma_flatten_paths(items[n - 1], p);
        let a = flatten_items(items, path, n - 1);
        let b = flatten(items[n - 1], p);
        assert forall|i: int| 0 <= i < (a + b).len() implies #[trigger] (a + b)[i].0.len()
            > path.len() by {
            if i >= a.len() {
                assert((a + b)[i] == b[i - a.len()]);
            }
        }
    }
}

proof fn lemma_entries_paths(es: Seq<(MapKey, Tree)>, path: Seq<Key>, n: int)
    ensures
        forall|i: int|
            0 <= i < flatten_entries(es, path, n).len() ==> (#[trigger] flatten_entries(
                es,
                path,
                n,
            )[i]).0.len() > path.len(),
    decreases es, n,
{
    if 0 < n <= es.len() {
        lemma_entries_paths(es, path, n - 1);
        let a = flatten_entries(es, path, n - 1);
        match key_of(es[n - 1].0) {
            Some(k) => {
                let p = path.push(k);
                lemma_flatten_paths(es[n - 1].1, p);
                let b = flatten(es[n - 1].1, p);
                assert forall|i: int| 0 <= i < (a + b).len() implies #[trigger] (a + b)[i].0.len()
                    > path.len() by {
                    if i >= a.len() {
                        assert((a + b)[i] == b[i - a.len()]);
                    }
                }
            },
            None => {
                assert(a + seq![] =~= a);
            },
        }
    }
}

pub open spec fn entries_view(v: Seq<(Vec<Key>, String)>) -> Seq<(Seq<Key>, Seq<char>)> {
    v.map_values(|e: (Vec<Key>, String)| (e.0@, e.1@))
}

proof fn lemma_entries_view_push(v: Seq<(Vec<Key>, String)>, e: (Vec<Key>, String))
    ensures
        entries_view(v.push(e)) == entries_view(v).push((e.0@, e.1@)),
{
    assert(entries_view(v.push(e)) =~= entries_view(v).push((e.0@, e.1@)));
}

fn copy_key(k: &Key) -> (r: Key)
    ensures
        r == *k,
{
    match k {
        Key::String(s) => Key::String(s.clone()),
        Key::Int(i) => Key::Int(*i),
    }
}

fn map_key(k: &MapKey) -> (r: Option<Key>)
    ensures
        r == key_of(*k),
{
    match k {
        MapKey::Text(s) => Some(Key::String(s.clone())),
        MapKey::Bool(b) => Some(Key::Int(
            if *b {
                1
            } else {
                0
            },
        )),
        MapKey::Nil => Some(Key::Int(0)),
        MapKey::Unsigned(n) => if *n as u128 <= usize::MAX as u128 {
            Some(Key::Int(*n as usize))
        } else {
            None
        },
        MapKey::Other => None,
    }
}

fn flag_string(b: bool) -> (r: String)
    ensures
        r@ == flag_text(b),
{
    let mut r = String::new();
    push_char(&mut r, if b { '1' } else { '0' });
    r
}

/// Appends the pairs of `t` under `path` to `out`.
fn flatten_into(t: &Tree, path: &Vec<Key>, out: &mut Vec<(Vec<Key>, String)>)
    ensures
        entries_view(final(out)@) == entries_view(old(out)@) + flatten(*t, path@),
    decreases t,
{
    broadcast use vstd::std_specs::vec::group_vec_axioms;

    let ghost start = entries_view(out@);
    match t {
        Tree::Null => {
            assert(start + flatten(*t, path@) =~= start);
        },
        Tree::Bool(b) => {
            let ghost before = out@;
            let leaf = (copy_path(path), flag_string(*b));
            proof {
                lemma_entries_view_push(before, leaf);
            }
            out.push(leaf);
            assert(start + flatten(*t, path@) =~= start.push((path@, flag_text(*b))));
        },
        Tree::Number(v) => {
            let ghost before = out@;
            let leaf = (copy_path(path), v.clone());
            proof {
                lemma_entries_view_push(before, leaf);
            }
            out.push(leaf);
            assert(start + flatten(*t, path@) =~= start.push((path@, v@)));
        },
        Tree::Array(items) => {
            let mut i: usize = 0;
            while i < items.len()
                invariant
                    *t == Tree::Array(*items),
                    i <= items@.len(),
                    entries_view(out@) == start + flatten_items(items@, path@, i as int),
                decreases items.len() - i,
            {
                let mut p = copy_path(path);
                p.push(Key::Int(i));
                proof {
                    assert(decreases_to!(*t => (*t)->Array_0));
                    assert(decreases_to!(*items => items[i as int]));
                }
                flatten_into(&items[i], &p, out);
                assert(start + flatten_items(items@, path@, i + 1) =~= start + flatten_items(
                    items@,
                    path@,
                    i as int,
                ) + flatten(items@[i as int], path@.push(Key::Int(i))));
                i += 1;
            }
        },
        Tree::Object(entries) => {
            let mut i: usize = 0;
            while i < entries.len()
                invariant
                    *t == Tree::Object(*entries),
                    i <= entries@.len(),
                    keyed_prefix(entries@, i as int) == keyed_prefix(entries@, 0),
                    entries_view(out@) == start + flatten_entries(entries@, path@, i as int),
                ensures
                    entries_view(out@) == start + flatten_entries(
                        entries@,
                        path@,
                        keyed_prefix(entries@, 0),
                    ),
                decreases entries.len() - i,
            {
                match map_key(&entries[i].0) {
                    Some(k) => {
                        let mut p = copy_path(path);
                        p.push(k);
                        proof {
                            assert(decreases_to!(*t => (*t)->Object_0));
                            assert(decreases_to!(*entries => entries[i as int]));
                            assert(decreases_to!(entries[i as int] => entries[i as int].1));
                        }
                        flatten_into(&entries[i].1, &p, out);
                        assert(start + flatten_entries(entries@, path@, i + 1) =~= start
                            + flatten_entries(entries@, path@, i as int) + flatten(
                            entries@[i as int].1,
                            path@.push(k),
                        ));
                    },
                    None => {
                        break ;
                    },
                }
                i += 1;
            }
        },
    }
}

/// A copy of `path`.
fn copy_path(path: &Vec<Key>) -> (r: Vec<Key>)
    ensures
        r@ == path@,
{
    let mut r: Vec<Key> = Vec::new();
    let mut i: usize = 0;
    while i < path.len()
        invariant
            i <= path@.len(),
            r@ == path@.subrange(0, i as int),
        decreases path.len() - i,
    {
        r.push(copy_key(&path[i]));
        assert(path@.subrange(0, i + 1) =~= path@.subrange(0, i as int).push(path@[i as int]));
        i += 1;
    }
    assert(path@.subrange(0, path@.len() as int) =~= path@);
    r
}

/// The numbers extracted from one payload.
#[derive(Debug)]
pub enum Values {
    /// One value at the root of the payload.
    Single(String),
    /// `(key path, value)` pairs in walk order.
    Many(Vec<(Vec<Key>, String)>),
}

/// `r` is what extraction makes of the pairs `f` of a walk: nothing when
/// there are none, a single value for one pair at the root, else the pairs.
pub open spec fn extracted(f: Seq<(Seq<Key>, Seq<char>)>, r: Option<Values>) -> bool {
    if f.len() == 0 {
        r is None
    } else if f.len() == 1 && f[0].0.len() == 0 {
        r matches Some(Values::Single(v)) && v@ == f[0].1
    } else {
        r matches Some(Values::Many(m)) && entries_view(m@) == f
    }
}

impl Values {
    /// Extracts the values of a structured payload.
    pub fn from_tree(tree: &Tree) -> (r: Option<Values>)
        ensures
            extracted(flatten(*tree, seq![]), r),
            r matches Some(Values::Many(m)) ==> forall|i: int|
                0 <= i < m@.len() ==> (#[trigger] m@[i]).0@.len() > 0,
    {
        proof {
            lemma_flatten_paths(*tree, seq![]);
        }
        let mut out: Vec<(Vec<Key>, String)> = Vec::new();
        let root: Vec<Key> = Vec::new();
        proof {
            assert(entries_view(out@) =~= seq![]);
        }
        flatten_into(tree, &root, &mut out);
        assert(entries_view(out@) =~= flatten(*tree, seq![]));
        if out.len() == 0 {
            None
        } else if out.len() == 1 && out[0].0.len() == 0 {
            let ghost f = entries_view(out@);
            let last = out.pop();
            match last {
                Some(e) => {
                    assert(f[0] == (e.0@, e.1@));
                    Some(Values::Single(e.1))
                },
                None => None,
            }
        } else {
            proof {
                let f = flatten(*tree, seq![]);
                assert forall|i: int| 0 <= i < out@.len() implies (#[trigger] out@[i]).0@.len()
                    > 0 by {
                    assert(f[i] == (out@[i].0@, out@[i].1@));
                    if !(tree is Array || tree is Object) {
                        assert(f.len() == 1 && f[0].0.len() == 0);
                    }
                }
            }
            Some(Values::Many(out))
        }
    }
}

#[verifier::external_type_specification]
#[verifier::external_body]
pub struct ExJsonValue(serde_json::Value);

#[verifier::external_type_specification]
#[verifier::external_body]
pub struct ExMsgpackValue(rmpv::Value);

/// Whether the JSON parser accepts `s` as one whole document.
pub uninterp spec fn json_accepts(s: Seq<char>) -> bool;

/// Whether the MessagePack decoder reads a value from the start of `b`.
pub uninterp spec fn msgpack_accepts(b: Seq<u8>) -> bool;

/// Relies on `std::str::from_utf8`: succeeds exactly on valid UTF-8, and
/// the text is what the bytes encode.
#[verifier::external_body]
fn utf8_text(b: &[u8]) -> (r: Option<&str>)
    ensures
        r is Some <==> valid_utf8(b@),
        r matches Some(s) ==> s@ == decode_utf8(b@),
{
    std::str::from_utf8(b).ok()
}

/// Relies on `serde_json::from_str`: parses `s` as one JSON document.
#[verifier::external_body]
fn parse_json(s: &str) -> (r: Option<serde_json::Value>)
    ensures
        r is Some <==> json_accepts(s@),
{
    serde_json::from_str(s).ok()
}

/// Relies on `rmpv::decode::read_value`: reads one MessagePack value from
/// the start of `b`.
#[verifier::external_body]
fn parse_msgpack(b: &[u8]) -> (r: Option<rmpv::Value>)
    ensures
        r is Some <==> msgpack_accepts(b@),
{
    let mut rd = b;
    rmpv::decode::read_value(&mut rd).ok()
}

/// A classified payload.
#[derive(Debug)]
pub enum Payload {
    /// UTF-8 text that is no JSON document.
    String(String),
    /// A JSON document.
    Json(serde_json::Value),
    /// A MessagePack value (the bytes were no UTF-8).
    MessagePack(rmpv::Value),
}

/// `r` is the classification of the bytes `b`: text first (JSON when it
/// parses as such, else plain text), then MessagePack; nothing when neither.
pub open spec fn classified(b: Seq<u8>, r: Option<Payload>) -> bool {
    if valid_utf8(b) {
        if json_accepts(decode_utf8(b)) {
            r matches Some(Payload::Json(_))
        } else {
            r matches Some(Payload::String(s)) && s@ == decode_utf8(b)
        }
    } else if msgpack_accepts(b) {
        r matches Some(Payload::MessagePack(_))
    } else {
        r is None
    }
}

impl Payload {
    /// Classifies a raw payload.
    pub fn new(payload: Vec<u8>) -> (r: Option<Payload>)
        ensures
            classified(payload@, r),
    {
        match utf8_text(payload.as_slice()) {
            Some(text) => match parse_json(text) {
                Some(json) => Some(Payload::Json(json)),
                None => Some(Payload::String(text.to_owned())),
            },
            None => match parse_msgpack(payload.as_slice()) {
                Some(value) => Some(Payload::MessagePack(value)),
                None => None,
            },
        }
    }
}

} // verus!
