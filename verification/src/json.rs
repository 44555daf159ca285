//! The JSON values that requests and data records carry, and the readers
//! that turn request arguments into plain values.
use vstd::prelude::*;
use crate::text::{str_eq, views};

verus! {

/// A JSON value. Numbers carry their JSON text and, when they are
/// non-negative integers that fit, their `u64` value; arrays and objects
/// carry their compact JSON text beside their contents. Object members come
/// in key order, each key once.
pub enum JsonValue {
    Null,
    Bool(bool),
    Number(Option<u64>, String),
    Str(String),
    Array(Vec<JsonValue>, String),
    Object(Vec<(String, JsonValue)>, String),
}

/// The arguments of an operation: the members of the request object, each
/// key once (none when the request holds no object). A key is looked up by
/// its first entry.
pub struct Args {
    pub entries: Vec<(String, JsonValue)>,
}

/// The value an optional reference points to.
pub open spec fn deref_opt(x: Option<&JsonValue>) -> Option<JsonValue> {
    match x {
        Some(v) => Some(*v),
        None => None,
    }
}

/// Index of the first entry whose key is `key`.
pub open spec fn first_key_index(es: Seq<(String, JsonValue)>, key: Seq<char>) -> Option<int>
    decreases es.len(),
{
    if es.len() == 0 {
        None
    } else if es[0].0@ == key {
        Some(0)
    } else {
        match first_key_index(es.skip(1), key) {
            Some(i) => Some(i + 1),
            None => None,
        }
    }
}

/// The value stored under `key` (what `Value::get` returns on an object).
pub open spec fn lookup(es: Seq<(String, JsonValue)>, key: Seq<char>) -> Option<JsonValue> {
    match first_key_index(es, key) {
        Some(i) => Some(es[i].1),
        None => None,
    }
}

proof fn lemma_first_key_index(es: Seq<(String, JsonValue)>, key: Seq<char>, i: int)
    requires
        0 <= i <= es.len(),
        forall|j: int| 0 <= j < i ==> es[j].0@ != key,
    ensures
        i < es.len() && es[i].0@ == key ==> first_key_index(es, key) == Some(i),
        i == es.len() ==> first_key_index(es, key) is None,
    decreases i,
{
    if i > 0 {
        lemma_first_key_index(es.skip(1), key, i - 1);
    } else if es.len() > 0 {
    }
}

/// Finds the entry stored under `key`.
pub fn find_key(es: &Vec<(String, JsonValue)>, key: &str) -> (res: Option<usize>)
    ensures
        res matches Some(i) ==> first_key_index(es@, key@) == Some(i as int) && i < es@.len(),
        res is None ==> first_key_index(es@, key@) is None,
{
    let n = es.len();
    let mut i: usize = 0;
    while i < n
        invariant
            i <= n == es@.len(),
            forall|j: int| 0 <= j < i ==> es@[j].0@ != key@,
        decreases n - i,
    {
        if str_eq(es[i].0.as_str(), key) {
            proof {
                lemma_first_key_index(es@, key@, i as int);
            }
            return Some(i);
        }
        i = i + 1;
    }
    proof {
        lemma_first_key_index(es@, key@, n as int);
    }
    None
}

impl Args {
    pub open spec fn get_spec(&self, key: Seq<char>) -> Option<JsonValue> {
        lookup(self.entries@, key)
    }

    /// The argument stored under `key`.
    pub fn get(&self, key: &str) -> (res: Option<&JsonValue>)
        ensures
            res matches Some(v) ==> self.get_spec(key@) == Some(*v),
            res is None ==> self.get_spec(key@) is None,
    {
        match find_key(&self.entries, key) {
            Some(i) => Some(&self.entries[i].1),
            None => None,
        }
    }
}

// ---------------------------------------------------------------------------
// Scalar readers
// ---------------------------------------------------------------------------

/// A string argument.
pub open spec fn str_of(v: Option<JsonValue>) -> Option<Seq<char>> {
    match v {
        Some(JsonValue::Str(s)) => Some(s@),
        _ => None,
    }
}

/// A boolean argument.
pub open spec fn bool_of(v: Option<JsonValue>) -> Option<bool> {
    match v {
        Some(JsonValue::Bool(b)) => Some(b),
        _ => None,
    }
}

/// An unsigned integer argument.
pub open spec fn u64_of(v: Option<JsonValue>) -> Option<u64> {
    match v {
        Some(JsonValue::Number(Some(n), _)) => Some(n),
        _ => None,
    }
}

/// An unsigned integer argument that fits in `usize`.
pub open spec fn usize_of(v: Option<JsonValue>) -> Option<usize> {
    match u64_of(v) {
        Some(n) => if n <= usize::MAX {
            Some(n as usize)
        } else {
            None
        },
        None => None,
    }
}

pub fn str_arg(args: &Args, key: &str) -> (res: Option<String>)
    ensures
        res matches Some(s) ==> str_of(args.get_spec(key@)) == Some(s@),
        res is None ==> str_of(args.get_spec(key@)) is None,
{
    match args.get(key) {
        Some(JsonValue::Str(s)) => Some(s.clone()),
        _ => None,
    }
}

pub fn opt_bool_arg(args: &Args, key: &str) -> (res: Option<bool>)
    ensures
        res == bool_of(args.get_spec(key@)),
{
    match args.get(key) {
        Some(JsonValue::Bool(b)) => Some(*b),
        _ => None,
    }
}

pub fn bool_arg(args: &Args, key: &str, default: bool) -> (res: bool)
    ensures
        res == match bool_of(args.get_spec(key@)) {
            Some(b) => b,
            None => default,
        },
{
    match opt_bool_arg(args, key) {
        Some(b) => b,
        None => default,
    }
}

pub fn u64_arg(args: &Args, key: &str) -> (res: Option<u64>)
    ensures
        res == u64_of(args.get_spec(key@)),
{
    match args.get(key) {
        Some(JsonValue::Number(Some(n), _)) => Some(*n),
        _ => None,
    }
}

pub fn usize_arg(args: &Args, key: &str) -> (res: Option<usize>)
    ensures
        res == usize_of(args.get_spec(key@)),
{
    match u64_arg(args, key) {
        Some(n) => if (n as u128) <= (usize::MAX as u128) {
            Some(n as usize)
        } else {
            None
        },
        None => None,
    }
}

// ---------------------------------------------------------------------------
// Values as text
// ---------------------------------------------------------------------------

/// How a value reads as a search term: strings as themselves, booleans as
/// `True`/`False`, null as `None`, anything else as its JSON text.
pub open spec fn search_text(v: JsonValue) -> Seq<char> {
    match v {
        JsonValue::Str(s) => s@,
        JsonValue::Bool(b) => if b {
            "True"@
        } else {
            "False"@
        },
        JsonValue::Null => "None"@,
        JsonValue::Number(_, t) => t@,
        JsonValue::Array(_, t) => t@,
        JsonValue::Object(_, t) => t@,
    }
}

pub fn value_to_search_string(v: &JsonValue) -> (res: String)
    ensures
        res@ == search_text(*v),
{
    match v {
        JsonValue::Str(s) => s.clone(),
        JsonValue::Bool(b) => if *b {
            "True".to_owned()
        } else {
            "False".to_owned()
        },
        JsonValue::Null => "None".to_owned(),
        JsonValue::Number(_, t) => t.clone(),
        JsonValue::Array(_, t) => t.clone(),
        JsonValue::Object(_, t) => t.clone(),
    }
}

/// How a value reads as plain text: strings as themselves, anything else as
/// its JSON text.
pub open spec fn plain_text(v: JsonValue) -> Seq<char> {
    match v {
        JsonValue::Str(s) => s@,
        JsonValue::Bool(b) => if b {
            "true"@
        } else {
            "false"@
        },
        JsonValue::Null => "null"@,
        JsonValue::Number(_, t) => t@,
        JsonValue::Array(_, t) => t@,
        JsonValue::Object(_, t) => t@,
    }
}

pub fn value_to_plain_string(v: &JsonValue) -> (res: String)
    ensures
        res@ == plain_text(*v),
{
    match v {
        JsonValue::Str(s) => s.clone(),
        JsonValue::Bool(b) => if *b {
            "true".to_owned()
        } else {
            "false".to_owned()
        },
        JsonValue::Null => "null".to_owned(),
        JsonValue::Number(_, t) => t.clone(),
        JsonValue::Array(_, t) => t.clone(),
        JsonValue::Object(_, t) => t.clone(),
    }
}

// ---------------------------------------------------------------------------
// Values as lists of strings
// ---------------------------------------------------------------------------

/// What one value contributes to a list: nothing for null or empty text,
/// else its search text.
pub open spec fn list_item(v: JsonValue) -> Seq<Seq<char>> {
    match v {
        JsonValue::Null => seq![],
        _ => if search_text(v).len() == 0 {
            seq![]
        } else {
            seq![search_text(v)]
        },
    }
}

/// The items of an array, as list entries.
pub open spec fn items_list(xs: Seq<JsonValue>) -> Seq<Seq<char>>
    decreases xs.len(),
{
    if xs.len() == 0 {
        seq![]
    } else {
        items_list(xs.drop_last()) + list_item(xs.last())
    }
}

/// A value read as a list of strings: absent or null gives the empty list,
/// an array gives its non-empty items, anything else gives itself when its
/// text is not empty.
pub open spec fn list_of(x: Option<JsonValue>) -> Seq<Seq<char>> {
    match x {
        None => seq![],
        Some(JsonValue::Array(xs, _)) => items_list(xs@),
        Some(v) => list_item(v),
    }
}

fn push_item(out: &mut Vec<String>, v: &JsonValue)
    ensures
        views(final(out)@) == views(old(out)@) + list_item(*v),
{
    match v {
        JsonValue::Null => {
            assert(views(out@) =~= views(out@) + list_item(*v));
        },
        _ => {
            let s = value_to_search_string(v);
            if !s.as_str().is_empty() {
                let ghost before = out@;
                out.push(s);
                assert(views(out@) =~= views(before) + list_item(*v));
            } else {
                assert(views(out@) =~= views(out@) + list_item(*v));
            }
        },
    }
}

/// Reads an argument as a list of strings, as [`list_of`] says.
pub fn as_list_value(x: Option<&JsonValue>) -> (res: Vec<String>)
    ensures
        views(res@) == list_of(deref_opt(x)),
{
    let mut out: Vec<String> = Vec::new();
    match x {
        None => {
            assert(views(out@) =~= Seq::<Seq<char>>::empty());
        },
        Some(JsonValue::Array(xs, _)) => {
            let n = xs.len();
            let mut i: usize = 0;
            assert(xs@.take(0) =~= Seq::<JsonValue>::empty());
            while i < n
                invariant
                    i <= n == xs@.len(),
                    views(out@) == items_list(xs@.take(i as int)),
                decreases n - i,
            {
                push_item(&mut out, &xs[i]);
                assert(xs@.take(i + 1).drop_last() =~= xs@.take(i as int));
                i = i + 1;
            }
            assert(xs@.take(n as int) =~= xs@);
        },
        Some(v) => {
            assert(views(out@) =~= Seq::<Seq<char>>::empty());
            push_item(&mut out, v);
            assert(views(out@) =~= list_item(*v));
        },
    }
    out
}

// ---------------------------------------------------------------------------
// Lookup over joined and filtered entry lists
// ---------------------------------------------------------------------------

/// The index found for a key is that of an entry with that key.
pub proof fn lemma_first_key_index_found(es: Seq<(String, JsonValue)>, key: Seq<char>)
    ensures
        first_key_index(es, key) matches Some(i) ==> 0 <= i < es.len() && es[i].0@ == key,
    decreases es.len(),
{
    if es.len() > 0 && es[0].0@ != key {
        lemma_first_key_index_found(es.skip(1), key);
    }
}

pub proof fn lemma_lookup_cons(e: (String, JsonValue), rest: Seq<(String, JsonValue)>, k: Seq<char>)
    ensures
        lookup(seq![e] + rest, k) == if e.0@ == k {
            Some(e.1)
        } else {
            lookup(rest, k)
        },
{
    let es = seq![e] + rest;
    assert(es.skip(1) =~= rest);
    assert(es[0] == e);
    if e.0@ != k {
        lemma_first_key_index_found(rest, k);
        match first_key_index(rest, k) {
            Some(i) => {
                assert(es[i + 1] == rest[i]);
            },
            None => {},
        }
    }
}

/// Looking a key up in `a + b` finds it in `a` first.
pub proof fn lemma_lookup_append(a: Seq<(String, JsonValue)>, b: Seq<(String, JsonValue)>, k: Seq<char>)
    ensures
        lookup(a + b, k) == match lookup(a, k) {
            Some(v) => Some(v),
            None => lookup(b, k),
        },
    decreases a.len(),
{
    if a.len() == 0 {
        assert(a + b =~= b);
    } else {
        let e = a[0];
        assert(a =~= seq![e] + a.skip(1));
        assert(a + b =~= seq![e] + (a.skip(1) + b));
        lemma_lookup_cons(e, a.skip(1), k);
        lemma_lookup_cons(e, a.skip(1) + b, k);
        lemma_lookup_append(a.skip(1), b, k);
    }
}

/// The entries whose keys are not in `ks`, in order.
pub open spec fn without_keys(es: Seq<(String, JsonValue)>, ks: Set<Seq<char>>) -> Seq<
    (String, JsonValue),
>
    decreases es.len(),
{
    if es.len() == 0 {
        seq![]
    } else if ks.contains(es.last().0@) {
        without_keys(es.drop_last(), ks)
    } else {
        without_keys(es.drop_last(), ks).push(es.last())
    }
}

/// Dropping the entries of other keys does not change a lookup.
pub proof fn lemma_lookup_without_keys(es: Seq<(String, JsonValue)>, ks: Set<Seq<char>>, k: Seq<char>)
    requires
        !ks.contains(k),
    ensures
        lookup(without_keys(es, ks), k) == lookup(es, k),
    decreases es.len(),
{
    if es.len() > 0 {
        let d = es.drop_last();
        let e = es.last();
        assert(es =~= d + seq![e]);
        lemma_lookup_without_keys(d, ks, k);
        lemma_lookup_append(d, seq![e], k);
        lemma_lookup_cons(e, seq![], k);
        assert(seq![e] + Seq::<(String, JsonValue)>::empty() =~= seq![e]);
        if !ks.contains(e.0@) {
            lemma_lookup_append(without_keys(d, ks), seq![e], k);
            assert(without_keys(d, ks).push(e) =~= without_keys(d, ks) + seq![e]);
        }
    }
}

/// No entry with a key in `ks` remains.
pub proof fn lemma_without_keys_absent(es: Seq<(String, JsonValue)>, ks: Set<Seq<char>>, k: Seq<char>)
    requires
        ks.contains(k),
    ensures
        lookup(without_keys(es, ks), k) is None,
    decreases es.len(),
{
    if es.len() > 0 {
        let d = es.drop_last();
        let e = es.last();
        lemma_without_keys_absent(d, ks, k);
        if !ks.contains(e.0@) {
            lemma_lookup_append(without_keys(d, ks), seq![e], k);
            lemma_lookup_cons(e, seq![], k);
            assert(seq![e] + Seq::<(String, JsonValue)>::empty() =~= seq![e]);
            assert(without_keys(d, ks).push(e) =~= without_keys(d, ks) + seq![e]);
        }
    }
}

/// Takes the entries whose keys are not among `ks` out of `es`, in order.
pub fn take_entries_without(es: Vec<(String, JsonValue)>, ks: &Vec<String>) -> (res: Vec<
    (String, JsonValue),
>)
    ensures
        res@ == without_keys(es@, views(ks@).to_set()),
{
    let ghost orig = es@;
    let ghost kset = views(ks@).to_set();
    let mut src = es;
    let mut out: Vec<(String, JsonValue)> = Vec::new();
    let mut i: usize = 0;
    let n = src.len();
    assert(orig.take(0) =~= Seq::<(String, JsonValue)>::empty());
    while src.len() > 0
        invariant
            i <= n == orig.len(),
            src@ == orig.skip(i as int),
            kset == views(ks@).to_set(),
            out@ == without_keys(orig.take(i as int), kset),
        decreases src@.len(),
    {
        let e = src.remove(0);
        assert(e == orig[i as int]);
        assert(orig.take(i + 1).drop_last() =~= orig.take(i as int));
        assert(orig.take(i + 1).last() == orig[i as int]);
        let drop = crate::text::contains_string(ks, e.0.as_str());
        assert(drop == kset.contains(e.0@)) by {
            if views(ks@).contains(e.0@) {
                assert(kset.contains(e.0@));
            }
        }
        if !drop {
            out.push(e);
        }
        assert(src@ =~= orig.skip(i + 1));
        i = i + 1;
    }
    assert(orig.take(i as int) =~= orig);
    out
}

} // verus!
