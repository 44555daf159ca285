//! Searching the records of data files: which records a request selects,
//! what of each is shown, and how the search stays within its budget.
use vstd::prelude::*;
use crate::budget::{
    JSON_FLATTEN_VALUE_CHARS, JSON_LARGE_LIST_ITEMS, JSON_LARGE_SCALAR_SKIP_CHARS, MAX_FILE_BYTES,
    MAX_FILE_BYTES_LIMIT, MAX_LINE_CHARS, MAX_LINE_CHARS_LIMIT, MAX_RECORDS_EXAMINED,
    MAX_RECORDS_EXAMINED_LIMIT, MAX_TOTAL_CHARS, MAX_TOTAL_CHARS_LIMIT, MAX_TOTAL_HITS,
    MAX_TOTAL_HITS_LIMIT, MIN_FILE_BYTES, MIN_LINE_CHARS, MIN_TOTAL_CHARS, MIN_TOTAL_HITS, clamped,
    clamp_u64, clamp_usize,
};
use crate::find::{Status, budget_arg, opt_view, request_terms, search_terms_of};
use crate::json::{
    Args, JsonValue, as_list_value, bool_arg, bool_of, find_key, list_of, lookup,
    opt_bool_arg, plain_text, str_arg, str_of, u64_arg, u64_of, usize_arg, usize_of,
    value_to_plain_string,
};
use crate::paths::Rejected;
use crate::scope::{GlobPlan, build_glob_args, data_glob_list, data_globs, glob_plan, strs};
use crate::records::{Record, record_view, record_views};
use crate::regexes::{Matcher, regex_matches};
use crate::text::{
    chars_of, contains_chars, contains_slice, contains_string, decimal, decimal_string, joined,
    lowercase, str_eq, string_from_chars, to_lowercase, truncate_chars, truncated,
    views,
};

verus! {

// ---------------------------------------------------------------------------
// Large fields
// ---------------------------------------------------------------------------

/// Field names that usually hold bulk text: `text`, `raw`, `content`,
/// `prompt`, `completion`, `response`, `body`, `html`, `markdown`, `token`
/// or `tokens`, alone or as an underscore-separated part, in any case.
pub open spec fn large_field_pattern() -> Seq<char> {
    r"(?i)(?:^|_)(text|raw|content|prompt|completion|response|body|html|markdown|tokens?)(?:_|$)"@
}

/// Whether a field name is one of the bulk-text names.
pub open spec fn is_large_field(key: Seq<char>) -> bool {
    regex_matches(large_field_pattern(), false, key)
}

/// A matcher built from [`large_field_pattern`].
pub open spec fn is_large_matcher(m: Matcher) -> bool {
    m.pattern_view() == large_field_pattern() && !m.is_case_insensitive()
}

/// Builds the bulk-text field matcher; `None` if `regex` refused it.
pub fn large_field_matcher() -> (res: Option<Matcher>)
    ensures
        res is Some <==> crate::regexes::regex_compiles(large_field_pattern(), false),
        res matches Some(m) ==> is_large_matcher(m),
{
    match crate::regexes::compile_regex(
        r"(?i)(?:^|_)(text|raw|content|prompt|completion|response|body|html|markdown|tokens?)(?:_|$)",
        Some(true),
    ) {
        Ok(m) => Some(m),
        Err(_) => None,
    }
}

// ---------------------------------------------------------------------------
// A record as searchable text
// ---------------------------------------------------------------------------

/// At most the first `n` elements.
pub open spec fn at_most<A>(s: Seq<A>, n: nat) -> Seq<A> {
    if s.len() <= n {
        s
    } else {
        s.take(n as int)
    }
}

/// What one scalar under field `key` contributes: nothing when bulk text
/// is not searched and the field has a bulk-text name or the text is longer
/// than the skip limit; otherwise its plain text, cut to the flatten limit.
pub open spec fn scalar_part(v: JsonValue, key: Seq<char>, search_large: bool) -> Seq<Seq<char>> {
    let s = plain_text(v);
    if !search_large && is_large_field(key) {
        seq![]
    } else if !search_large && s.len() > JSON_LARGE_SCALAR_SKIP_CHARS {
        seq![]
    } else {
        seq![at_most(s, JSON_FLATTEN_VALUE_CHARS as nat)]
    }
}

/// The texts of a value, depth first: an object's members under their own
/// names, the first items of an array under the array's field name, and
/// each scalar as [`scalar_part`] says.
pub open spec fn flat_parts(v: JsonValue, key: Seq<char>, search_large: bool) -> Seq<Seq<char>>
    decreases v,
{
    match v {
        JsonValue::Object(es, _) => flat_members(es@, search_large),
        JsonValue::Array(xs, _) => flat_items(at_most(xs@, JSON_LARGE_LIST_ITEMS as nat), key, search_large),
        _ => scalar_part(v, key, search_large),
    }
}

pub open spec fn flat_members(es: Seq<(String, JsonValue)>, search_large: bool) -> Seq<Seq<char>>
    decreases es,
{
    if es.len() == 0 {
        seq![]
    } else {
        flat_members(es.drop_last(), search_large) + flat_parts(es.last().1, es.last().0@, search_large)
    }
}

pub open spec fn flat_items(xs: Seq<JsonValue>, key: Seq<char>, search_large: bool) -> Seq<Seq<char>>
    decreases xs,
{
    if xs.len() == 0 {
        seq![]
    } else {
        flat_items(xs.drop_last(), key, search_large) + flat_parts(xs.last(), key, search_large)
    }
}

fn scalar_text(x: &JsonValue, key: &str, search_large: bool, large: &Matcher, parts: &mut Vec<String>)
    requires
        is_large_matcher(*large),
    ensures
        views(final(parts)@) == views(old(parts)@) + scalar_part(*x, key@, search_large),
{
    let ghost before = views(parts@);
    if !search_large && large.is_match(key) {
        assert(views(parts@) =~= before + scalar_part(*x, key@, search_large));
        return;
    }
    let s = value_to_plain_string(x);
    let cs = chars_of(s.as_str());
    if !search_large && cs.len() > JSON_LARGE_SCALAR_SKIP_CHARS {
        assert(views(parts@) =~= before + scalar_part(*x, key@, search_large));
        return;
    }
    let kept = if cs.len() <= JSON_FLATTEN_VALUE_CHARS {
        s
    } else {
        let mut v: Vec<char> = Vec::new();
        let mut i: usize = 0;
        while i < JSON_FLATTEN_VALUE_CHARS
            invariant
                i <= JSON_FLATTEN_VALUE_CHARS < cs@.len(),
                v@ == cs@.take(i as int),
            decreases JSON_FLATTEN_VALUE_CHARS - i,
        {
            v.push(cs[i]);
            assert(cs@.take(i + 1) =~= cs@.take(i as int).push(cs@[i as int]));
            i = i + 1;
        }
        string_from_chars(v.as_slice())
    };
    parts.push(kept);
    assert(views(parts@) =~= before + scalar_part(*x, key@, search_large));
}

/// Appends the texts of a value, as [`flat_parts`] says.
fn flatten_into(x: &JsonValue, key: &str, search_large: bool, large: &Matcher, parts: &mut Vec<String>)
    requires
        is_large_matcher(*large),
    ensures
        views(final(parts)@) == views(old(parts)@) + flat_parts(*x, key@, search_large),
    decreases x,
{
    let ghost start = views(parts@);
    match x {
        JsonValue::Object(es, _) => {
            let n = es.len();
            let mut i: usize = 0;
            assert(es@.take(0) =~= Seq::<(String, JsonValue)>::empty());
            assert(views(parts@) =~= start + flat_members(es@.take(0), search_large));
            while i < n
                invariant
                    i <= n == es@.len(),
                    is_large_matcher(*large),
                    x->Object_0 == *es,
                    x is Object,
                    views(parts@) == start + flat_members(es@.take(i as int), search_large),
                decreases n - i,
            {
                let ghost mid = views(parts@);
                proof {
                    assert(decreases_to!(*x => x->Object_0));
                    assert(decreases_to!(*es => es@));
                    assert(decreases_to!(es@ => es@[i as int]));
                    assert(decreases_to!(es@[i as int] => es@[i as int].1));
                    assert(decreases_to!(*x => es@[i as int].1));
                }
                flatten_into(&es[i].1, es[i].0.as_str(), search_large, large, parts);
                assert(es@.take(i + 1).drop_last() =~= es@.take(i as int));
                assert(es@.take(i + 1).last() == es@[i as int]);
                assert(views(parts@) =~= start + flat_members(es@.take(i + 1), search_large));
                i = i + 1;
            }
            assert(es@.take(n as int) =~= es@);
        },
        JsonValue::Array(xs, _) => {
            let n = if xs.len() <= JSON_LARGE_LIST_ITEMS {
                xs.len()
            } else {
                JSON_LARGE_LIST_ITEMS
            };
            let ghost items = at_most(xs@, JSON_LARGE_LIST_ITEMS as nat);
            assert(items.len() == n);
            let mut i: usize = 0;
            assert(items.take(0) =~= Seq::<JsonValue>::empty());
            assert(views(parts@) =~= start + flat_items(items.take(0), key@, search_large));
            while i < n
                invariant
                    i <= n == items.len() <= xs@.len(),
                    items == at_most(xs@, JSON_LARGE_LIST_ITEMS as nat),
                    x->Array_0 == *xs,
                    x is Array,
                    is_large_matcher(*large),
                    views(parts@) == start + flat_items(items.take(i as int), key@, search_large),
                decreases n - i,
            {
                proof {
                    assert(decreases_to!(*x => x->Array_0));
                    assert(decreases_to!(*xs => xs@));
                    assert(decreases_to!(xs@ => xs@[i as int]));
                    assert(decreases_to!(*x => xs@[i as int]));
                }
                assert(items[i as int] == xs@[i as int]);
                flatten_into(&xs[i], key, search_large, large, parts);
                assert(items.take(i + 1).drop_last() =~= items.take(i as int));
                assert(items.take(i + 1).last() == items[i as int]);
                assert(views(parts@) =~= start + flat_items(items.take(i + 1), key@, search_large));
                i = i + 1;
            }
            assert(items.take(n as int) =~= items);
        },
        _ => {
            scalar_text(x, key, search_large, large, parts);
        },
    }
}

/// A record's searchable text: the texts of its fields, one per line.
pub open spec fn record_text(fields: Seq<(String, JsonValue)>, search_large: bool) -> Seq<char> {
    crate::text::joined(flat_members(fields, search_large), "\n"@)
}

/// Builds a record's searchable text, as [`record_text`] says.
pub fn flatten_text(fields: &Vec<(String, JsonValue)>, search_large: bool, large: &Matcher) -> (res: String)
    requires
        is_large_matcher(*large),
    ensures
        res@ == record_text(fields@, search_large),
{
    let mut parts: Vec<String> = Vec::new();
    let n = fields.len();
    let mut i: usize = 0;
    assert(fields@.take(0) =~= Seq::<(String, JsonValue)>::empty());
    assert(views(parts@) =~= flat_members(fields@.take(0), search_large));
    while i < n
        invariant
            i <= n == fields@.len(),
            is_large_matcher(*large),
            views(parts@) == flat_members(fields@.take(i as int), search_large),
        decreases n - i,
    {
        flatten_into(&fields[i].1, fields[i].0.as_str(), search_large, large, &mut parts);
        assert(fields@.take(i + 1).drop_last() =~= fields@.take(i as int));
        assert(fields@.take(i + 1).last() == fields@[i as int]);
        i = i + 1;
    }
    assert(fields@.take(n as int) =~= fields@);
    crate::text::join_strings(&parts, "\n")
}

// ---------------------------------------------------------------------------
// Selecting records
// ---------------------------------------------------------------------------

/// A field's plain text, or empty text when the record has no such field.
pub open spec fn field_text(rec: Seq<(String, JsonValue)>, k: Seq<char>) -> Seq<char> {
    match lookup(rec, k) {
        Some(v) => plain_text(v),
        None => seq![],
    }
}

/// Every filter holds: the record's field reads, as plain text, exactly as
/// the filter's value does.
pub open spec fn filters_pass(rec: Seq<(String, JsonValue)>, filters: Seq<(String, JsonValue)>) -> bool {
    forall|i: int| 0 <= i < filters.len() ==> field_text(rec, #[trigger] filters[i].0@) == plain_text(filters[i].1)
}

pub fn check_filters(rec: &Vec<(String, JsonValue)>, filters: &Vec<(String, JsonValue)>) -> (res: bool)
    ensures
        res == filters_pass(rec@, filters@),
{
    let n = filters.len();
    let mut i: usize = 0;
    while i < n
        invariant
            i <= n == filters@.len(),
            forall|j: int| 0 <= j < i ==> field_text(rec@, #[trigger] filters@[j].0@) == plain_text(filters@[j].1),
        decreases n - i,
    {
        let lhs = match find_key(rec, filters[i].0.as_str()) {
            Some(j) => value_to_plain_string(&rec[j].1),
            None => String::new(),
        };
        let rhs = value_to_plain_string(&filters[i].1);
        if !str_eq(lhs.as_str(), rhs.as_str()) {
            return false;
        }
        i = i + 1;
    }
    true
}

/// `q` occurs in `hay`: exactly when `case_sensitive` is `true`, otherwise
/// after both are lower-cased.
pub open spec fn text_has(hay: Seq<char>, q: Seq<char>, case_sensitive: Option<bool>) -> bool {
    if case_sensitive == Some(true) {
        contains_chars(hay, q)
    } else {
        contains_chars(lowercase(hay), lowercase(q))
    }
}

/// The query holds of a text: trivially without terms, else every term
/// (match `all`) or some term occurs in it.
pub open spec fn query_passes(hay: Seq<char>, qs: Seq<Seq<char>>, all: bool, case_sensitive: Option<bool>) -> bool {
    if qs.len() == 0 {
        true
    } else if all {
        forall|i: int| 0 <= i < qs.len() ==> text_has(hay, #[trigger] qs[i], case_sensitive)
    } else {
        exists|i: int| 0 <= i < qs.len() && text_has(hay, #[trigger] qs[i], case_sensitive)
    }
}

pub fn check_query(hay: &str, qs: &Vec<String>, all: bool, case_sensitive: Option<bool>) -> (res: bool)
    ensures
        res == query_passes(hay@, views(qs@), all, case_sensitive),
{
    let n = qs.len();
    if n == 0 {
        return true;
    }
    let exact = match case_sensitive {
        Some(true) => true,
        _ => false,
    };
    let h = if exact { hay.to_owned() } else { to_lowercase(hay) };
    let hc = chars_of(h.as_str());
    let mut i: usize = 0;
    while i < n
        invariant
            i <= n == qs@.len(),
            exact == (case_sensitive == Some(true)),
            hc@ == if exact { hay@ } else { lowercase(hay@) },
            all ==> forall|j: int| 0 <= j < i ==> text_has(hay@, #[trigger] views(qs@)[j], case_sensitive),
            !all ==> forall|j: int| 0 <= j < i ==> !text_has(hay@, #[trigger] views(qs@)[j], case_sensitive),
        decreases n - i,
    {
        let q = if exact { qs[i].clone() } else { to_lowercase(qs[i].as_str()) };
        let qc = chars_of(q.as_str());
        let found = contains_slice(hc.as_slice(), qc.as_slice());
        assert(found == text_has(hay@, views(qs@)[i as int], case_sensitive));
        if all && !found {
            return false;
        }
        if !all && found {
            return true;
        }
        i = i + 1;
    }
    all
}

// ---------------------------------------------------------------------------
// What a hit shows of a record
// ---------------------------------------------------------------------------

/// A shown field value: text (written as a JSON string) or the JSON text of
/// a number, boolean or null.
pub enum Shown {
    Text(Seq<char>),
    Raw(Seq<char>),
}

/// How a value is shown: strings as text, anything else by its JSON text.
pub open spec fn shown_view(v: JsonValue) -> Shown {
    match v {
        JsonValue::Str(s) => Shown::Text(s@),
        _ => Shown::Raw(plain_text(v)),
    }
}

pub open spec fn shown_entries(es: Seq<(String, JsonValue)>) -> Seq<(Seq<char>, Shown)> {
    es.map_values(|e: (String, JsonValue)| (e.0@, shown_view(e.1)))
}

/// A field value bounded for display: strings, and arrays and objects by
/// their JSON text, are cut to `max_chars`; other values show as they are.
pub open spec fn projected(v: JsonValue, max_chars: nat) -> Shown {
    match v {
        JsonValue::Str(s) => Shown::Text(truncated(s@, max_chars)),
        JsonValue::Array(_, t) => Shown::Text(truncated(t@, max_chars)),
        JsonValue::Object(_, t) => Shown::Text(truncated(t@, max_chars)),
        _ => Shown::Raw(plain_text(v)),
    }
}

pub fn projected_value(v: &JsonValue, max_chars: usize) -> (res: JsonValue)
    ensures
        shown_view(res) == projected(*v, max_chars as nat),
{
    match v {
        JsonValue::Str(s) => JsonValue::Str(truncate_chars(s.as_str(), max_chars)),
        JsonValue::Array(_, t) => JsonValue::Str(truncate_chars(t.as_str(), max_chars)),
        JsonValue::Object(_, t) => JsonValue::Str(truncate_chars(t.as_str(), max_chars)),
        JsonValue::Null => JsonValue::Null,
        JsonValue::Bool(b) => JsonValue::Bool(*b),
        JsonValue::Number(n, t) => JsonValue::Number(*n, t.clone()),
    }
}

/// Field `k` set to `v`: in place if the fields have it, else added last.
pub open spec fn put_shown(es: Seq<(Seq<char>, Shown)>, k: Seq<char>, v: Shown) -> Seq<(Seq<char>, Shown)>
    decreases es.len(),
{
    if es.len() == 0 {
        seq![(k, v)]
    } else if es[0].0 == k {
        seq![(k, v)] + es.skip(1)
    } else {
        seq![es[0]] + put_shown(es.skip(1), k, v)
    }
}

proof fn lemma_put_shown(es: Seq<(Seq<char>, Shown)>, k: Seq<char>, v: Shown, i: int)
    requires
        0 <= i <= es.len(),
        forall|j: int| 0 <= j < i ==> es[j].0 != k,
    ensures
        i < es.len() && es[i].0 == k ==> put_shown(es, k, v) == es.update(i, (k, v)),
        i == es.len() ==> put_shown(es, k, v) == es.push((k, v)),
    decreases i,
{
    if i > 0 {
        assert forall|j: int| 0 <= j < i - 1 implies es.skip(1)[j].0 != k by {
            assert(es.skip(1)[j] == es[j + 1]);
        }
        lemma_put_shown(es.skip(1), k, v, i - 1);
        if i < es.len() && es[i].0 == k {
            assert(put_shown(es, k, v) =~= es.update(i, (k, v)));
        }
        if i == es.len() {
            assert(put_shown(es, k, v) =~= es.push((k, v)));
        }
    } else {
        if es.len() > 0 && es[0].0 == k {
            assert(put_shown(es, k, v) =~= es.update(0, (k, v)));
        }
        if es.len() == 0 {
            assert(put_shown(es, k, v) =~= es.push((k, v)));
        }
    }
}

/// Sets field `k`, as [`put_shown`] says.
fn put_field(out: &mut Vec<(String, JsonValue)>, k: String, v: JsonValue)
    ensures
        shown_entries(final(out)@) == put_shown(shown_entries(old(out)@), k@, shown_view(v)),
{
    let ghost es = shown_entries(out@);
    let n = out.len();
    let mut i: usize = 0;
    while i < n && !str_eq(out[i].0.as_str(), k.as_str())
        invariant
            i <= n == out@.len(),
            es == shown_entries(out@),
            forall|j: int| 0 <= j < i ==> es[j].0 != k@,
        decreases n - i,
    {
        i = i + 1;
    }
    proof {
        lemma_put_shown(es, k@, shown_view(v), i as int);
    }
    let ghost kv = k@;
    let ghost sv = shown_view(v);
    if i < n {
        out.set(i, (k, v));
        assert(shown_entries(out@) =~= es.update(i as int, (kv, sv)));
    } else {
        out.push((k, v));
        assert(shown_entries(out@) =~= es.push((kv, sv)));
    }
}

/// The fields a request lists, in list order, each once, without the
/// omitted ones and those the record lacks, bounded for display.
pub open spec fn listed_projection(
    rec: Seq<(String, JsonValue)>,
    fields: Seq<Seq<char>>,
    omit: Set<Seq<char>>,
    max_chars: nat,
) -> Seq<(Seq<char>, Shown)>
    decreases fields.len(),
{
    if fields.len() == 0 {
        seq![]
    } else {
        let p = listed_projection(rec, fields.drop_last(), omit, max_chars);
        let k = fields.last();
        if omit.contains(k) {
            p
        } else {
            match lookup(rec, k) {
                Some(v) => put_shown(p, k, projected(v, max_chars)),
                None => p,
            }
        }
    }
}

/// Every field of the record but the omitted ones, bounded for display,
/// with bulk-text fields shown as `[omitted]`.
pub open spec fn full_projection(rec: Seq<(String, JsonValue)>, omit: Set<Seq<char>>, max_chars: nat) -> Seq<
    (Seq<char>, Shown),
>
    decreases rec.len(),
{
    if rec.len() == 0 {
        seq![]
    } else {
        let p = full_projection(rec.drop_last(), omit, max_chars);
        let (k, v) = rec.last();
        if omit.contains(k@) {
            p
        } else if is_large_field(k@) {
            put_shown(p, k@, Shown::Text("[omitted]"@))
        } else {
            put_shown(p, k@, projected(v, max_chars))
        }
    }
}

/// What a hit shows of a record: the listed fields when the request lists
/// any, else all of them.
pub open spec fn projection(
    rec: Seq<(String, JsonValue)>,
    fields: Seq<Seq<char>>,
    omit: Set<Seq<char>>,
    max_chars: nat,
) -> Seq<(Seq<char>, Shown)> {
    if fields.len() > 0 {
        listed_projection(rec, fields, omit, max_chars)
    } else {
        full_projection(rec, omit, max_chars)
    }
}

proof fn lemma_put_shown_keys(es: Seq<(Seq<char>, Shown)>, k: Seq<char>, v: Shown, i: int)
    requires
        0 <= i < put_shown(es, k, v).len(),
    ensures
        put_shown(es, k, v)[i].0 == k || exists|j: int| 0 <= j < es.len() && es[j].0 == put_shown(es, k, v)[i].0,
    decreases es.len(),
{
    if es.len() > 0 && es[0].0 != k {
        let r = put_shown(es.skip(1), k, v);
        if i > 0 {
            lemma_put_shown_keys(es.skip(1), k, v, i - 1);
            if r[i - 1].0 != k {
                let j = choose|j: int| 0 <= j < es.skip(1).len() && es.skip(1)[j].0 == r[i - 1].0;
                assert(es[j + 1] == es.skip(1)[j]);
            }
        } else {
            assert(es[0].0 == put_shown(es, k, v)[0].0);
        }
    } else if es.len() > 0 && i > 0 {
        assert(put_shown(es, k, v)[i] == es[i]);
    }
}

proof fn lemma_listed_hides_omitted(
    rec: Seq<(String, JsonValue)>,
    fields: Seq<Seq<char>>,
    omit: Set<Seq<char>>,
    max_chars: nat,
)
    ensures
        forall|i: int| 0 <= i < listed_projection(rec, fields, omit, max_chars).len() ==> !omit.contains(
            #[trigger] listed_projection(rec, fields, omit, max_chars)[i].0,
        ),
    decreases fields.len(),
{
    if fields.len() > 0 {
        let p = listed_projection(rec, fields.drop_last(), omit, max_chars);
        lemma_listed_hides_omitted(rec, fields.drop_last(), omit, max_chars);
        let k = fields.last();
        if !omit.contains(k) {
            match lookup(rec, k) {
                Some(v) => {
                    let r = put_shown(p, k, projected(v, max_chars));
                    assert forall|i: int| 0 <= i < r.len() implies !omit.contains(#[trigger] r[i].0) by {
                        lemma_put_shown_keys(p, k, projected(v, max_chars), i);
                    }
                },
                None => {},
            }
        }
    }
}

proof fn lemma_full_hides_omitted(rec: Seq<(String, JsonValue)>, omit: Set<Seq<char>>, max_chars: nat)
    ensures
        forall|i: int| 0 <= i < full_projection(rec, omit, max_chars).len() ==> !omit.contains(
            #[trigger] full_projection(rec, omit, max_chars)[i].0,
        ),
    decreases rec.len(),
{
    if rec.len() > 0 {
        let p = full_projection(rec.drop_last(), omit, max_chars);
        lemma_full_hides_omitted(rec.drop_last(), omit, max_chars);
        let (k, v) = rec.last();
        if !omit.contains(k@) {
            let sv = if is_large_field(k@) {
                Shown::Text("[omitted]"@)
            } else {
                projected(v, max_chars)
            };
            let r = put_shown(p, k@, sv);
            assert(full_projection(rec, omit, max_chars) == r);
            assert forall|i: int| 0 <= i < r.len() implies !omit.contains(#[trigger] r[i].0) by {
                lemma_put_shown_keys(p, k@, sv, i);
            }
        }
    }
}

/// No omitted field is ever shown: whether or not the request lists
/// fields, no key of `omit_fields` is among the keys a hit shows.
pub proof fn law_omitted_fields_hidden(
    rec: Seq<(String, JsonValue)>,
    fields: Seq<Seq<char>>,
    omit: Set<Seq<char>>,
    max_chars: nat,
)
    ensures
        forall|i: int| 0 <= i < projection(rec, fields, omit, max_chars).len() ==> !omit.contains(
            #[trigger] projection(rec, fields, omit, max_chars)[i].0,
        ),
{
    lemma_listed_hides_omitted(rec, fields, omit, max_chars);
    lemma_full_hides_omitted(rec, omit, max_chars);
}

pub fn project_record(
    rec: &Vec<(String, JsonValue)>,
    fields: &Vec<String>,
    omit: &Vec<String>,
    max_chars: usize,
    large: &Matcher,
) -> (res: Vec<(String, JsonValue)>)
    requires
        is_large_matcher(*large),
    ensures
        shown_entries(res@) == projection(rec@, views(fields@), views(omit@).to_set(), max_chars as nat),
{
    let ghost om = views(omit@).to_set();
    let mut out: Vec<(String, JsonValue)> = Vec::new();
    assert(shown_entries(out@) =~= Seq::<(Seq<char>, Shown)>::empty());
    if fields.len() > 0 {
        let n = fields.len();
        let mut i: usize = 0;
        assert(views(fields@).take(0) =~= Seq::<Seq<char>>::empty());
        while i < n
            invariant
                i <= n == fields@.len(),
                om == views(omit@).to_set(),
                shown_entries(out@) == listed_projection(rec@, views(fields@).take(i as int), om, max_chars as nat),
            decreases n - i,
        {
            let ghost fs = views(fields@).take(i + 1);
            assert(fs.drop_last() =~= views(fields@).take(i as int));
            assert(fs.last() == fields@[i as int]@);
            let k = &fields[i];
            if !contains_string(omit, k.as_str()) {
                match find_key(rec, k.as_str()) {
                    Some(j) => {
                        let pv = projected_value(&rec[j].1, max_chars);
                        put_field(&mut out, k.clone(), pv);
                    },
                    None => {},
                }
            }
            i = i + 1;
        }
        assert(views(fields@).take(n as int) =~= views(fields@));
    } else {
        let n = rec.len();
        let mut i: usize = 0;
        assert(rec@.take(0) =~= Seq::<(String, JsonValue)>::empty());
        while i < n
            invariant
                i <= n == rec@.len(),
                om == views(omit@).to_set(),
                is_large_matcher(*large),
                shown_entries(out@) == full_projection(rec@.take(i as int), om, max_chars as nat),
            decreases n - i,
        {
            let ghost rs = rec@.take(i + 1);
            assert(rs.drop_last() =~= rec@.take(i as int));
            assert(rs.last() == rec@[i as int]);
            let k = &rec[i].0;
            if !contains_string(omit, k.as_str()) {
                if large.is_match(k.as_str()) {
                    let ghost want = Shown::Text("[omitted]"@);
                    let o = JsonValue::Str("[omitted]".to_owned());
                    put_field(&mut out, k.clone(), o);
                } else {
                    let pv = projected_value(&rec[i].1, max_chars);
                    put_field(&mut out, k.clone(), pv);
                }
            }
            i = i + 1;
        }
        assert(rec@.take(n as int) =~= rec@);
    }
    out
}

// ---------------------------------------------------------------------------
// The size of a hit
// ---------------------------------------------------------------------------

/// A lower-case hexadecimal digit.
pub open spec fn hex_digit(d: nat) -> char {
    if d < 10 {
        ((48 + d) as u32) as char
    } else {
        ((87 + d) as u32) as char
    }
}

/// How `serde_json` writes one character inside a JSON string: quote and
/// backslash after a backslash; backspace, tab, line feed, form feed and
/// carriage return as `\b`, `\t`, `\n`, `\f`, `\r`; any other control
/// character below U+0020 as `\u00` and two lower-case hex digits; every
/// other character as itself.
pub open spec fn json_char(c: char) -> Seq<char> {
    let u = c as u32;
    if c == '"' {
        seq!['\\', '"']
    } else if c == '\\' {
        seq!['\\', '\\']
    } else if u == 8 {
        seq!['\\', 'b']
    } else if u == 9 {
        seq!['\\', 't']
    } else if u == 10 {
        seq!['\\', 'n']
    } else if u == 12 {
        seq!['\\', 'f']
    } else if u == 13 {
        seq!['\\', 'r']
    } else if u < 32 {
        seq!['\\', 'u', '0', '0', hex_digit((u / 16) as nat), hex_digit((u % 16) as nat)]
    } else {
        seq![c]
    }
}

pub open spec fn json_escaped(s: Seq<char>) -> Seq<char>
    decreases s.len(),
{
    if s.len() == 0 {
        seq![]
    } else {
        json_escaped(s.drop_last()) + json_char(s.last())
    }
}

/// The JSON string literal for a text: the text, escaped, in double quotes.
pub open spec fn json_quoted(s: Seq<char>) -> Seq<char> {
    seq!['"'] + json_escaped(s) + seq!['"']
}

/// Writes a text as a JSON string (`serde_json::to_string` on a `str`),
/// escaped as [`json_char`] says. Serialising a string into memory does
/// not fail (the serializer writes into a `Vec<u8>`).
#[verifier::external_body]
fn quote_json(s: &str) -> (res: String)
    ensures
        res@ == json_quoted(s@),
{
    match serde_json::to_string(s) {
        Ok(q) => q,
        Err(_) => String::new(),
    }
}

/// A shown value as JSON text.
pub open spec fn shown_text(v: Shown) -> Seq<char> {
    match v {
        Shown::Text(s) => json_quoted(s),
        Shown::Raw(t) => t,
    }
}

pub open spec fn member_text(e: (Seq<char>, Shown)) -> Seq<char> {
    json_quoted(e.0) + ":"@ + shown_text(e.1)
}

/// Shown fields as a compact JSON object.
pub open spec fn shown_object_text(es: Seq<(Seq<char>, Shown)>) -> Seq<char> {
    "{"@ + joined(es.map_values(|e: (Seq<char>, Shown)| member_text(e)), ","@) + "}"@
}

/// A hit as compact JSON: `{"file":..,"line":..,"record":{..}}`. Its length
/// is what the hit costs of the character budget.
pub open spec fn entry_text(file: Seq<char>, line: nat, shown: Seq<(Seq<char>, Shown)>) -> Seq<char> {
    "{\"file\":"@ + json_quoted(file) + ",\"line\":"@ + decimal(line) + ",\"record\":"@
        + shown_object_text(shown) + "}"@
}

fn value_json(v: &JsonValue) -> (res: String)
    ensures
        res@ == shown_text(shown_view(*v)),
{
    match v {
        JsonValue::Str(s) => quote_json(s.as_str()),
        _ => value_to_plain_string(v),
    }
}

/// The number of characters of [`entry_text`].
pub fn entry_chars(file: &str, line: usize, rec: &Vec<(String, JsonValue)>) -> (res: usize)
    ensures
        res == entry_text(file@, line as nat, shown_entries(rec@)).len(),
{
    let ghost sh = shown_entries(rec@);
    let mut members: Vec<String> = Vec::new();
    let n = rec.len();
    let mut i: usize = 0;
    while i < n
        invariant
            i <= n == rec@.len(),
            sh == shown_entries(rec@),
            views(members@) == sh.take(i as int).map_values(|e: (Seq<char>, Shown)| member_text(e)),
        decreases n - i,
    {
        let m = quote_json(rec[i].0.as_str()).concat(":").concat(value_json(&rec[i].1).as_str());
        let ghost before = members@;
        assert(sh[i as int] == (rec@[i as int].0@, shown_view(rec@[i as int].1)));
        assert(m@ == member_text(sh[i as int]));
        members.push(m);
        assert(views(members@) =~= views(before).push(m@));
        assert(views(members@) =~= sh.take(i + 1).map_values(|e: (Seq<char>, Shown)| member_text(e)));
        i = i + 1;
    }
    assert(sh.take(n as int) =~= sh);
    let body = crate::text::join_strings(&members, ",");
    let text = "{\"file\":".to_owned().concat(quote_json(file).as_str()).concat(",\"line\":").concat(
        decimal_string(line).as_str(),
    ).concat(",\"record\":").concat("{").concat(body.as_str()).concat("}").concat("}");
    assert(text@ =~= entry_text(file@, line as nat, sh));
    chars_of(text.as_str()).len()
}

// ---------------------------------------------------------------------------
// The request
// ---------------------------------------------------------------------------

/// A data search request with its budget resolved.
pub struct JsonRequest {
    pub query: Option<String>,
    pub terms: Vec<String>,
    pub filters: Vec<(String, JsonValue)>,
    pub match_all: bool,
    pub case_sensitive: Option<bool>,
    pub search_large_fields: bool,
    pub allow_large_files: bool,
    pub fields: Vec<String>,
    pub omit_fields: Vec<String>,
    pub max_files: usize,
    pub max_records: usize,
    pub max_records_examined: usize,
    pub max_file_bytes: u64,
    pub max_value_chars: usize,
    pub max_total_chars: usize,
}

/// The members of the `filters` object, or none when it is not an object.
pub open spec fn filters_of(v: Option<JsonValue>) -> Seq<(String, JsonValue)> {
    match v {
        Some(JsonValue::Object(es, _)) => es@,
        _ => seq![],
    }
}

pub open spec fn u64_budget_arg(v: Option<u64>, lo: u64, hi: u64, default: u64) -> int {
    clamped(
        match v {
            Some(x) => x as int,
            None => default as int,
        },
        lo as int,
        hi as int,
    )
}

/// What a data search request's arguments say: the terms (a non-empty
/// `query`, then `terms`), the `filters` object, `match` (`all` or else
/// any), `case_sensitive`, `search_large_fields` and `allow_large_files`
/// (default off), the `fields` and `omit_fields` lists, and the budget
/// values, each supplied or default and clamped.
pub open spec fn json_request_matches(req: JsonRequest, args: Args) -> bool {
    &&& opt_view(req.query) == str_of(args.get_spec("query"@))
    &&& views(req.terms@) == request_terms(args)
    &&& req.filters@ == filters_of(args.get_spec("filters"@))
    &&& req.match_all == (str_of(args.get_spec("match"@)) == Some("all"@))
    &&& req.case_sensitive == bool_of(args.get_spec("case_sensitive"@))
    &&& req.search_large_fields == (bool_of(args.get_spec("search_large_fields"@)) == Some(true))
    &&& req.allow_large_files == (bool_of(args.get_spec("allow_large_files"@)) == Some(true))
    &&& views(req.fields@) == list_of(args.get_spec("fields"@))
    &&& views(req.omit_fields@) == list_of(args.get_spec("omit_fields"@))
    &&& req.max_files == budget_arg(usize_of(args.get_spec("max_files"@)), MIN_TOTAL_HITS, MAX_TOTAL_HITS_LIMIT, MAX_TOTAL_HITS)
    &&& req.max_records == budget_arg(usize_of(args.get_spec("max_records"@)), MIN_TOTAL_HITS, MAX_TOTAL_HITS_LIMIT, MAX_TOTAL_HITS)
    &&& req.max_records_examined == budget_arg(
        usize_of(args.get_spec("max_records_examined"@)),
        MIN_TOTAL_HITS,
        MAX_RECORDS_EXAMINED_LIMIT,
        MAX_RECORDS_EXAMINED,
    )
    &&& req.max_file_bytes == u64_budget_arg(u64_of(args.get_spec("max_file_bytes"@)), MIN_FILE_BYTES, MAX_FILE_BYTES_LIMIT, MAX_FILE_BYTES)
    &&& req.max_value_chars == budget_arg(usize_of(args.get_spec("max_value_chars"@)), MIN_LINE_CHARS, MAX_LINE_CHARS_LIMIT, MAX_LINE_CHARS)
    &&& req.max_total_chars == budget_arg(
        usize_of(args.get_spec("max_total_chars"@)),
        MIN_TOTAL_CHARS,
        MAX_TOTAL_CHARS_LIMIT,
        MAX_TOTAL_CHARS,
    )
}

/// The budget values of a data search request lie within their bounds.
pub open spec fn json_request_in_budget(req: JsonRequest) -> bool {
    &&& MIN_TOTAL_HITS <= req.max_files <= MAX_TOTAL_HITS_LIMIT
    &&& MIN_TOTAL_HITS <= req.max_records <= MAX_TOTAL_HITS_LIMIT
    &&& MIN_TOTAL_HITS <= req.max_records_examined <= MAX_RECORDS_EXAMINED_LIMIT
    &&& MIN_FILE_BYTES <= req.max_file_bytes <= MAX_FILE_BYTES_LIMIT
    &&& MIN_LINE_CHARS <= req.max_value_chars <= MAX_LINE_CHARS_LIMIT
    &&& MIN_TOTAL_CHARS <= req.max_total_chars <= MAX_TOTAL_CHARS_LIMIT
}

/// Reads a data search request from its arguments (taking the `filters`
/// object out of them).
pub fn parse_json_request(args: Args) -> (res: JsonRequest)
    ensures
        json_request_matches(res, args),
        json_request_in_budget(res),
{
    let ghost a = args;
    let query = str_arg(&args, "query");
    let terms = search_terms_of(&args);
    let match_all = match str_arg(&args, "match") {
        Some(m) => str_eq(m.as_str(), "all"),
        None => false,
    };
    let case_sensitive = opt_bool_arg(&args, "case_sensitive");
    let search_large_fields = bool_arg(&args, "search_large_fields", false);
    let allow_large_files = bool_arg(&args, "allow_large_files", false);
    let fields = as_list_value(args.get("fields"));
    let omit_fields = as_list_value(args.get("omit_fields"));
    let max_files = clamp_usize(usize_arg(&args, "max_files"), MIN_TOTAL_HITS, MAX_TOTAL_HITS_LIMIT, MAX_TOTAL_HITS);
    let max_records = clamp_usize(usize_arg(&args, "max_records"), MIN_TOTAL_HITS, MAX_TOTAL_HITS_LIMIT, MAX_TOTAL_HITS);
    let max_records_examined = clamp_usize(
        usize_arg(&args, "max_records_examined"),
        MIN_TOTAL_HITS,
        MAX_RECORDS_EXAMINED_LIMIT,
        MAX_RECORDS_EXAMINED,
    );
    let max_file_bytes = clamp_u64(u64_arg(&args, "max_file_bytes"), MIN_FILE_BYTES, MAX_FILE_BYTES_LIMIT, MAX_FILE_BYTES);
    let max_value_chars = clamp_usize(usize_arg(&args, "max_value_chars"), MIN_LINE_CHARS, MAX_LINE_CHARS_LIMIT, MAX_LINE_CHARS);
    let max_total_chars = clamp_usize(
        usize_arg(&args, "max_total_chars"),
        MIN_TOTAL_CHARS,
        MAX_TOTAL_CHARS_LIMIT,
        MAX_TOTAL_CHARS,
    );
    let at = find_key(&args.entries, "filters");
    let mut entries = args.entries;
    let filters: Vec<(String, JsonValue)> = match at {
        Some(j) => {
            let (_, v) = entries.remove(j);
            match v {
                JsonValue::Object(es, _) => es,
                _ => Vec::new(),
            }
        },
        None => Vec::new(),
    };
    proof {
        if at.is_none() {
            assert(filters@ =~= filters_of(a.get_spec("filters"@)));
        }
    }
    JsonRequest {
        query,
        terms,
        filters,
        match_all,
        case_sensitive,
        search_large_fields,
        allow_large_files,
        fields,
        omit_fields,
        max_files,
        max_records,
        max_records_examined,
        max_file_bytes,
        max_value_chars,
        max_total_chars,
    }
}

// ---------------------------------------------------------------------------
// Candidate files
// ---------------------------------------------------------------------------

/// The scopes a data search looks in: those requested, else `config` and
/// `analysis`.
pub open spec fn data_scopes(scopes: Option<JsonValue>) -> Seq<Seq<char>> {
    match scopes {
        Some(v) => list_of(Some(v)),
        None => seq!["config"@, "analysis"@],
    }
}

/// The glob plan of a data search: its scopes, the requested include globs
/// followed by the data file globs, and the requested exclude globs.
pub open spec fn data_glob_plan(args: Args, explicit_paths: bool, explicit_files: bool) -> (Seq<Seq<char>>, Seq<Seq<char>>) {
    glob_plan(
        data_scopes(args.get_spec("scopes"@)),
        list_of(args.get_spec("include_globs"@)) + strs(data_globs()),
        list_of(args.get_spec("exclude_globs"@)),
        explicit_paths,
        explicit_files,
    )
}

pub fn data_globs_for(args: &Args, explicit_paths: bool, explicit_files: bool) -> (res: GlobPlan)
    ensures
        (views(res.args@), views(res.warnings@)) == data_glob_plan(*args, explicit_paths, explicit_files),
{
    let requested = match args.get("scopes") {
        Some(v) => as_list_value(Some(v)),
        None => {
            let mut d: Vec<String> = Vec::new();
            d.push("config".to_owned());
            d.push("analysis".to_owned());
            assert(views(d@) =~= seq!["config"@, "analysis"@]);
            d
        },
    };
    let mut includes = as_list_value(args.get("include_globs"));
    let mut extra = data_glob_list();
    let ghost i0 = views(includes@);
    let ghost e0 = views(extra@);
    includes.append(&mut extra);
    assert(views(includes@) =~= i0 + e0);
    let excludes = as_list_value(args.get("exclude_globs"));
    build_glob_args(&requested, &includes, &excludes, explicit_paths, explicit_files)
}

/// How many lines of the file listing are read: `max_files` times the
/// file-scan multiplier.
pub fn listing_line_limit(req: &JsonRequest) -> (res: usize)
    requires
        json_request_in_budget(*req),
    ensures
        res == req.max_files * crate::budget::FILE_SCAN_LINE_MULTIPLIER,
{
    req.max_files * crate::budget::FILE_SCAN_LINE_MULTIPLIER
}

// ---------------------------------------------------------------------------
// The search over records
// ---------------------------------------------------------------------------

/// A record is selected when its filters hold and its searchable text
/// satisfies the query.
pub open spec fn selected(req: JsonRequest, rec: Seq<(String, JsonValue)>) -> bool {
    &&& filters_pass(rec, req.filters@)
    &&& query_passes(record_text(rec, req.search_large_fields), views(req.terms@), req.match_all, req.case_sensitive)
}

/// What a request shows of a record.
pub open spec fn shown_of(req: JsonRequest, rec: Seq<(String, JsonValue)>) -> Seq<(Seq<char>, Shown)> {
    projection(rec, views(req.fields@), views(req.omit_fields@).to_set(), req.max_value_chars as nat)
}

/// A hit: the file, the record's line, and what is shown of it.
pub struct HitView {
    pub file: Seq<char>,
    pub line: int,
    pub shown: Seq<(Seq<char>, Shown)>,
}

/// The progress of a data search: hits so far, records examined, the
/// characters the hits cost, whether the result is cut short, and whether
/// the current file's records are done with.
pub struct ScanView {
    pub hits: Seq<HitView>,
    pub examined: int,
    pub total: int,
    pub truncated: bool,
    pub broken: bool,
}

/// One record of `file`: it is counted as examined; past the examination
/// limit the search is cut short; a selected record becomes a hit when the
/// hit count and the character budget allow it, and otherwise cuts the
/// search short too.
pub open spec fn record_step(req: JsonRequest, st: ScanView, file: Seq<char>, r: (int, Seq<(String, JsonValue)>)) -> ScanView {
    if st.broken {
        st
    } else if st.examined + 1 > req.max_records_examined {
        ScanView { examined: st.examined + 1, truncated: true, broken: true, ..st }
    } else if !selected(req, r.1) {
        ScanView { examined: st.examined + 1, ..st }
    } else {
        let shown = shown_of(req, r.1);
        let cost = entry_text(file, r.0 as nat, shown).len();
        if st.hits.len() >= req.max_records || st.total + cost > req.max_total_chars {
            ScanView { examined: st.examined + 1, truncated: true, broken: true, ..st }
        } else {
            ScanView {
                hits: st.hits.push(HitView { file, line: r.0, shown }),
                examined: st.examined + 1,
                total: st.total + cost,
                ..st
            }
        }
    }
}

pub open spec fn records_step(req: JsonRequest, st: ScanView, file: Seq<char>, rs: Seq<(int, Seq<(String, JsonValue)>)>) -> ScanView
    decreases rs.len(),
{
    if rs.len() == 0 {
        st
    } else {
        record_step(req, records_step(req, st, file, rs.drop_last()), file, rs.last())
    }
}

/// The search over one file's records, from `st`.
pub open spec fn file_step(req: JsonRequest, st: ScanView, file: Seq<char>, rs: Seq<(int, Seq<(String, JsonValue)>)>) -> ScanView {
    let end = records_step(req, ScanView { broken: false, ..st }, file, rs);
    ScanView { broken: false, ..end }
}

/// The search stops taking files once the hit count is reached or the
/// examination limit was passed.
pub open spec fn scan_ended(req: JsonRequest, st: ScanView) -> bool {
    st.hits.len() >= req.max_records || st.examined > req.max_records_examined
}

/// A hit as it is returned.
pub struct JsonHit {
    pub file: String,
    pub line: usize,
    pub record: Vec<(String, JsonValue)>,
}

pub open spec fn hit_view(h: JsonHit) -> HitView {
    HitView { file: h.file@, line: h.line as int, shown: shown_entries(h.record@) }
}

pub open spec fn json_hit_views(hs: Seq<JsonHit>) -> Seq<HitView> {
    hs.map_values(|h: JsonHit| hit_view(h))
}

/// A data search in progress, taking the candidate files one at a time.
pub struct JsonSearch {
    req: JsonRequest,
    large: Matcher,
    hits: Vec<JsonHit>,
    examined: usize,
    total: usize,
    truncated: bool,
    ended: bool,
}

impl JsonSearch {
    pub closed spec fn request(&self) -> JsonRequest {
        self.req
    }

    pub closed spec fn state(&self) -> ScanView {
        ScanView {
            hits: json_hit_views(self.hits@),
            examined: self.examined as int,
            total: self.total as int,
            truncated: self.truncated,
            broken: false,
        }
    }

    /// No more files are taken.
    pub closed spec fn is_ended(&self) -> bool {
        self.ended
    }

    /// The search keeps its budget: at most `max_records` hits, their cost
    /// within `max_total_chars`, and at most one record examined past the
    /// limit.
    pub closed spec fn wf(&self) -> bool {
        &&& json_request_in_budget(self.req)
        &&& is_large_matcher(self.large)
        &&& self.hits@.len() <= self.req.max_records
        &&& self.total <= self.req.max_total_chars
        &&& self.examined <= self.req.max_records_examined + 1
        &&& !self.ended ==> self.examined <= self.req.max_records_examined
    }

    /// Starts a search; `truncated` says whether the file listing was cut
    /// short.
    pub fn new(req: JsonRequest, large: Matcher, truncated: bool) -> (res: JsonSearch)
        requires
            json_request_in_budget(req),
            is_large_matcher(large),
        ensures
            res.wf(),
            res.request() == req,
            res.state() == (ScanView { hits: seq![], examined: 0, total: 0, truncated, broken: false }),
            !res.is_ended(),
    {
        let s = JsonSearch { req, large, hits: Vec::new(), examined: 0, total: 0, truncated, ended: false };
        assert(json_hit_views(s.hits@) =~= Seq::<HitView>::empty());
        s
    }

    /// Whether the search has stopped taking files.
    pub fn ended(&self) -> (res: bool)
        ensures
            res == self.is_ended(),
    {
        self.ended
    }

    /// Whether a file of the given size (if it could be read) is skipped:
    /// only when large files are not allowed and it is larger than the
    /// limit.
    pub fn skips_file(&self, size: Option<u64>) -> (res: bool)
        ensures
            res == (!self.request().allow_large_files && (size matches Some(n) && n > self.request().max_file_bytes)),
    {
        match size {
            Some(n) => !self.req.allow_large_files && n > self.req.max_file_bytes,
            None => false,
        }
    }

    /// The time limit passed before the next file: the result is cut short
    /// and no more files are taken.
    pub fn on_timeout(&mut self)
        requires
            old(self).wf(),
        ensures
            final(self).wf(),
            final(self).request() == old(self).request(),
            final(self).state() == (ScanView { truncated: true, ..old(self).state() }),
            final(self).is_ended(),
    {
        self.truncated = true;
        self.ended = true;
    }

    /// Searches the records of one file, as [`file_step`] says; afterwards
    /// the search ends when [`scan_ended`] holds.
    pub fn on_file(&mut self, file: &str, records: &Vec<Record>)
        requires
            old(self).wf(),
            !old(self).is_ended(),
        ensures
            final(self).wf(),
            final(self).request() == old(self).request(),
            final(self).state() == file_step(old(self).request(), old(self).state(), file@, record_views(records@)),
            final(self).is_ended() == scan_ended(old(self).request(), final(self).state()),
    {
        let ghost req = self.req;
        let ghost st0 = ScanView { broken: false, ..self.state() };
        let ghost rs = record_views(records@);
        let n = records.len();
        let mut i: usize = 0;
        let mut broken = false;
        assert(rs.take(0) =~= Seq::<(int, Seq<(String, JsonValue)>)>::empty());
        while i < n && !broken
            invariant
                i <= n == records@.len(),
                rs == record_views(records@),
                self.req == req,
                json_request_in_budget(req),
                is_large_matcher(self.large),
                self.hits@.len() <= req.max_records,
                self.total <= req.max_total_chars,
                self.examined <= req.max_records_examined + 1,
                !broken ==> self.examined <= req.max_records_examined,
                ({
                    let st = records_step(req, st0, file@, rs.take(i as int));
                    &&& st.hits == json_hit_views(self.hits@)
                    &&& st.examined == self.examined
                    &&& st.total == self.total
                    &&& st.truncated == self.truncated
                    &&& st.broken == broken
                }),
            decreases n - i,
        {
            assert(rs.take(i + 1).drop_last() =~= rs.take(i as int));
            assert(rs.take(i + 1).last() == rs[i as int]);
            assert(rs[i as int] == record_view(records@[i as int]));
            let rec = &records[i];
            self.examined = self.examined + 1;
            if self.examined > self.req.max_records_examined {
                self.truncated = true;
                broken = true;
            } else {
                let pass = check_filters(&rec.fields, &self.req.filters) && (self.req.terms.len() == 0 || {
                    let hay = flatten_text(&rec.fields, self.req.search_large_fields, &self.large);
                    check_query(hay.as_str(), &self.req.terms, self.req.match_all, self.req.case_sensitive)
                });
                if pass {
                    let shown = project_record(&rec.fields, &self.req.fields, &self.req.omit_fields, self.req.max_value_chars, &self.large);
                    let cost = entry_chars(file, rec.line, &shown);
                    if self.hits.len() >= self.req.max_records || cost > self.req.max_total_chars - self.total {
                        self.truncated = true;
                        broken = true;
                    } else {
                        let ghost before = self.hits@;
                        let h = JsonHit { file: file.to_owned(), line: rec.line, record: shown };
                        let ghost hv = hit_view(h);
                        self.hits.push(h);
                        assert(json_hit_views(self.hits@) =~= json_hit_views(before).push(hv));
                        self.total = self.total + cost;
                    }
                }
            }
            i = i + 1;
        }
        proof {
            lemma_records_stay_broken(req, st0, file@, rs, i as int, n as int);
            assert(rs.take(n as int) =~= rs);
        }
        self.ended = self.hits.len() >= self.req.max_records || self.examined > self.req.max_records_examined;
    }
}

/// The outcome of a data search.
pub struct JsonReport {
    pub status: Status,
    pub query: Option<String>,
    pub files: usize,
    pub examined: usize,
    pub hits: Vec<JsonHit>,
    pub truncated: bool,
    pub rejected: Vec<Rejected>,
    pub warnings: Vec<String>,
}

impl JsonSearch {
    /// The report of the search: truncated exactly when the search was cut
    /// short, with the request's query, the number of candidate files, the
    /// records examined and the hits.
    pub fn finish(self, files: usize, rejected: Vec<Rejected>, warnings: Vec<String>) -> (res: JsonReport)
        requires
            self.wf(),
        ensures
            res.status == if self.state().truncated { Status::Truncated } else { Status::Complete },
            res.truncated == self.state().truncated,
            opt_view(res.query) == opt_view(self.request().query),
            res.files == files,
            res.examined == self.state().examined,
            json_hit_views(res.hits@) == self.state().hits,
            res.rejected@ == rejected@,
            res.warnings@ == warnings@,
    {
        let status = if self.truncated { Status::Truncated } else { Status::Complete };
        let query = match &self.req.query {
            Some(q) => Some(q.clone()),
            None => None,
        };
        JsonReport {
            status,
            query,
            files,
            examined: self.examined,
            hits: self.hits,
            truncated: self.truncated,
            rejected,
            warnings,
        }
    }
}

/// A search state within budget: at most `max_records` hits, costing at
/// most `max_total_chars`.
pub open spec fn within_budget(req: JsonRequest, st: ScanView) -> bool {
    &&& st.hits.len() <= req.max_records
    &&& st.total <= req.max_total_chars
}

/// Searching a file's records never exceeds the budget: from a state
/// within budget, the hits stay at most `max_records` and their cost at
/// most `max_total_chars`; hits are only added, never dropped.
pub proof fn law_file_step_within_budget(
    req: JsonRequest,
    st: ScanView,
    file: Seq<char>,
    rs: Seq<(int, Seq<(String, JsonValue)>)>,
)
    requires
        within_budget(req, st),
    ensures
        within_budget(req, file_step(req, st, file, rs)),
        st.hits.is_prefix_of(file_step(req, st, file, rs).hits),
{
    lemma_records_within_budget(req, ScanView { broken: false, ..st }, file, rs);
}

proof fn lemma_records_within_budget(
    req: JsonRequest,
    st: ScanView,
    file: Seq<char>,
    rs: Seq<(int, Seq<(String, JsonValue)>)>,
)
    requires
        within_budget(req, st),
    ensures
        within_budget(req, records_step(req, st, file, rs)),
        st.hits.is_prefix_of(records_step(req, st, file, rs).hits),
    decreases rs.len(),
{
    if rs.len() > 0 {
        lemma_records_within_budget(req, st, file, rs.drop_last());
        let mid = records_step(req, st, file, rs.drop_last());
        let end = records_step(req, st, file, rs);
        assert(mid.hits.is_prefix_of(end.hits));
        assert(st.hits.is_prefix_of(end.hits)) by {
            assert forall|i: int| 0 <= i < st.hits.len() implies st.hits[i] == end.hits[i] by {
                assert(st.hits[i] == mid.hits[i]);
            }
        }
    }
}

proof fn lemma_records_examined(
    req: JsonRequest,
    st: ScanView,
    file: Seq<char>,
    rs: Seq<(int, Seq<(String, JsonValue)>)>,
)
    requires
        st.examined <= req.max_records_examined,
        !st.broken,
    ensures
        records_step(req, st, file, rs).examined <= req.max_records_examined + 1,
        !records_step(req, st, file, rs).broken ==> records_step(req, st, file, rs).examined <= req.max_records_examined,
        records_step(req, st, file, rs).examined >= st.examined,
    decreases rs.len(),
{
    if rs.len() > 0 {
        lemma_records_examined(req, st, file, rs.drop_last());
    }
}

/// A search that has not ended examines at most one record past the
/// examination limit in the next file, and counts every record it looks
/// at: the count never goes down.
pub proof fn law_examination_bounded(
    req: JsonRequest,
    st: ScanView,
    file: Seq<char>,
    rs: Seq<(int, Seq<(String, JsonValue)>)>,
)
    requires
        !scan_ended(req, st),
    ensures
        file_step(req, st, file, rs).examined <= req.max_records_examined + 1,
        file_step(req, st, file, rs).examined >= st.examined,
{
    lemma_records_examined(req, ScanView { broken: false, ..st }, file, rs);
}

/// A record becomes a hit only when the request selects it, and the hit
/// shows what the request shows of it, under the record's file and line.
pub proof fn law_hits_are_selected(req: JsonRequest, st: ScanView, file: Seq<char>, r: (int, Seq<(String, JsonValue)>))
    requires
        record_step(req, st, file, r).hits.len() > st.hits.len(),
    ensures
        selected(req, r.1),
        record_step(req, st, file, r).hits == st.hits.push(HitView { file, line: r.0, shown: shown_of(req, r.1) }),
{
}

/// With bulk text not searched, a scalar under a bulk-text field name adds
/// nothing to the searchable text.
pub proof fn law_large_fields_not_searched(v: JsonValue, key: Seq<char>)
    requires
        is_large_field(key),
        !(v is Object),
        !(v is Array),
    ensures
        flat_parts(v, key, false) == Seq::<Seq<char>>::empty(),
{
}

proof fn lemma_records_stay_broken(
    req: JsonRequest,
    st: ScanView,
    file: Seq<char>,
    rs: Seq<(int, Seq<(String, JsonValue)>)>,
    a: int,
    m: int,
)
    requires
        0 <= a <= m <= rs.len(),
        a == m || records_step(req, st, file, rs.take(a)).broken,
    ensures
        records_step(req, st, file, rs.take(m)) == records_step(req, st, file, rs.take(a)),
    decreases m - a,
{
    if m > a {
        lemma_records_stay_broken(req, st, file, rs, a, m - 1);
        assert(rs.take(m).drop_last() =~= rs.take(m - 1));
    }
}

} // verus!
