//! Structured data search: which files hold records, how records are read
//! from them, and the shared vocabulary of a record.
use vstd::prelude::*;
use crate::files_only::listed_name;
use crate::json::{JsonValue, first_key_index, lookup};
use crate::ordering::{chars_lt, lemma_lt_irreflexive, lemma_lt_total, lemma_lt_transitive, seq_lt, strictly_sorted};
use crate::process::ProcResult;
use crate::text::{chars_of, clean_rel, from_utf8_lossy, string_from_chars, trim_chars, views};

verus! {

// ---------------------------------------------------------------------------
// Data file formats
// ---------------------------------------------------------------------------

/// Name for the extension that `std::path::Path::extension` finds in a path
/// (what follows the last `.` of the file name, if the name has a `.` that
/// is not its first character).
pub uninterp spec fn path_extension(p: Seq<char>) -> Option<Seq<char>>;

/// The extension of a path (`std::path::Path::extension`, read as UTF-8).
#[verifier::external_body]
fn extension_of(p: &str) -> (res: Option<String>)
    ensures
        match res {
            Some(e) => path_extension(p@) == Some(e@),
            None => path_extension(p@) is None,
        },
{
    std::path::Path::new(p).extension().and_then(|e| e.to_str()).map(|e| e.to_owned())
}

/// A character with ASCII upper case turned to lower case.
pub open spec fn ascii_lower_char(c: char) -> char {
    if 'A' <= c <= 'Z' {
        ((c as u32) + 32) as char
    } else {
        c
    }
}

/// ASCII lower case of a text (what `str::to_ascii_lowercase` gives).
pub open spec fn ascii_lower(s: Seq<char>) -> Seq<char> {
    s.map_values(|c: char| ascii_lower_char(c))
}

/// Whether `s`, in ASCII lower case, is `lower`.
fn lower_is(s: &[char], lower: &str) -> (res: bool)
    ensures
        res == (ascii_lower(s@) == lower@),
{
    let l = chars_of(lower);
    if s.len() != l.len() {
        assert(ascii_lower(s@).len() != l@.len());
        return false;
    }
    let n = s.len();
    let mut i: usize = 0;
    while i < n
        invariant
            i <= n == s@.len() == l@.len(),
            l@ == lower@,
            forall|j: int| 0 <= j < i ==> ascii_lower_char(#[trigger] s@[j]) == l@[j],
        decreases n - i,
    {
        let c = s[i];
        let d = l[i];
        let same = if 'A' <= c && c <= 'Z' {
            (c as u32) + 32 == (d as u32)
        } else {
            c == d
        };
        proof {
            if 'A' <= c && c <= 'Z' {
                assert(same == (((c as u32) + 32) as char == d)) by {
                    vstd::utf8::char_u32_cast(d, d as u32);
                }
            }
        }
        if !same {
            assert(ascii_lower(s@)[i as int] != l@[i as int]);
            return false;
        }
        i = i + 1;
    }
    assert(ascii_lower(s@) =~= l@);
    true
}

/// How a data file is read.
#[derive(PartialEq, Eq, Structural, Clone, Copy, Debug)]
pub enum DataFormat {
    /// One JSON value per line.
    JsonLines,
    /// One JSON document.
    Json,
    /// Comma-separated values with a header row.
    Csv,
    /// Tab-separated values with a header row.
    Tsv,
}

/// The format a path's extension names, in any ASCII case: `jsonl` and
/// `ndjson` are JSON lines, `json` is JSON, `csv` and `tsv` are tables.
pub open spec fn format_of_extension(e: Seq<char>) -> Option<DataFormat> {
    let l = ascii_lower(e);
    if l == "jsonl"@ || l == "ndjson"@ {
        Some(DataFormat::JsonLines)
    } else if l == "json"@ {
        Some(DataFormat::Json)
    } else if l == "csv"@ {
        Some(DataFormat::Csv)
    } else if l == "tsv"@ {
        Some(DataFormat::Tsv)
    } else {
        None
    }
}

/// The data format of a path, by its extension.
pub open spec fn format_of_path(p: Seq<char>) -> Option<DataFormat> {
    match path_extension(p) {
        Some(e) => format_of_extension(e),
        None => None,
    }
}

/// The data format of a path; `None` for files that hold no records.
pub fn data_format(p: &str) -> (res: Option<DataFormat>)
    ensures
        res == format_of_path(p@),
{
    match extension_of(p) {
        None => None,
        Some(e) => {
            let cs = chars_of(e.as_str());
            let s = cs.as_slice();
            if lower_is(s, "jsonl") || lower_is(s, "ndjson") {
                Some(DataFormat::JsonLines)
            } else if lower_is(s, "json") {
                Some(DataFormat::Json)
            } else if lower_is(s, "csv") {
                Some(DataFormat::Csv)
            } else if lower_is(s, "tsv") {
                Some(DataFormat::Tsv)
            } else {
                None
            }
        },
    }
}

// ---------------------------------------------------------------------------
// Candidate data files
// ---------------------------------------------------------------------------

/// The data files in ripgrep's file list, in order: listed names that are
/// not empty and name a data format, at most `max_files` of them.
pub open spec fn data_files(lines: Seq<Vec<u8>>, max_files: nat) -> Seq<Seq<char>>
    decreases lines.len(),
{
    if lines.len() == 0 {
        seq![]
    } else {
        let p = data_files(lines.drop_last(), max_files);
        let n = listed_name(lines.last()@);
        if n.len() == 0 || format_of_path(n) is None || p.len() >= max_files {
            p
        } else {
            p.push(n)
        }
    }
}

/// The data files a listing offers, and whether the listing was cut short:
/// by a process limit, or because `max_files` of them were found.
pub struct DataFiles {
    pub files: Vec<String>,
    pub truncated: bool,
}

/// Picks the data files out of ripgrep's file list.
pub fn select_data_files(proc: &ProcResult, max_files: usize) -> (res: DataFiles)
    ensures
        views(res.files@) == data_files(proc.lines@, max_files as nat),
        res.truncated == (proc.timed_out || proc.byte_limit_hit || proc.line_limit_hit
            || data_files(proc.lines@, max_files as nat).len() >= max_files),
{
    let n = proc.lines.len();
    let mut files: Vec<String> = Vec::new();
    let mut i: usize = 0;
    assert(proc.lines@.take(0) =~= Seq::<Vec<u8>>::empty());
    while i < n
        invariant
            i <= n == proc.lines@.len(),
            views(files@) == data_files(proc.lines@.take(i as int), max_files as nat),
            files@.len() <= max_files,
        decreases n - i,
    {
        assert(proc.lines@.take(i + 1).drop_last() =~= proc.lines@.take(i as int));
        assert(proc.lines@.take(i + 1).last() == proc.lines@[i as int]);
        let s = from_utf8_lossy(proc.lines[i].as_slice());
        let cs = chars_of(s.as_str());
        let t = trim_chars(cs.as_slice());
        let ts = string_from_chars(t.as_slice());
        let name = clean_rel(ts.as_str());
        if !name.as_str().is_empty() && data_format(name.as_str()).is_some() && files.len()
            < max_files {
            let ghost fb = files@;
            files.push(name);
            assert(views(files@) =~= views(fb).push(files@.last()@));
        }
        i = i + 1;
    }
    assert(proc.lines@.take(n as int) =~= proc.lines@);
    let truncated = proc.timed_out || proc.byte_limit_hit || proc.line_limit_hit || files.len()
        >= max_files;
    DataFiles { files, truncated }
}

// ---------------------------------------------------------------------------
// Records as maps
// ---------------------------------------------------------------------------

/// The keys of a record's fields, in order.
pub open spec fn entry_keys(es: Seq<(String, JsonValue)>) -> Seq<Seq<char>> {
    es.map_values(|e: (String, JsonValue)| e.0@)
}

/// Fields in increasing key order, each key once (the order of a JSON
/// object's members).
pub open spec fn sorted_fields(es: Seq<(String, JsonValue)>) -> bool {
    strictly_sorted(entry_keys(es))
}

proof fn lemma_first_key_before(es: Seq<(String, JsonValue)>, key: Seq<char>, i: int)
    requires
        0 <= i <= es.len(),
        forall|j: int| 0 <= j < i ==> es[j].0@ != key,
    ensures
        i < es.len() && es[i].0@ == key ==> first_key_index(es, key) == Some(i),
        i == es.len() ==> first_key_index(es, key) is None,
    decreases i,
{
    if i > 0 {
        assert forall|j: int| 0 <= j < i - 1 implies es.skip(1)[j].0@ != key by {
            assert(es.skip(1)[j] == es[j + 1]);
        }
        lemma_first_key_before(es.skip(1), key, i - 1);
    }
}

/// In sorted fields, looking up the key of entry `i` finds entry `i`.
pub proof fn lemma_lookup_sorted_at(es: Seq<(String, JsonValue)>, i: int)
    requires
        sorted_fields(es),
        0 <= i < es.len(),
    ensures
        lookup(es, es[i].0@) == Some(es[i].1),
{
    let k = es[i].0@;
    assert forall|j: int| 0 <= j < i implies es[j].0@ != k by {
        assert(entry_keys(es)[j] == es[j].0@);
        assert(entry_keys(es)[i] == k);
        assert(seq_lt(entry_keys(es)[j], entry_keys(es)[i]));
        lemma_lt_irreflexive(k);
    }
    lemma_first_key_before(es, k, i);
}

/// A key that no entry has is not found.
pub proof fn lemma_lookup_missing(es: Seq<(String, JsonValue)>, k: Seq<char>)
    requires
        forall|j: int| 0 <= j < es.len() ==> es[j].0@ != k,
    ensures
        lookup(es, k) is None,
{
    lemma_first_key_before(es, k, es.len() as int);
}

/// Sets field `k` to `v`, keeping the fields sorted: an entry with key `k`
/// gets the new value, otherwise the entry goes where its key belongs.
pub fn map_put(es: &mut Vec<(String, JsonValue)>, k: String, v: JsonValue)
    requires
        sorted_fields(old(es)@),
    ensures
        sorted_fields(final(es)@),
        forall|q: Seq<char>| #[trigger] lookup(final(es)@, q) == if q == k@ {
            Some(v)
        } else {
            lookup(old(es)@, q)
        },
{
    let ghost ov = es@;
    let ghost ok = entry_keys(ov);
    let ghost kv = k@;
    let kc = chars_of(k.as_str());
    let m = es.len();
    let mut p: usize = 0;
    while p < m && chars_lt(chars_of(es[p].0.as_str()).as_slice(), kc.as_slice())
        invariant
            p <= m == es@.len(),
            es@ == ov,
            ok == entry_keys(ov),
            kc@ == kv,
            forall|q: int| 0 <= q < p ==> seq_lt(#[trigger] ok[q], kv),
        decreases m - p,
    {
        assert(ok[p as int] == es@[p as int].0@);
        p = p + 1;
    }
    let same = p < m && crate::text::str_eq(es[p].0.as_str(), k.as_str());
    proof {
        if p < m {
            assert(ok[p as int] == es@[p as int].0@);
            assert(!seq_lt(ok[p as int], kv));
            if !same {
                lemma_lt_total(ok[p as int], kv);
                assert forall|q: int| p <= q < m implies seq_lt(kv, #[trigger] ok[q]) by {
                    if q > p {
                        lemma_lt_transitive(kv, ok[p as int], ok[q]);
                    }
                }
            } else {
                assert forall|q: int| p < q < m implies seq_lt(kv, #[trigger] ok[q]) by {
                    assert(seq_lt(ok[p as int], ok[q]));
                }
            }
        }
    }
    if same {
        es.set(p, (k, v));
        let ghost nv = es@;
        let ghost nk = entry_keys(nv);
        assert(nk =~= ok);
        assert forall|q: Seq<char>| #[trigger] lookup(nv, q) == if q == kv {
            Some(v)
        } else {
            lookup(ov, q)
        } by {
            if q == kv {
                lemma_lookup_sorted_at(nv, p as int);
            } else if exists|j: int| 0 <= j < m && ov[j].0@ == q {
                let j = choose|j: int| 0 <= j < m && ov[j].0@ == q;
                assert(j != p);
                lemma_lookup_sorted_at(nv, j);
                lemma_lookup_sorted_at(ov, j);
            } else {
                assert forall|j: int| 0 <= j < nv.len() implies nv[j].0@ != q by {
                    if j != p {
                        assert(nv[j] == ov[j]);
                    }
                }
                lemma_lookup_missing(nv, q);
                lemma_lookup_missing(ov, q);
            }
        }
    } else {
        es.insert(p, (k, v));
        let ghost nv = es@;
        let ghost nk = entry_keys(nv);
        assert(nk =~= ok.take(p as int).push(kv) + ok.skip(p as int)) by {
            assert forall|j: int| 0 <= j < nk.len() implies nk[j] == (ok.take(p as int).push(kv)
                + ok.skip(p as int))[j] by {
                if j < p {
                    assert(nv[j] == ov[j]);
                } else if j > p {
                    assert(nv[j] == ov[j - 1]);
                }
            }
        }
        assert forall|a: int, b: int| 0 <= a < b < nk.len() implies seq_lt(
            #[trigger] nk[a],
            #[trigger] nk[b],
        ) by {
            if a < p && b == p {
                assert(nk[a] == ok[a]);
            } else if a < p && b > p {
                assert(nk[a] == ok[a]);
                assert(nk[b] == ok[b - 1]);
                assert(seq_lt(ok[a], ok[b - 1]));
            } else if a == p {
                assert(nk[b] == ok[b - 1]);
            } else if a > p {
                assert(nk[a] == ok[a - 1]);
                assert(nk[b] == ok[b - 1]);
            } else {
                assert(nk[a] == ok[a]);
                assert(nk[b] == ok[b]);
            }
        }
        assert forall|q: Seq<char>| #[trigger] lookup(nv, q) == if q == kv {
            Some(v)
        } else {
            lookup(ov, q)
        } by {
            if q == kv {
                assert(nv[p as int] == (k, v));
                lemma_lookup_sorted_at(nv, p as int);
            } else if exists|j: int| 0 <= j < m && ov[j].0@ == q {
                let j = choose|j: int| 0 <= j < m && ov[j].0@ == q;
                lemma_lookup_sorted_at(ov, j);
                if j < p {
                    assert(nv[j] == ov[j]);
                    lemma_lookup_sorted_at(nv, j);
                } else {
                    assert(nv[j + 1] == ov[j]);
                    lemma_lookup_sorted_at(nv, j + 1);
                }
            } else {
                assert forall|j: int| 0 <= j < nv.len() implies nv[j].0@ != q by {
                    if j < p {
                        assert(nv[j] == ov[j]);
                    } else if j > p {
                        assert(nv[j] == ov[j - 1]);
                    }
                }
                lemma_lookup_missing(nv, q);
                lemma_lookup_missing(ov, q);
            }
        }
    }
}

// ---------------------------------------------------------------------------
// Reading records
// ---------------------------------------------------------------------------

/// A record read from a data file: its line (or row) number and its fields
/// in key order.
pub struct Record {
    pub line: usize,
    pub fields: Vec<(String, JsonValue)>,
}

pub open spec fn record_view(r: Record) -> (int, Seq<(String, JsonValue)>) {
    (r.line as int, r.fields@)
}

pub open spec fn record_views(rs: Seq<Record>) -> Seq<(int, Seq<(String, JsonValue)>)> {
    rs.map_values(|r: Record| record_view(r))
}

/// The objects among `xs`, each with its number counted from `first`.
pub open spec fn numbered_objects(xs: Seq<JsonValue>, first: int) -> Seq<
    (int, Seq<(String, JsonValue)>),
>
    decreases xs.len(),
{
    if xs.len() == 0 {
        seq![]
    } else {
        let p = numbered_objects(xs.drop_last(), first);
        match xs.last() {
            JsonValue::Object(es, _) => p.push((first + xs.len() - 1, es@)),
            _ => p,
        }
    }
}

fn push_objects(out: &mut Vec<Record>, xs: Vec<JsonValue>, first: usize)
    requires
        first + old(out)@.len() + xs@.len() <= usize::MAX,
    ensures
        record_views(final(out)@) == record_views(old(out)@) + numbered_objects(xs@, first as int),
{
    let ghost start = record_views(out@);
    let ghost all = xs@;
    let mut k: usize = 0;
    assert(all.take(0) =~= Seq::<JsonValue>::empty());
    assert(record_views(out@) =~= start + numbered_objects(all.take(0), first as int));
    for v in it: xs.into_iter()
        invariant
            it.seq() == all,
            k == it.index(),
            k <= all.len(),
            first + all.len() <= usize::MAX,
            record_views(out@) == start + numbered_objects(all.take(k as int), first as int),
    {
        assert(all.take(k + 1).drop_last() =~= all.take(k as int));
        assert(all.take(k + 1).last() == v);
        let ghost before = out@;
        match v {
            JsonValue::Object(es, _) => {
                out.push(Record { line: first + k, fields: es });
                assert(record_views(out@) =~= record_views(before).push((first + k, es@)));
            },
            _ => {},
        }
        k = k + 1;
    }
    assert(all.take(k as int) =~= all);
}

/// The records of a JSON-lines file, given each line's parsed value (a line
/// that is blank or not valid JSON counts as `null`): the objects, numbered
/// by line from 1.
pub fn json_lines_records(lines: Vec<JsonValue>) -> (res: Vec<Record>)
    requires
        lines@.len() < usize::MAX,
    ensures
        record_views(res@) == numbered_objects(lines@, 1),
{
    let mut out: Vec<Record> = Vec::new();
    assert(record_views(out@) =~= Seq::empty());
    push_objects(&mut out, lines, 1);
    assert(record_views(out@) =~= numbered_objects(lines@, 1));
    out
}

/// The records of a JSON document (`None` when it does not parse): an
/// object is one record numbered 1, an array gives its objects numbered from
/// 1, anything else gives none.
pub open spec fn document_records(doc: Option<JsonValue>) -> Seq<(int, Seq<(String, JsonValue)>)> {
    match doc {
        Some(JsonValue::Object(es, _)) => seq![(1int, es@)],
        Some(JsonValue::Array(xs, _)) => numbered_objects(xs@, 1),
        _ => seq![],
    }
}

pub fn json_document_records(doc: Option<JsonValue>) -> (res: Vec<Record>)
    requires
        doc matches Some(JsonValue::Array(xs, _)) ==> xs@.len() < usize::MAX,
    ensures
        record_views(res@) == document_records(doc),
{
    let ghost d = doc;
    let mut out: Vec<Record> = Vec::new();
    assert(record_views(out@) =~= Seq::empty());
    match doc {
        Some(JsonValue::Object(es, _)) => {
            out.push(Record { line: 1, fields: es });
            assert(record_views(out@) =~= document_records(d));
        },
        Some(JsonValue::Array(xs, _)) => {
            push_objects(&mut out, xs, 1);
            assert(record_views(out@) =~= document_records(d));
        },
        _ => {},
    }
    out
}

// ---------------------------------------------------------------------------
// Tables
// ---------------------------------------------------------------------------

/// A delimited table as the `csv` crate reads it: the header row, then each
/// following row (`None` for a row it could not read).
pub struct CsvTable {
    pub headers: Vec<String>,
    pub rows: Vec<Option<Vec<String>>>,
}

pub open spec fn row_view(r: Option<Vec<String>>) -> Option<Seq<Seq<char>>> {
    match r {
        Some(v) => Some(views(v@)),
        None => None,
    }
}

pub open spec fn rows_view(rows: Seq<Option<Vec<String>>>) -> Seq<Option<Seq<Seq<char>>>> {
    rows.map_values(|r: Option<Vec<String>>| row_view(r))
}

/// Name for what the `csv` crate reads from `data` with the given field
/// delimiter and a header row: `None` when the header row cannot be read,
/// else the header fields and the rows that follow.
pub uninterp spec fn csv_parsed(data: Seq<u8>, delimiter: u8) -> Option<
    (Seq<Seq<char>>, Seq<Option<Seq<Seq<char>>>>),
>;

/// Reads a delimited table (`csv::ReaderBuilder` with the delimiter,
/// `headers()`, then `records()`); the result is named by [`csv_parsed`].
#[verifier::external_body]
fn read_csv(data: &[u8], delimiter: u8) -> (res: Option<CsvTable>)
    ensures
        match res {
            Some(t) => csv_parsed(data@, delimiter) == Some((views(t.headers@), rows_view(t.rows@))),
            None => csv_parsed(data@, delimiter) is None,
        },
{
    let mut rdr = csv::ReaderBuilder::new().delimiter(delimiter).from_reader(data);
    let headers: Vec<String> = rdr.headers().ok()?.iter().map(|h| h.to_owned()).collect();
    let rows = rdr.records().map(|r| r.ok().map(|r| r.iter().map(|f| f.to_owned()).collect())).collect();
    Some(CsvTable { headers, rows })
}

/// The value of the last of the first `n` columns whose header is `q`.
pub open spec fn last_column(headers: Seq<Seq<char>>, row: Seq<Seq<char>>, q: Seq<char>, n: int) -> Option<Seq<char>>
    decreases n,
{
    if n <= 0 {
        None
    } else if headers[n - 1] == q {
        Some(row[n - 1])
    } else {
        last_column(headers, row, q, n - 1)
    }
}

/// A field that holds the given text, or no field when there is none.
pub open spec fn text_field(v: Option<JsonValue>, t: Option<Seq<char>>) -> bool {
    match (v, t) {
        (None, None) => true,
        (Some(JsonValue::Str(x)), Some(s)) => x@ == s,
        _ => false,
    }
}

pub open spec fn min_int(a: int, b: int) -> int {
    if a <= b { a } else { b }
}

/// A table row as a record's fields: each header paired with the cell below
/// it, as far as both reach; a header that repeats keeps its last cell.
pub open spec fn row_fields(headers: Seq<Seq<char>>, row: Seq<Seq<char>>, es: Seq<(String, JsonValue)>) -> bool {
    &&& sorted_fields(es)
    &&& forall|q: Seq<char>| #[trigger] text_field(lookup(es, q), last_column(headers, row, q, min_int(headers.len() as int, row.len() as int)))
}

fn row_record(headers: &Vec<String>, row: &Vec<String>) -> (res: Vec<(String, JsonValue)>)
    ensures
        row_fields(views(headers@), views(row@), res@),
{
    let n = if headers.len() <= row.len() { headers.len() } else { row.len() };
    let ghost h = views(headers@);
    let ghost r = views(row@);
    let mut es: Vec<(String, JsonValue)> = Vec::new();
    let mut j: usize = 0;
    proof {
        assert forall|q: Seq<char>| #[trigger] text_field(lookup(es@, q), last_column(h, r, q, 0)) by {
            lemma_lookup_missing(es@, q);
        }
        assert(sorted_fields(es@)) by {
            assert(entry_keys(es@).len() == 0);
        }
    }
    while j < n
        invariant
            j <= n,
            n == min_int(headers@.len() as int, row@.len() as int),
            h == views(headers@),
            r == views(row@),
            sorted_fields(es@),
            forall|q: Seq<char>| #[trigger] text_field(lookup(es@, q), last_column(h, r, q, j as int)),
        decreases n - j,
    {
        let ghost before = es@;
        let k = headers[j].clone();
        let v = row[j].clone();
        assert(h[j as int] == k@ && r[j as int] == v@);
        map_put(&mut es, k, JsonValue::Str(v));
        assert forall|q: Seq<char>| #[trigger] text_field(lookup(es@, q), last_column(h, r, q, j + 1)) by {
            assert(text_field(lookup(before, q), last_column(h, r, q, j as int)));
        }
        j = j + 1;
    }
    es
}

/// The rows that were read, each with its line number (the header is line
/// 1, so the row at index `i` is line `i + 2`).
pub open spec fn read_rows(rows: Seq<Option<Seq<Seq<char>>>>) -> Seq<(int, Seq<Seq<char>>)>
    decreases rows.len(),
{
    if rows.len() == 0 {
        seq![]
    } else {
        let p = read_rows(rows.drop_last());
        match rows.last() {
            Some(r) => p.push((rows.len() + 1int, r)),
            None => p,
        }
    }
}

/// The records of a table: each row that was read, numbered by line, with
/// its fields as [`row_fields`] says.
pub open spec fn table_records(headers: Seq<Seq<char>>, rows: Seq<Option<Seq<Seq<char>>>>, rs: Seq<Record>) -> bool {
    let kept = read_rows(rows);
    &&& rs.len() == kept.len()
    &&& forall|i: int| 0 <= i < rs.len() ==> (#[trigger] rs[i]).line == kept[i].0
        && row_fields(headers, kept[i].1, rs[i].fields@)
}

pub fn csv_records(table: &CsvTable) -> (res: Vec<Record>)
    requires
        table.rows@.len() + 2 <= usize::MAX,
    ensures
        table_records(views(table.headers@), rows_view(table.rows@), res@),
{
    let ghost h = views(table.headers@);
    let ghost rows = rows_view(table.rows@);
    let n = table.rows.len();
    let mut out: Vec<Record> = Vec::new();
    let mut i: usize = 0;
    assert(rows.take(0) =~= Seq::<Option<Seq<Seq<char>>>>::empty());
    while i < n
        invariant
            i <= n == table.rows@.len(),
            n + 2 <= usize::MAX,
            h == views(table.headers@),
            rows == rows_view(table.rows@),
            table_records(h, rows.take(i as int), out@),
        decreases n - i,
    {
        assert(rows.take(i + 1).drop_last() =~= rows.take(i as int));
        assert(rows.take(i + 1).last() == row_view(table.rows@[i as int]));
        let ghost before = out@;
        match &table.rows[i] {
            Some(row) => {
                let fields = row_record(&table.headers, row);
                out.push(Record { line: i + 2, fields });
                let ghost kept = read_rows(rows.take(i + 1));
                assert(kept == read_rows(rows.take(i as int)).push((i + 2, views(row@))));
                assert forall|j: int| 0 <= j < out@.len() implies (#[trigger] out@[j]).line == kept[j].0
                    && row_fields(h, kept[j].1, out@[j].fields@) by {
                    if j < before.len() {
                        assert(out@[j] == before[j]);
                    }
                }
            },
            None => {},
        }
        i = i + 1;
    }
    assert(rows.take(n as int) =~= rows);
    out
}

/// The records of a delimited file: those of the table the `csv` crate
/// reads from `data` (see [`table_records`]), or none when it cannot read
/// the header row (or the table has too many rows to number).
pub fn delimited_records(data: &[u8], delimiter: u8) -> (res: Vec<Record>)
    ensures
        match csv_parsed(data@, delimiter) {
            Some((headers, rows)) => if rows.len() + 2 <= usize::MAX {
                table_records(headers, rows, res@)
            } else {
                res@.len() == 0
            },
            None => res@.len() == 0,
        },
{
    match read_csv(data, delimiter) {
        Some(t) => {
            if t.rows.len() <= usize::MAX - 2 {
                csv_records(&t)
            } else {
                Vec::new()
            }
        },
        None => Vec::new(),
    }
}

} // verus!
