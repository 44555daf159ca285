//! Turning ripgrep's numbered output into bounded line hits.
use vstd::prelude::*;
use crate::budget::{LIMITED_FILES_REPORT_LIMIT, MAX_TOTAL_CHARS_LIMIT, PROCESS_LINE_MULTIPLIER, STDERR_CHARS};
use crate::find::{FindRequest, LimitReason, Status, request_in_budget};
use crate::ordering::{seq_lt, sort_distinct, strictly_sorted};
use crate::paths::Rejected;
use crate::process::ProcResult;
use crate::regexes::{Matcher, compile_regex_terms, insensitive, regex_compiles, regex_matches};
use crate::text::{
    chars_of,
    contains_chars,
    contains_slice,
    from_utf8_lossy,
    lossy_utf8,
    lowercase,
    parse_usize,
    parsed_usize,
    split3,
    split_three,
    str_eq,
    string_from_chars,
    strip_trailing_newlines,
    to_lowercase,
    trim_trailing_newlines,
    truncate_char_vec,
    truncate_chars,
    truncated,
    views,
    without_dot_slash,
};

verus! {

/// One matching line: its file (relative to the root), line number and
/// bounded text.
pub struct Hit {
    pub file: String,
    pub line: Option<usize>,
    pub snippet: String,
}

pub struct HitView {
    pub file: Seq<char>,
    pub line: Option<usize>,
    pub snippet: Seq<char>,
}

impl View for Hit {
    type V = HitView;

    open spec fn view(&self) -> HitView {
        HitView { file: self.file@, line: self.line, snippet: self.snippet@ }
    }
}

pub open spec fn hit_views(hs: Seq<Hit>) -> Seq<HitView> {
    hs.map_values(|h: Hit| h@)
}

/// `s`, lower-cased when matching ignores case.
pub open spec fn fold_case(ci: bool, s: Seq<char>) -> Seq<char> {
    if ci {
        lowercase(s)
    } else {
        s
    }
}

/// Whether `term` is found on a line with text `text`: as a substring in
/// literal mode (both sides lower-cased unless case-sensitive), else as a
/// regular expression.
pub open spec fn term_found(req: FindRequest, term: Seq<char>, text: Seq<char>) -> bool {
    let ci = insensitive(req.case_sensitive);
    if req.mode@ == "literal"@ {
        contains_chars(fold_case(ci, text), fold_case(ci, term))
    } else {
        regex_matches(term, ci, text)
    }
}

/// Whether a line is kept: always when any term may match; when every term
/// must match, only if each term is found on it.
pub open spec fn line_passes(req: FindRequest, text: Seq<char>) -> bool {
    req.match_mode@ != "all"@ || forall|i: int|
        0 <= i < req.terms@.len() ==> term_found(req, #[trigger] req.terms@[i]@, text)
}

/// Number of hits in file `f`.
pub open spec fn hits_in_file(hits: Seq<HitView>, f: Seq<char>) -> nat
    decreases hits.len(),
{
    if hits.len() == 0 {
        0
    } else {
        hits_in_file(hits.drop_last(), f) + if hits.last().file == f {
            1nat
        } else {
            0nat
        }
    }
}

/// The files of `hits`, each once, in first-seen order.
pub open spec fn distinct_files(hits: Seq<HitView>) -> Seq<Seq<char>>
    decreases hits.len(),
{
    if hits.len() == 0 {
        seq![]
    } else {
        let p = distinct_files(hits.drop_last());
        if p.contains(hits.last().file) {
            p
        } else {
            p.push(hits.last().file)
        }
    }
}

/// Progress of a scan: the hits so far, the characters they account for,
/// and whether the hit or character budget stopped it.
pub struct ScanState {
    pub hits: Seq<HitView>,
    pub total: int,
    pub hit_limit: bool,
    pub out_limit: bool,
}

/// The characters one hit accounts for.
pub open spec fn hit_cost(file: Seq<char>, snippet: Seq<char>) -> int {
    (file.len() + snippet.len() + 32) as int
}

/// One output line: a line `file<TAB>number<TAB>text` whose file still has
/// room under the per-file budget and that passes the term check becomes a
/// hit (the file without `./`, the number, the text without trailing
/// newlines bounded to `max_line_chars`), unless the hit budget is used up
/// or the hit would exceed the character budget, which stops the scan.
pub open spec fn scan_step(req: FindRequest, st: ScanState, raw: Seq<u8>) -> ScanState {
    if st.hit_limit || st.out_limit {
        st
    } else {
        match split3(lossy_utf8(raw)) {
            None => st,
            Some((f0, num, text)) => {
                let f = without_dot_slash(f0);
                if !line_passes(req, text) || hits_in_file(st.hits, f) >= req.max_hits_per_file {
                    st
                } else {
                    let snippet = truncated(
                        strip_trailing_newlines(text),
                        req.max_line_chars as nat,
                    );
                    let add = hit_cost(f, snippet);
                    if st.hits.len() >= req.max_total_hits {
                        ScanState { hit_limit: true, ..st }
                    } else if st.total + add > req.max_total_chars {
                        ScanState { out_limit: true, ..st }
                    } else {
                        ScanState {
                            hits: st.hits.push(
                                HitView { file: f, line: parsed_usize(num), snippet },
                            ),
                            total: st.total + add,
                            ..st
                        }
                    }
                }
            },
        }
    }
}

/// The scan of all output lines, in order.
pub open spec fn scan_lines(req: FindRequest, lines: Seq<Vec<u8>>) -> ScanState
    decreases lines.len(),
{
    if lines.len() == 0 {
        ScanState { hits: seq![], total: 0, hit_limit: false, out_limit: false }
    } else {
        scan_step(req, scan_lines(req, lines.drop_last()), lines.last()@)
    }
}

/// A content search keeps its budget: at most `max_total_hits` hits, at
/// most `max_hits_per_file` of them in any one file, and their characters
/// within `max_total_chars`.
pub proof fn law_scan_within_budget(req: FindRequest, lines: Seq<Vec<u8>>, f: Seq<char>)
    ensures
        scan_lines(req, lines).hits.len() <= req.max_total_hits,
        scan_lines(req, lines).total <= req.max_total_chars,
        hits_in_file(scan_lines(req, lines).hits, f) <= req.max_hits_per_file,
    decreases lines.len(),
{
    if lines.len() > 0 {
        law_scan_within_budget(req, lines.drop_last(), f);
        let st = scan_lines(req, lines.drop_last());
        let raw = lines.last()@;
        if !(st.hit_limit || st.out_limit) {
            match split3(lossy_utf8(raw)) {
                None => {},
                Some((f0, num, text)) => {
                    let g = without_dot_slash(f0);
                    if line_passes(req, text) && hits_in_file(st.hits, g) < req.max_hits_per_file {
                        let snippet = truncated(strip_trailing_newlines(text), req.max_line_chars as nat);
                        lemma_hits_in_file_push(st.hits, HitView { file: g, line: parsed_usize(num), snippet }, f);
                    }
                },
            }
        }
    }
}

/// A hit from an output line `f TAB n TAB t` (no tab in `f` or `n`) is in
/// file `f` without a leading `./`, on line `n`, and its text is the whole of
/// `t` (tabs included) without trailing newlines, bounded to
/// `max_line_chars`.
pub proof fn law_hit_keeps_whole_text(
    req: FindRequest,
    st: ScanState,
    raw: Seq<u8>,
    f: Seq<char>,
    n: Seq<char>,
    t: Seq<char>,
)
    requires
        lossy_utf8(raw) == f + seq!['\t'] + n + seq!['\t'] + t,
        forall|i: int| 0 <= i < f.len() ==> f[i] != '\t',
        forall|i: int| 0 <= i < n.len() ==> n[i] != '\t',
        scan_step(req, st, raw).hits.len() > st.hits.len(),
    ensures
        scan_step(req, st, raw).hits == st.hits.push(
            HitView {
                file: without_dot_slash(f),
                line: parsed_usize(n),
                snippet: truncated(strip_trailing_newlines(t), req.max_line_chars as nat),
            },
        ),
        line_passes(req, t),
{
    crate::text::law_split3_keeps_text(f, n, t);
}

/// Every hit's text is at most `max_line_chars` characters long.
pub proof fn law_snippets_bounded(req: FindRequest, lines: Seq<Vec<u8>>, i: int)
    requires
        0 <= i < scan_lines(req, lines).hits.len(),
    ensures
        scan_lines(req, lines).hits[i].snippet.len() <= req.max_line_chars,
    decreases lines.len(),
{
    if lines.len() > 0 {
        let prev = scan_lines(req, lines.drop_last());
        let st = scan_lines(req, lines);
        if i < prev.hits.len() {
            if st.hits.len() > prev.hits.len() {
                assert(st.hits[i] == prev.hits[i]);
            }
            law_snippets_bounded(req, lines.drop_last(), i);
        } else {
            match split3(lossy_utf8(lines.last()@)) {
                Some((f0, num, text)) => {
                    crate::text::law_truncated_fits(strip_trailing_newlines(text), req.max_line_chars as nat);
                },
                None => {},
            }
        }
    }
}

proof fn lemma_hits_in_file_push(hits: Seq<HitView>, h: HitView, f: Seq<char>)
    ensures
        hits_in_file(hits.push(h), f) == hits_in_file(hits, f) + if h.file == f {
            1nat
        } else {
            0nat
        },
{
    assert(hits.push(h).drop_last() =~= hits);
}

proof fn lemma_distinct_push(hits: Seq<HitView>, h: HitView)
    ensures
        distinct_files(hits.push(h)) == if distinct_files(hits).contains(h.file) {
            distinct_files(hits)
        } else {
            distinct_files(hits).push(h.file)
        },
{
    assert(hits.push(h).drop_last() =~= hits);
}

proof fn lemma_absent_file_has_no_hits(hits: Seq<HitView>, f: Seq<char>)
    requires
        !distinct_files(hits).contains(f),
    ensures
        hits_in_file(hits, f) == 0,
    decreases hits.len(),
{
    if hits.len() > 0 {
        let p = distinct_files(hits.drop_last());
        if p.contains(hits.last().file) {
            lemma_absent_file_has_no_hits(hits.drop_last(), f);
            if hits.last().file == f {
                assert(false);
            }
        } else {
            assert(p.push(hits.last().file).len() == p.len() + 1);
            assert(!p.contains(f)) by {
                if p.contains(f) {
                    let k = choose|k: int| 0 <= k < p.len() && p[k] == f;
                    assert(p.push(hits.last().file)[k] == f);
                }
            }
            lemma_absent_file_has_no_hits(hits.drop_last(), f);
            if hits.last().file == f {
                assert(p.push(hits.last().file)[p.len() as int] == f);
            }
        }
    }
}

proof fn lemma_distinct_no_duplicates(hits: Seq<HitView>)
    ensures
        distinct_files(hits).no_duplicates(),
    decreases hits.len(),
{
    if hits.len() > 0 {
        lemma_distinct_no_duplicates(hits.drop_last());
    }
}

/// Position of `s` in `keys`.
fn position_of(keys: &Vec<String>, s: &str) -> (res: Option<usize>)
    ensures
        res matches Some(k) ==> k < keys@.len() && keys@[k as int]@ == s@,
        res is None ==> !views(keys@).contains(s@),
{
    let n = keys.len();
    let mut i: usize = 0;
    while i < n
        invariant
            i <= n == keys@.len(),
            forall|j: int| 0 <= j < i ==> keys@[j]@ != s@,
        decreases n - i,
    {
        if str_eq(keys[i].as_str(), s) {
            return Some(i);
        }
        i = i + 1;
    }
    assert forall|j: int| 0 <= j < views(keys@).len() implies views(keys@)[j] != s@ by {
        assert(views(keys@)[j] == keys@[j]@);
    }
    None
}

/// Per-file hit counts kept beside the hits: `files` is
/// `distinct_files(hits)`, `counts[i]` the hits in `files[i]`.
pub open spec fn counts_match(
    files: Seq<String>,
    counts: Seq<usize>,
    hits: Seq<HitView>,
) -> bool {
    &&& views(files) == distinct_files(hits)
    &&& counts.len() == files.len()
    &&& forall|i: int|
        0 <= i < files.len() ==> #[trigger] counts[i] == hits_in_file(hits, files[i]@)
}

/// What the term check needs, prepared once: the terms in compared case,
/// and compiled expressions in regex mode.
struct TermCheck {
    all: bool,
    literal: bool,
    ci: bool,
    needles: Vec<Vec<char>>,
    matchers: Vec<Matcher>,
}

impl TermCheck {
    spec fn ready(&self, req: FindRequest) -> bool {
        &&& self.all == (req.match_mode@ == "all"@)
        &&& self.literal == (req.mode@ == "literal"@)
        &&& self.ci == insensitive(req.case_sensitive)
        &&& self.needles@.len() == req.terms@.len()
        &&& forall|i: int|
            0 <= i < req.terms@.len() ==> #[trigger] self.needles@[i]@ == fold_case(
                self.ci,
                req.terms@[i]@,
            )
        &&& (self.all && !self.literal) ==> {
            &&& self.matchers@.len() == req.terms@.len()
            &&& forall|i: int|
                0 <= i < req.terms@.len() ==> (#[trigger] self.matchers@[i]).pattern_view()
                    == req.terms@[i]@ && self.matchers@[i].is_case_insensitive() == self.ci
        }
    }

    fn passes(&self, req: &FindRequest, text: &Vec<char>) -> (res: bool)
        requires
            self.ready(*req),
        ensures
            res == line_passes(*req, text@),
    {
        if !self.all {
            return true;
        }
        let n = req.terms.len();
        if self.literal {
            let hay: Vec<char> = if self.ci {
                let t = string_from_chars(text.as_slice());
                let l = to_lowercase(t.as_str());
                chars_of(l.as_str())
            } else {
                let mut c: Vec<char> = Vec::new();
                let mut k: usize = 0;
                while k < text.len()
                    invariant
                        k <= text@.len(),
                        c@ == text@.take(k as int),
                    decreases text@.len() - k,
                {
                    c.push(text[k]);
                    k = k + 1;
                }
                assert(text@.take(text@.len() as int) =~= text@);
                c
            };
            assert(hay@ == fold_case(self.ci, text@));
            let mut i: usize = 0;
            while i < n
                invariant
                    self.ready(*req),
                    self.all && self.literal,
                    i <= n == req.terms@.len(),
                    hay@ == fold_case(self.ci, text@),
                    forall|j: int| 0 <= j < i ==> term_found(*req, #[trigger] req.terms@[j]@, text@),
                decreases n - i,
            {
                if !contains_slice(hay.as_slice(), self.needles[i].as_slice()) {
                    assert(!term_found(*req, req.terms@[i as int]@, text@));
                    return false;
                }
                i = i + 1;
            }
            true
        } else {
            let ts = string_from_chars(text.as_slice());
            let mut i: usize = 0;
            while i < n
                invariant
                    self.ready(*req),
                    self.all && !self.literal,
                    i <= n == req.terms@.len(),
                    ts@ == text@,
                    forall|j: int| 0 <= j < i ==> term_found(*req, #[trigger] req.terms@[j]@, text@),
                decreases n - i,
            {
                if !self.matchers[i].is_match(ts.as_str()) {
                    assert(!term_found(*req, req.terms@[i as int]@, text@));
                    return false;
                }
                i = i + 1;
            }
            true
        }
    }
}

/// Term patterns that do not compile (regex mode with every term required).
#[derive(PartialEq, Eq, Structural, Clone, Copy, Debug)]
pub enum FindError {
    BadRegex,
}

/// Whether the terms must be compiled, and all of them compile.
pub open spec fn terms_compile(req: FindRequest) -> bool {
    !(req.match_mode@ == "all"@ && req.mode@ != "literal"@) || forall|i: int|
        0 <= i < req.terms@.len() ==> regex_compiles(
            #[trigger] req.terms@[i]@,
            insensitive(req.case_sensitive),
        )
}

fn prepare_check(req: &FindRequest) -> (res: Result<TermCheck, FindError>)
    ensures
        res is Ok <==> terms_compile(*req),
        res matches Ok(c) ==> c.ready(*req),
{
    let all = str_eq(req.match_mode.as_str(), "all");
    let literal = str_eq(req.mode.as_str(), "literal");
    let ci = match req.case_sensitive {
        Some(true) => false,
        _ => true,
    };
    let n = req.terms.len();
    let mut needles: Vec<Vec<char>> = Vec::new();
    let mut i: usize = 0;
    while i < n
        invariant
            i <= n == req.terms@.len(),
            ci == insensitive(req.case_sensitive),
            needles@.len() == i,
            forall|j: int|
                0 <= j < i ==> #[trigger] needles@[j]@ == fold_case(ci, req.terms@[j]@),
        decreases n - i,
    {
        let t = if ci {
            let l = to_lowercase(req.terms[i].as_str());
            chars_of(l.as_str())
        } else {
            chars_of(req.terms[i].as_str())
        };
        needles.push(t);
        i = i + 1;
    }
    let matchers = if all && !literal {
        match compile_regex_terms(&req.terms, req.case_sensitive) {
            Ok(ms) => ms,
            Err(_) => {
                return Err(FindError::BadRegex);
            },
        }
    } else {
        Vec::new()
    };
    Ok(TermCheck { all, literal, ci, needles, matchers })
}

/// The bounded scan of ripgrep's output, as [`scan_lines`] says, with the
/// per-file counts.
fn run_scan(req: &FindRequest, check: &TermCheck, lines: &Vec<Vec<u8>>) -> (res: (
    Vec<Hit>,
    usize,
    bool,
    bool,
    Vec<String>,
    Vec<usize>,
))
    requires
        check.ready(*req),
        request_in_budget(*req),
    ensures
        ({
            let st = scan_lines(*req, lines@);
            &&& hit_views(res.0@) == st.hits
            &&& res.1 == st.total
            &&& res.2 == st.hit_limit
            &&& res.3 == st.out_limit
            &&& counts_match(res.4@, res.5@, st.hits)
            &&& st.total <= req.max_total_chars
        }),
{
    let n = lines.len();
    let mut hits: Vec<Hit> = Vec::new();
    let mut total: usize = 0;
    let mut hit_limit = false;
    let mut out_limit = false;
    let mut files: Vec<String> = Vec::new();
    let mut counts: Vec<usize> = Vec::new();
    let mut i: usize = 0;
    assert(lines@.take(0) =~= Seq::<Vec<u8>>::empty());
    assert(hit_views(hits@) =~= Seq::<HitView>::empty());
    assert(views(files@) =~= Seq::<Seq<char>>::empty());
    while i < n && !hit_limit && !out_limit
        invariant
            i <= n == lines@.len(),
            check.ready(*req),
            request_in_budget(*req),
            ({
                let st = scan_lines(*req, lines@.take(i as int));
                &&& hit_views(hits@) == st.hits
                &&& total == st.total
                &&& hit_limit == st.hit_limit
                &&& out_limit == st.out_limit
                &&& counts_match(files@, counts@, st.hits)
                &&& st.total <= req.max_total_chars
                &&& st.hits.len() <= req.max_total_hits
            }),
            forall|k: int| 0 <= k < counts@.len() ==> #[trigger] counts@[k] <= hits@.len(),
        decreases n - i,
    {
        let ghost prev = scan_lines(*req, lines@.take(i as int));
        assert(lines@.take(i + 1).drop_last() =~= lines@.take(i as int));
        assert(lines@.take(i + 1).last() == lines@[i as int]);
        let s = from_utf8_lossy(lines[i].as_slice());
        let cs = chars_of(s.as_str());
        match split_three(cs.as_slice()) {
            None => {},
            Some((f0, num, text)) => {
                let f0s = string_from_chars(f0.as_slice());
                let f = crate::text::clean_rel(f0s.as_str());
                let pos = position_of(&files, f.as_str());
                let count: usize = match pos {
                    Some(k) => counts[k],
                    None => 0,
                };
                proof {
                    match pos {
                        Some(k) => {
                            assert(counts@[k as int] == hits_in_file(prev.hits, files@[k as int]@));
                        },
                        None => {
                            lemma_absent_file_has_no_hits(prev.hits, f@);
                        },
                    }
                }
                if check.passes(req, &text) && count < req.max_hits_per_file {
                    let body = trim_trailing_newlines(text.as_slice());
                    let snip = truncate_char_vec(body.as_slice(), req.max_line_chars);
                    let fl = chars_of(f.as_str()).len();
                    let sl = snip.len();
                    if hits.len() >= req.max_total_hits {
                        hit_limit = true;
                    } else if fl > MAX_TOTAL_CHARS_LIMIT || sl + fl + 32 > req.max_total_chars
                        - total {
                        out_limit = true;
                    } else {
                        let line = parse_usize(num.as_slice());
                        let snippet = string_from_chars(snip.as_slice());
                        let ghost h = HitView { file: f@, line: line, snippet: snippet@ };
                        let ghost hb = hits@;
                        let fc = f.clone();
                        hits.push(Hit { file: f, line, snippet });
                        assert(hit_views(hits@) =~= hit_views(hb).push(h));
                        total = total + sl + fl + 32;
                        proof {
                            lemma_distinct_push(prev.hits, h);
                            assert forall|j: int| 0 <= j < files@.len() implies #[trigger] counts@[j]
                                == hits_in_file(prev.hits, files@[j]@) by {}
                        }
                        match pos {
                            Some(k) => {
                                let c = counts[k];
                                counts.set(k, c + 1);
                                proof {
                                    assert forall|j: int| 0 <= j < files@.len() implies #[trigger] counts@[j]
                                        == hits_in_file(prev.hits.push(h), files@[j]@) by {
                                        lemma_hits_in_file_push(prev.hits, h, files@[j]@);
                                        if j != k {
                                            assert(views(files@)[j] != views(files@)[k as int]) by {
                                                lemma_distinct_no_duplicates(prev.hits);
                                            }
                                        }
                                    }
                                    assert(views(files@).contains(f@)) by {
                                        assert(views(files@)[k as int] == f@);
                                    }
                                }
                            },
                            None => {
                                let ghost fb = files@;
                                files.push(fc);
                                counts.push(1);
                                proof {
                                    assert(views(files@) =~= views(fb).push(f@));
                                    assert forall|j: int| 0 <= j < files@.len() implies #[trigger] counts@[j]
                                        == hits_in_file(prev.hits.push(h), files@[j]@) by {
                                        lemma_hits_in_file_push(prev.hits, h, files@[j]@);
                                        if j < fb.len() {
                                            assert(views(fb)[j] == fb[j]@);
                                            if fb[j]@ == f@ {
                                                assert(views(fb).contains(f@));
                                            }
                                        }
                                    }
                                }
                            },
                        }
                    }
                }
            },
        }
        i = i + 1;
    }
    proof {
        // once stopped, the remaining lines change nothing
        let stop_at = i;
        assert forall|m: int| stop_at <= m <= n implies #[trigger] scan_lines(*req, lines@.take(m))
            == scan_lines(*req, lines@.take(stop_at as int)) by {
            lemma_scan_stays_stopped(*req, lines@, stop_at as int, m);
        }
        assert(lines@.take(n as int) =~= lines@);
    }
    (hits, total, hit_limit, out_limit, files, counts)
}

proof fn lemma_scan_stays_stopped(req: FindRequest, lines: Seq<Vec<u8>>, a: int, m: int)
    requires
        0 <= a <= m <= lines.len(),
        a == lines.len() || scan_lines(req, lines.take(a)).hit_limit || scan_lines(
            req,
            lines.take(a),
        ).out_limit,
    ensures
        scan_lines(req, lines.take(m)) == scan_lines(req, lines.take(a)),
    decreases m - a,
{
    if m > a {
        lemma_scan_stays_stopped(req, lines, a, m - 1);
        assert(lines.take(m).drop_last() =~= lines.take(m - 1));
    }
}

// ---------------------------------------------------------------------------
// The report
// ---------------------------------------------------------------------------

/// A file whose hits reached the per-file budget, with its hit count.
pub struct LimitedFile {
    pub file: String,
    pub hits: usize,
}

/// The outcome of a content search.
pub struct FindReport {
    pub status: Status,
    pub hits: Vec<Hit>,
    /// Number of distinct files among the hits.
    pub files: usize,
    pub truncated: bool,
    pub limit_reasons: Vec<LimitReason>,
    /// Number of files whose hits reached the per-file budget.
    pub files_at_hit_limit: usize,
    pub rc: i32,
    pub bytes: usize,
    /// The first files (in name order) whose hits reached the per-file budget.
    pub limited_files: Vec<LimitedFile>,
    pub rejected: Vec<Rejected>,
    pub warnings: Vec<String>,
    /// Standard error of the search, bounded, when it is worth showing.
    pub stderr: Option<String>,
}

/// Output lines ripgrep may produce before it is stopped.
pub open spec fn find_line_limit(req: FindRequest) -> int {
    req.max_total_hits * PROCESS_LINE_MULTIPLIER
}

/// Files whose hits reached the per-file budget, in first-seen order.
pub open spec fn at_limit_files(req: FindRequest, hits: Seq<HitView>) -> Seq<Seq<char>> {
    distinct_files(hits).filter(|f: Seq<char>| hits_in_file(hits, f) >= req.max_hits_per_file)
}

pub open spec fn opt_reason(b: bool, r: LimitReason) -> Seq<LimitReason> {
    if b {
        seq![r]
    } else {
        seq![]
    }
}

/// The reasons whose conditions hold, in this order: the time limit, the
/// output byte limit, the output line limit, the hit budget, the character
/// budget, and the per-file budget.
pub open spec fn reason_list(t: bool, b: bool, l: bool, h: bool, c: bool, f: bool) -> Seq<
    LimitReason,
> {
    opt_reason(t, LimitReason::Timeout) + opt_reason(b, LimitReason::ProcessOutputBytes)
        + opt_reason(l, LimitReason::ProcessLineLimit) + opt_reason(h, LimitReason::MaxTotalHits)
        + opt_reason(c, LimitReason::MaxTotalChars) + opt_reason(f, LimitReason::MaxHitsPerFile)
}

/// Every limit that cut the search short.
pub open spec fn find_reasons(req: FindRequest, proc: ProcResult, st: ScanState) -> Seq<LimitReason> {
    reason_list(
        proc.timed_out,
        proc.byte_limit_hit,
        proc.line_limit_hit || proc.lines@.len() >= find_line_limit(req),
        st.hit_limit || st.hits.len() >= req.max_total_hits,
        st.out_limit || st.total >= req.max_total_chars,
        at_limit_files(req, st.hits).len() > 0,
    )
}

fn build_reason_list(t: bool, b: bool, l: bool, h: bool, c: bool, f: bool) -> (res: Vec<
    LimitReason,
>)
    ensures
        res@ == reason_list(t, b, l, h, c, f),
{
    let mut r: Vec<LimitReason> = Vec::new();
    if t {
        r.push(LimitReason::Timeout);
    }
    let ghost r1 = opt_reason(t, LimitReason::Timeout);
    assert(r@ =~= r1);
    if b {
        r.push(LimitReason::ProcessOutputBytes);
    }
    let ghost r2 = r1 + opt_reason(b, LimitReason::ProcessOutputBytes);
    assert(r@ =~= r2);
    if l {
        r.push(LimitReason::ProcessLineLimit);
    }
    let ghost r3 = r2 + opt_reason(l, LimitReason::ProcessLineLimit);
    assert(r@ =~= r3);
    if h {
        r.push(LimitReason::MaxTotalHits);
    }
    let ghost r4 = r3 + opt_reason(h, LimitReason::MaxTotalHits);
    assert(r@ =~= r4);
    if c {
        r.push(LimitReason::MaxTotalChars);
    }
    let ghost r5 = r4 + opt_reason(c, LimitReason::MaxTotalChars);
    assert(r@ =~= r5);
    if f {
        r.push(LimitReason::MaxHitsPerFile);
    }
    assert(r@ =~= reason_list(t, b, l, h, c, f));
    r
}

/// `error` when ripgrep failed (exit code other than 0 and 1) and nothing
/// was found; otherwise `truncated` when some limit cut the search short,
/// else `ok`.
pub open spec fn outcome(truncated: bool, rc: i32, found: nat) -> Status {
    if rc != 0 && rc != 1 && found == 0 {
        Status::Failed
    } else if truncated {
        Status::Truncated
    } else {
        Status::Complete
    }
}

/// Standard error is shown, bounded, when there is some and the search
/// failed or produced warnings.
pub open spec fn shown_stderr(stderr: Seq<char>, status: Status, has_warnings: bool) -> Option<
    Seq<char>,
> {
    if stderr.len() > 0 && (status == Status::Failed || has_warnings) {
        Some(truncated(stderr, STDERR_CHARS as nat))
    } else {
        None
    }
}

pub open spec fn opt_string_view(s: Option<String>) -> Option<Seq<char>> {
    match s {
        Some(x) => Some(x@),
        None => None,
    }
}

/// The limited-files list: the first files of `at` in name order, at most
/// the report limit of them.
pub open spec fn first_in_order(names: Seq<Seq<char>>, at: Seq<Seq<char>>, cap: nat) -> bool {
    &&& strictly_sorted(names)
    &&& names.len() == if at.len() < cap {
        at.len()
    } else {
        cap
    }
    &&& forall|i: int| 0 <= i < names.len() ==> at.contains(#[trigger] names[i])
    &&& forall|f: Seq<char>|
        #[trigger] at.contains(f) ==> names.contains(f) || (names.len() == cap && seq_lt(
            names.last(),
            f,
        ))
}

pub open spec fn limited_names(l: Seq<LimitedFile>) -> Seq<Seq<char>> {
    l.map_values(|x: LimitedFile| x.file@)
}

/// The distinct files whose counts reach `max_per`, in first-seen order.
fn select_at_limit(
    max_per: usize,
    files: &Vec<String>,
    counts: &Vec<usize>,
    Ghost(hits): Ghost<Seq<HitView>>,
) -> (res: Vec<String>)
    requires
        counts_match(files@, counts@, hits),
    ensures
        views(res@) == distinct_files(hits).filter(
            |f: Seq<char>| hits_in_file(hits, f) >= max_per,
        ),
        views(res@).no_duplicates(),
{
    let ghost pred = |f: Seq<char>| hits_in_file(hits, f) >= max_per;
    proof {
        lemma_distinct_no_duplicates(hits);
    }
    let mut at: Vec<String> = Vec::new();
    let nf = files.len();
    let mut k: usize = 0;
    assert(views(files@).take(0).filter(pred) =~= Seq::<Seq<char>>::empty()) by {
        reveal_with_fuel(Seq::filter, 1);
    }
    while k < nf
        invariant
            k <= nf == files@.len(),
            counts_match(files@, counts@, hits),
            views(files@).no_duplicates(),
            pred == |f: Seq<char>| hits_in_file(hits, f) >= max_per,
            views(at@) == views(files@).take(k as int).filter(pred),
            views(at@).no_duplicates(),
            forall|q: int|
                0 <= q < at@.len() ==> exists|j: int|
                    0 <= j < k && #[trigger] views(at@)[q] == views(files@)[j],
        decreases nf - k,
    {
        proof {
            reveal_with_fuel(Seq::filter, 1);
            assert(views(files@).take(k + 1).drop_last() =~= views(files@).take(k as int));
            assert(views(files@).take(k + 1).last() == files@[k as int]@);
        }
        if counts[k] >= max_per {
            let ghost ab = at@;
            at.push(files[k].clone());
            assert(views(at@) =~= views(ab).push(files@[k as int]@));
            proof {
                assert forall|q: int| 0 <= q < ab.len() implies views(ab)[q] != files@[k as int]@ by {
                    let j = choose|j: int| 0 <= j < k && views(ab)[q] == views(files@)[j];
                    assert(views(files@)[k as int] == files@[k as int]@);
                }
                assert forall|q: int|
                    0 <= q < at@.len() implies exists|j: int|
                        0 <= j < k + 1 && #[trigger] views(at@)[q] == views(files@)[j] by {
                    if q < ab.len() {
                        assert(views(at@)[q] == views(ab)[q]);
                    } else {
                        assert(views(at@)[q] == views(files@)[k as int]);
                    }
                }
            }
        }
        k = k + 1;
    }
    assert(views(files@).take(nf as int) =~= views(files@));
    at
}

/// The first `LIMITED_FILES_REPORT_LIMIT` of the sorted names, with their
/// hit counts.
fn limited_list(
    sorted: &Vec<String>,
    files: &Vec<String>,
    counts: &Vec<usize>,
    Ghost(hits): Ghost<Seq<HitView>>,
    Ghost(at): Ghost<Seq<Seq<char>>>,
) -> (res: Vec<LimitedFile>)
    requires
        counts_match(files@, counts@, hits),
        strictly_sorted(views(sorted@)),
        views(sorted@).to_set() == at.to_set(),
        sorted@.len() == at.len(),
    ensures
        first_in_order(limited_names(res@), at, LIMITED_FILES_REPORT_LIMIT as nat),
        forall|i: int|
            0 <= i < res@.len() ==> (#[trigger] res@[i]).hits == hits_in_file(
                hits,
                res@[i].file@,
            ),
{
    let cap = LIMITED_FILES_REPORT_LIMIT;
    let take = if sorted.len() < cap {
        sorted.len()
    } else {
        cap
    };
    let mut limited: Vec<LimitedFile> = Vec::new();
    let mut j: usize = 0;
    while j < take
        invariant
            j <= take <= sorted@.len(),
            counts_match(files@, counts@, hits),
            limited@.len() == j,
            forall|q: int|
                0 <= q < j ==> (#[trigger] limited@[q]).file@ == sorted@[q]@ && limited@[q].hits
                    == hits_in_file(hits, sorted@[q]@),
        decreases take - j,
    {
        let name = sorted[j].clone();
        let c: usize = match position_of(files, name.as_str()) {
            Some(p) => counts[p],
            None => {
                proof {
                    lemma_absent_file_has_no_hits(hits, name@);
                }
                0
            },
        };
        limited.push(LimitedFile { file: name, hits: c });
        j = j + 1;
    }
    proof {
        let names = limited_names(limited@);
        let sv = views(sorted@);
        assert(names =~= sv.take(take as int)) by {
            assert forall|q: int| 0 <= q < take implies names[q] == sv.take(take as int)[q] by {
                assert(limited@[q].file@ == sorted@[q]@);
            }
        }
        assert forall|a: int, b: int| 0 <= a < b < names.len() implies seq_lt(
            #[trigger] names[a],
            #[trigger] names[b],
        ) by {
            assert(names[a] == sv[a]);
            assert(names[b] == sv[b]);
        }
        assert forall|q: int| 0 <= q < names.len() implies at.contains(#[trigger] names[q]) by {
            assert(names[q] == sv[q]);
            assert(sv.to_set().contains(sv[q]));
        }
        assert forall|f: Seq<char>| #[trigger] at.contains(f) implies names.contains(f) || (
        names.len() == cap && seq_lt(names.last(), f)) by {
            assert(at.to_set().contains(f));
            assert(sv.to_set().contains(f));
            let p = choose|p: int| 0 <= p < sv.len() && sv[p] == f;
            if p < take {
                assert(names[p] == f);
            } else {
                assert(names.last() == sv[take - 1]);
            }
        }
        assert forall|q: int| 0 <= q < limited@.len() implies (#[trigger] limited@[q]).hits
            == hits_in_file(hits, limited@[q].file@) by {}
    }
    limited
}

/// The limit reasons, as [`find_reasons`] says.
fn reasons_of(
    req: &FindRequest,
    proc: &ProcResult,
    nhits: usize,
    total: usize,
    hit_limit: bool,
    out_limit: bool,
    any_at_limit: bool,
    Ghost(st): Ghost<ScanState>,
) -> (res: Vec<LimitReason>)
    requires
        request_in_budget(*req),
        nhits == st.hits.len(),
        total == st.total,
        hit_limit == st.hit_limit,
        out_limit == st.out_limit,
        any_at_limit == (at_limit_files(*req, st.hits).len() > 0),
    ensures
        res@ == find_reasons(*req, *proc, st),
{
    let line_limit = req.max_total_hits * PROCESS_LINE_MULTIPLIER;
    assert(line_limit == find_line_limit(*req));
    build_reason_list(
        proc.timed_out,
        proc.byte_limit_hit,
        proc.line_limit_hit || proc.lines.len() >= line_limit,
        hit_limit || nhits >= req.max_total_hits,
        out_limit || total >= req.max_total_chars,
        any_at_limit,
    )
}

/// The report of a content search whose output `proc` is; it is
/// `Err(BadRegex)` when every term must match in regex mode and some term
/// does not compile.
pub fn find_report(
    req: &FindRequest,
    proc: &ProcResult,
    rejected: Vec<Rejected>,
    warnings: Vec<String>,
) -> (res: Result<FindReport, FindError>)
    requires
        request_in_budget(*req),
    ensures
        res is Err <==> !terms_compile(*req),
        res matches Ok(r) ==> {
            let st = scan_lines(*req, proc.lines@);
            let reasons = find_reasons(*req, *proc, st);
            let at = at_limit_files(*req, st.hits);
            &&& hit_views(r.hits@) == st.hits
            &&& r.files == distinct_files(st.hits).len()
            &&& r.limit_reasons@ == reasons
            &&& r.truncated == (reasons.len() > 0)
            &&& r.status == outcome(r.truncated, proc.returncode, st.hits.len())
            &&& r.files_at_hit_limit == at.len()
            &&& r.rc == proc.returncode
            &&& r.bytes == proc.bytes_read
            &&& first_in_order(limited_names(r.limited_files@), at, LIMITED_FILES_REPORT_LIMIT as nat)
            &&& forall|i: int|
                0 <= i < r.limited_files@.len() ==> (#[trigger] r.limited_files@[i]).hits
                    == hits_in_file(st.hits, r.limited_files@[i].file@)
            &&& r.rejected@ == rejected@
            &&& r.warnings@ == warnings@
            &&& opt_string_view(r.stderr) == shown_stderr(
                proc.stderr@,
                r.status,
                warnings@.len() > 0,
            )
        },
{
    let check = match prepare_check(req) {
        Ok(c) => c,
        Err(e) => {
            return Err(e);
        },
    };
    let (hits, total, hit_limit, out_limit, files, counts) = run_scan(req, &check, &proc.lines);
    let ghost st = scan_lines(*req, proc.lines@);
    let at = select_at_limit(req.max_hits_per_file, &files, &counts, Ghost(st.hits));
    let sorted = sort_distinct(&at);
    let limited = limited_list(&sorted, &files, &counts, Ghost(st.hits), Ghost(views(at@)));
    assert(hits@.len() == st.hits.len());
    let reasons = reasons_of(
        req,
        proc,
        hits.len(),
        total,
        hit_limit,
        out_limit,
        at.len() > 0,
        Ghost(st),
    );
    let truncated = reasons.len() > 0;
    let status = if proc.returncode != 0 && proc.returncode != 1 && hits.len() == 0 {
        Status::Failed
    } else if truncated {
        Status::Truncated
    } else {
        Status::Complete
    };
    let show = !proc.stderr.as_str().is_empty() && (status == Status::Failed || warnings.len()
        > 0);
    let stderr = if show {
        Some(truncate_chars(proc.stderr.as_str(), STDERR_CHARS))
    } else {
        None
    };
    Ok(
        FindReport {
            status,
            files: files.len(),
            truncated,
            limit_reasons: reasons,
            files_at_hit_limit: at.len(),
            rc: proc.returncode,
            bytes: proc.bytes_read,
            limited_files: limited,
            rejected,
            warnings,
            stderr,
            hits,
        },
    )
}

} // verus!
