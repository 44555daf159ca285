//! Content search: the request, the ripgrep command it runs, and the
//! bounded report built from ripgrep's output.
use vstd::prelude::*;
use crate::budget::{
    clamped,
    MAX_HITS_PER_FILE,
    MAX_HITS_PER_FILE_LIMIT,
    MAX_LINE_CHARS,
    MAX_LINE_CHARS_LIMIT,
    MAX_OFFSET,
    MAX_TOTAL_CHARS,
    MAX_TOTAL_CHARS_LIMIT,
    MAX_TOTAL_HITS,
    MAX_TOTAL_HITS_LIMIT,
    MIN_HITS_PER_FILE,
    MIN_LINE_CHARS,
    MIN_OFFSET,
    MIN_TOTAL_CHARS,
    MIN_TOTAL_HITS,
    clamp_usize,
};
use crate::json::{Args, as_list_value, bool_of, list_of, opt_bool_arg, str_arg, str_of, usize_arg, usize_of};
use crate::regexes::insensitive;
use crate::text::{decimal, decimal_string, views};
use vstd::utf8::encode_utf8;

verus! {

/// Overall outcome of an operation.
#[derive(PartialEq, Eq, Structural, Clone, Copy, Debug)]
pub enum Status {
    Complete,
    Truncated,
    Failed,
}

impl Status {
    /// The status as it is reported.
    pub fn name(&self) -> (res: &'static str)
        ensures
            res@ == status_name(*self),
    {
        match self {
            Status::Complete => "ok",
            Status::Truncated => "truncated",
            Status::Failed => "error",
        }
    }
}

pub open spec fn status_name(s: Status) -> Seq<char> {
    match s {
        Status::Complete => "ok"@,
        Status::Truncated => "truncated"@,
        Status::Failed => "error"@,
    }
}

/// Why a result is incomplete.
#[derive(PartialEq, Eq, Structural, Clone, Copy, Debug)]
pub enum LimitReason {
    Timeout,
    ProcessOutputBytes,
    ProcessLineLimit,
    MaxTotalHits,
    MaxTotalChars,
    MaxHitsPerFile,
    FilesPageHasMore,
    FilesOnlyLimit,
}

impl LimitReason {
    /// The reason as it is reported.
    pub fn name(&self) -> (res: &'static str)
        ensures
            res@ == reason_name(*self),
    {
        match self {
            LimitReason::Timeout => "timeout",
            LimitReason::ProcessOutputBytes => "process_output_bytes",
            LimitReason::ProcessLineLimit => "process_line_limit",
            LimitReason::MaxTotalHits => "max_total_hits",
            LimitReason::MaxTotalChars => "max_total_chars",
            LimitReason::MaxHitsPerFile => "max_hits_per_file",
            LimitReason::FilesPageHasMore => "files_page_has_more",
            LimitReason::FilesOnlyLimit => "files_only_limit",
        }
    }
}

pub open spec fn reason_name(r: LimitReason) -> Seq<char> {
    match r {
        LimitReason::Timeout => "timeout"@,
        LimitReason::ProcessOutputBytes => "process_output_bytes"@,
        LimitReason::ProcessLineLimit => "process_line_limit"@,
        LimitReason::MaxTotalHits => "max_total_hits"@,
        LimitReason::MaxTotalChars => "max_total_chars"@,
        LimitReason::MaxHitsPerFile => "max_hits_per_file"@,
        LimitReason::FilesPageHasMore => "files_page_has_more"@,
        LimitReason::FilesOnlyLimit => "files_only_limit"@,
    }
}

// ---------------------------------------------------------------------------
// The request
// ---------------------------------------------------------------------------

/// A content-search request with its budget resolved.
pub struct FindRequest {
    pub query: Option<String>,
    pub terms: Vec<String>,
    pub match_mode: String,
    pub mode: String,
    pub case_sensitive: Option<bool>,
    pub max_total_hits: usize,
    pub max_hits_per_file: usize,
    pub max_line_chars: usize,
    pub max_total_chars: usize,
    pub offset: usize,
    pub files_only: bool,
}

/// The request names no search term.
#[derive(PartialEq, Eq, Structural, Clone, Copy, Debug)]
pub enum RequestError {
    EmptyQuery,
}

/// The search terms of a request: a non-empty `query` first, then the
/// entries of `terms`.
pub open spec fn request_terms(args: Args) -> Seq<Seq<char>> {
    let q = match str_of(args.get_spec("query"@)) {
        Some(q) => if q.len() > 0 {
            seq![q]
        } else {
            seq![]
        },
        None => seq![],
    };
    q + list_of(args.get_spec("terms"@))
}

/// A budget argument: the supplied value or the default, clamped.
pub open spec fn budget_arg(v: Option<usize>, lo: usize, hi: usize, default: usize) -> int {
    clamped(
        match v {
            Some(x) => x as int,
            None => default as int,
        },
        lo as int,
        hi as int,
    )
}

pub open spec fn opt_view(s: Option<String>) -> Option<Seq<char>> {
    match s {
        Some(x) => Some(x@),
        None => None,
    }
}

pub open spec fn text_or(s: Option<Seq<char>>, default: Seq<char>) -> Seq<char> {
    match s {
        Some(x) => x,
        None => default,
    }
}

/// What a request's arguments say: its terms (an error when there are
/// none), `match` (default `any`), `mode` (default `literal`),
/// `case_sensitive`, `files_only` (default off), and its budget values,
/// each the supplied value or the default clamped to the budget bounds.
pub open spec fn request_matches_args(req: FindRequest, args: Args) -> bool {
    &&& opt_view(req.query) == str_of(args.get_spec("query"@))
    &&& views(req.terms@) == request_terms(args)
    &&& req.match_mode@ == text_or(str_of(args.get_spec("match"@)), "any"@)
    &&& req.mode@ == text_or(str_of(args.get_spec("mode"@)), "literal"@)
    &&& req.case_sensitive == bool_of(args.get_spec("case_sensitive"@))
    &&& req.files_only == (bool_of(args.get_spec("files_only"@)) == Some(true))
    &&& req.max_total_hits == budget_arg(
        usize_of(args.get_spec("max_total_hits"@)),
        MIN_TOTAL_HITS,
        MAX_TOTAL_HITS_LIMIT,
        MAX_TOTAL_HITS,
    )
    &&& req.max_hits_per_file == budget_arg(
        usize_of(args.get_spec("max_hits_per_file"@)),
        MIN_HITS_PER_FILE,
        MAX_HITS_PER_FILE_LIMIT,
        MAX_HITS_PER_FILE,
    )
    &&& req.max_line_chars == budget_arg(
        usize_of(args.get_spec("max_line_chars"@)),
        MIN_LINE_CHARS,
        MAX_LINE_CHARS_LIMIT,
        MAX_LINE_CHARS,
    )
    &&& req.max_total_chars == budget_arg(
        usize_of(args.get_spec("max_total_chars"@)),
        MIN_TOTAL_CHARS,
        MAX_TOTAL_CHARS_LIMIT,
        MAX_TOTAL_CHARS,
    )
    &&& req.offset == budget_arg(usize_of(args.get_spec("offset"@)), MIN_OFFSET, MAX_OFFSET, MIN_OFFSET)
}

/// The budget values of a request lie within the budget bounds, and it has
/// at least one term.
pub open spec fn request_in_budget(req: FindRequest) -> bool {
    &&& MIN_TOTAL_HITS <= req.max_total_hits <= MAX_TOTAL_HITS_LIMIT
    &&& MIN_HITS_PER_FILE <= req.max_hits_per_file <= MAX_HITS_PER_FILE_LIMIT
    &&& MIN_LINE_CHARS <= req.max_line_chars <= MAX_LINE_CHARS_LIMIT
    &&& MIN_TOTAL_CHARS <= req.max_total_chars <= MAX_TOTAL_CHARS_LIMIT
    &&& MIN_OFFSET <= req.offset <= MAX_OFFSET
    &&& req.terms@.len() > 0
}

/// The search terms of a request, as [`request_terms`] says.
pub fn search_terms_of(args: &Args) -> (res: Vec<String>)
    ensures
        views(res@) == request_terms(*args),
{
    let query = str_arg(args, "query");
    let mut terms: Vec<String> = Vec::new();
    match &query {
        Some(q) => {
            if !q.as_str().is_empty() {
                terms.push(q.clone());
            }
        },
        None => {},
    }
    let extra = as_list_value(args.get("terms"));
    let ghost t0 = terms@;
    let mut k: usize = 0;
    while k < extra.len()
        invariant
            k <= extra@.len(),
            views(terms@) == views(t0) + views(extra@).take(k as int),
        decreases extra@.len() - k,
    {
        let ghost before = terms@;
        terms.push(extra[k].clone());
        assert(views(terms@) =~= views(before).push(extra@[k as int]@));
        assert(views(extra@).take(k + 1) =~= views(extra@).take(k as int).push(extra@[k as int]@));
        k = k + 1;
    }
    assert(views(extra@).take(extra@.len() as int) =~= views(extra@));
    assert(views(terms@) =~= request_terms(*args));
    terms
}

/// Reads a content-search request from its arguments.
pub fn parse_find_request(args: &Args) -> (res: Result<FindRequest, RequestError>)
    ensures
        res is Err <==> request_terms(*args).len() == 0,
        res matches Ok(req) ==> request_matches_args(req, *args) && request_in_budget(req),
{
    let query = str_arg(args, "query");
    let terms = search_terms_of(args);
    if terms.len() == 0 {
        return Err(RequestError::EmptyQuery);
    }
    let match_mode = match str_arg(args, "match") {
        Some(m) => m,
        None => "any".to_owned(),
    };
    let mode = match str_arg(args, "mode") {
        Some(m) => m,
        None => "literal".to_owned(),
    };
    let case_sensitive = opt_bool_arg(args, "case_sensitive");
    let files_only = match opt_bool_arg(args, "files_only") {
        Some(b) => b,
        None => false,
    };
    let max_total_hits = clamp_usize(
        usize_arg(args, "max_total_hits"),
        MIN_TOTAL_HITS,
        MAX_TOTAL_HITS_LIMIT,
        MAX_TOTAL_HITS,
    );
    let max_hits_per_file = clamp_usize(
        usize_arg(args, "max_hits_per_file"),
        MIN_HITS_PER_FILE,
        MAX_HITS_PER_FILE_LIMIT,
        MAX_HITS_PER_FILE,
    );
    let max_line_chars = clamp_usize(
        usize_arg(args, "max_line_chars"),
        MIN_LINE_CHARS,
        MAX_LINE_CHARS_LIMIT,
        MAX_LINE_CHARS,
    );
    let max_total_chars = clamp_usize(
        usize_arg(args, "max_total_chars"),
        MIN_TOTAL_CHARS,
        MAX_TOTAL_CHARS_LIMIT,
        MAX_TOTAL_CHARS,
    );
    let offset = clamp_usize(usize_arg(args, "offset"), MIN_OFFSET, MAX_OFFSET, MIN_OFFSET);
    Ok(
        FindRequest {
            query,
            terms,
            match_mode,
            mode,
            case_sensitive,
            max_total_hits,
            max_hits_per_file,
            max_line_chars,
            max_total_chars,
            offset,
            files_only,
        },
    )
}

// ---------------------------------------------------------------------------
// The command
// ---------------------------------------------------------------------------

/// Length in UTF-8 bytes (as `str::len` reports it).
pub open spec fn byte_len(s: Seq<char>) -> usize {
    encode_utf8(s).len() as usize
}

/// Index of the longest term by bytes, the last one among equals (what
/// `max_by_key(len)` picks).
pub open spec fn longest_index(ts: Seq<Seq<char>>) -> int
    decreases ts.len(),
{
    if ts.len() <= 1 {
        0
    } else {
        let k = longest_index(ts.drop_last());
        if byte_len(ts.last()) >= byte_len(ts[k]) {
            ts.len() - 1
        } else {
            k
        }
    }
}

proof fn lemma_longest_index_bounds(ts: Seq<Seq<char>>)
    requires
        ts.len() > 0,
    ensures
        0 <= longest_index(ts) < ts.len(),
    decreases ts.len(),
{
    if ts.len() > 1 {
        lemma_longest_index_bounds(ts.drop_last());
    }
}

/// Position of the longest term, the last one among equals.
pub fn longest_term_index(ts: &Vec<String>) -> (res: usize)
    requires
        ts@.len() > 0,
    ensures
        res == longest_index(views(ts@)),
        res < ts@.len(),
{
    let n = ts.len();
    let mut best: usize = 0;
    let mut i: usize = 1;
    assert(views(ts@).take(1).len() == 1);
    while i < n
        invariant
            1 <= i <= n == ts@.len(),
            best < i,
            best == longest_index(views(ts@).take(i as int)),
        decreases n - i,
    {
        let ghost p = views(ts@).take(i + 1);
        assert(p.drop_last() =~= views(ts@).take(i as int));
        assert(p.last() == ts@[i as int]@);
        assert(p[best as int] == ts@[best as int]@);
        let li = ts[i].as_str().len();
        let lb = ts[best].as_str().len();
        assert(li == byte_len(ts@[i as int]@));
        assert(lb == byte_len(ts@[best as int]@));
        if li >= lb {
            best = i;
        }
        i = i + 1;
    }
    assert(views(ts@).take(n as int) =~= views(ts@));
    best
}

/// The terms passed to ripgrep: the longest one alone when every term must
/// match on a line (the others are checked on its output), else all.
pub open spec fn search_terms(req: FindRequest) -> Seq<Seq<char>> {
    if req.match_mode@ == "all"@ {
        seq![views(req.terms@)[longest_index(views(req.terms@))]]
    } else {
        views(req.terms@)
    }
}

/// `-e TERM` for each term.
pub open spec fn term_flags(ts: Seq<Seq<char>>) -> Seq<Seq<char>>
    decreases ts.len(),
{
    if ts.len() == 0 {
        seq![]
    } else {
        term_flags(ts.drop_last()) + seq!["-e"@, ts.last()]
    }
}

/// The content-search command: numbered, file-prefixed, uncolored output
/// with tab-separated fields; at most `max_hits_per_file` matches per file
/// and `max_line_chars` columns per line (with a preview of longer lines);
/// files up to 5M; case-insensitive unless asked otherwise; the globs;
/// literal matching in literal mode; the search terms; then the paths.
pub open spec fn find_command(
    rg: Seq<char>,
    req: FindRequest,
    paths: Seq<Seq<char>>,
    globs: Seq<Seq<char>>,
) -> Seq<Seq<char>> {
    seq![
        rg,
        "-n"@,
        "-H"@,
        "--no-heading"@,
        "--color=never"@,
        "--field-match-separator"@,
        "\t"@,
        "--max-count"@,
        decimal(req.max_hits_per_file as nat),
        "--max-columns"@,
        decimal(req.max_line_chars as nat),
        "--max-columns-preview"@,
        "--max-filesize"@,
        "5M"@,
    ] + (if insensitive(req.case_sensitive) {
        seq!["-i"@]
    } else {
        seq![]
    }) + globs + (if req.mode@ == "literal"@ {
        seq!["-F"@]
    } else {
        seq![]
    }) + term_flags(search_terms(req)) + paths
}

fn push_str(out: &mut Vec<String>, s: &str)
    ensures
        views(final(out)@) == views(old(out)@).push(s@),
{
    let ghost before = out@;
    out.push(s.to_owned());
    assert(views(out@) =~= views(before).push(s@));
}

fn push_string(out: &mut Vec<String>, s: String)
    ensures
        views(final(out)@) == views(old(out)@).push(s@),
{
    let ghost before = out@;
    out.push(s);
    assert(views(out@) =~= views(before).push(s@));
}

pub fn push_all(out: &mut Vec<String>, xs: &Vec<String>)
    ensures
        views(final(out)@) == views(old(out)@) + views(xs@),
{
    let n = xs.len();
    let mut i: usize = 0;
    let ghost start = views(out@);
    while i < n
        invariant
            i <= n == xs@.len(),
            views(out@) == start + views(xs@).take(i as int),
        decreases n - i,
    {
        push_string(out, xs[i].clone());
        assert(views(xs@).take(i + 1) =~= views(xs@).take(i as int).push(xs@[i as int]@));
        i = i + 1;
    }
    assert(views(xs@).take(n as int) =~= views(xs@));
}

/// Appends `-e TERM` for each term.
pub fn push_term_flags(out: &mut Vec<String>, ts: &Vec<String>)
    ensures
        views(final(out)@) == views(old(out)@) + term_flags(views(ts@)),
{
    let n = ts.len();
    let mut i: usize = 0;
    let ghost start = views(out@);
    assert(views(ts@).take(0) =~= Seq::<Seq<char>>::empty());
    assert(start + term_flags(Seq::<Seq<char>>::empty()) =~= start);
    while i < n
        invariant
            i <= n == ts@.len(),
            views(out@) == start + term_flags(views(ts@).take(i as int)),
        decreases n - i,
    {
        push_str(out, "-e");
        push_string(out, ts[i].clone());
        let ghost p = views(ts@).take(i + 1);
        assert(p.drop_last() =~= views(ts@).take(i as int));
        assert(views(out@) =~= start + term_flags(p));
        i = i + 1;
    }
    assert(views(ts@).take(n as int) =~= views(ts@));
}

/// Builds the content-search command as [`find_command`] says.
pub fn build_find_command(
    rg: &str,
    req: &FindRequest,
    paths: &Vec<String>,
    globs: &Vec<String>,
) -> (res: Vec<String>)
    requires
        req.terms@.len() > 0,
    ensures
        views(res@) == find_command(rg@, *req, views(paths@), views(globs@)),
{
    let mut cmd: Vec<String> = Vec::new();
    push_str(&mut cmd, rg);
    push_str(&mut cmd, "-n");
    push_str(&mut cmd, "-H");
    push_str(&mut cmd, "--no-heading");
    push_str(&mut cmd, "--color=never");
    push_str(&mut cmd, "--field-match-separator");
    push_str(&mut cmd, "\t");
    push_str(&mut cmd, "--max-count");
    push_string(&mut cmd, decimal_string(req.max_hits_per_file));
    push_str(&mut cmd, "--max-columns");
    push_string(&mut cmd, decimal_string(req.max_line_chars));
    push_str(&mut cmd, "--max-columns-preview");
    push_str(&mut cmd, "--max-filesize");
    push_str(&mut cmd, "5M");
    let ghost head = views(cmd@);
    let ci = match req.case_sensitive {
        Some(true) => false,
        _ => true,
    };
    if ci {
        push_str(&mut cmd, "-i");
    }
    let ghost h1 = views(cmd@);
    push_all(&mut cmd, globs);
    let ghost h2 = views(cmd@);
    let literal = crate::text::str_eq(req.mode.as_str(), "literal");
    if literal {
        push_str(&mut cmd, "-F");
    }
    let ghost h3 = views(cmd@);
    let all = crate::text::str_eq(req.match_mode.as_str(), "all");
    let mut st: Vec<String> = Vec::new();
    if all {
        let k = longest_term_index(&req.terms);
        push_string(&mut st, req.terms[k].clone());
        assert(views(st@) =~= search_terms(*req));
    } else {
        push_all(&mut st, &req.terms);
        assert(views(st@) =~= search_terms(*req));
    }
    push_term_flags(&mut cmd, &st);
    let ghost h4 = views(cmd@);
    push_all(&mut cmd, paths);
    assert(views(cmd@) =~= find_command(rg@, *req, views(paths@), views(globs@)));
    cmd
}

} // verus!
