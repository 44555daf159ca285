//! File listing: ripgrep's file list under the scopes, filtered by name.
use vstd::prelude::*;
use crate::budget::{
    MAX_TOTAL_CHARS,
    MAX_TOTAL_CHARS_LIMIT,
    MAX_TOTAL_HITS,
    MAX_TOTAL_HITS_LIMIT,
    MIN_TOTAL_CHARS,
    MIN_TOTAL_HITS,
    FILE_SCAN_LINE_MULTIPLIER,
    clamp_usize,
};
use crate::files_only::listed_name;
use crate::find::{Status, budget_arg, opt_view, push_all, text_or};
use crate::json::{Args, bool_of, opt_bool_arg, str_arg, str_of, usize_arg, usize_of};
use crate::paths::Rejected;
use crate::process::ProcResult;
use crate::regexes::{Matcher, compile_regex, insensitive, regex_compiles, regex_matches};
use crate::scan::fold_case;
use crate::text::{
    chars_of,
    clean_rel,
    contains_chars,
    contains_slice,
    from_utf8_lossy,
    str_eq,
    string_from_chars,
    to_lowercase,
    trim_chars,
    views,
};

verus! {

/// A file-listing request with its budget resolved.
pub struct FilesRequest {
    pub query: Option<String>,
    pub mode: String,
    pub case_sensitive: Option<bool>,
    pub max_files: usize,
    pub max_total_chars: usize,
}

/// What a listing request's arguments say: the name filter `query`, `mode`
/// (default `literal`), `case_sensitive`, and the file and character
/// budgets (supplied or default, clamped).
pub open spec fn files_request_matches(req: FilesRequest, args: Args) -> bool {
    &&& opt_view(req.query) == str_of(args.get_spec("query"@))
    &&& req.mode@ == text_or(str_of(args.get_spec("mode"@)), "literal"@)
    &&& req.case_sensitive == bool_of(args.get_spec("case_sensitive"@))
    &&& req.max_files == budget_arg(
        usize_of(args.get_spec("max_files"@)),
        MIN_TOTAL_HITS,
        MAX_TOTAL_HITS_LIMIT,
        MAX_TOTAL_HITS,
    )
    &&& req.max_total_chars == budget_arg(
        usize_of(args.get_spec("max_total_chars"@)),
        MIN_TOTAL_CHARS,
        MAX_TOTAL_CHARS_LIMIT,
        MAX_TOTAL_CHARS,
    )
}

pub open spec fn files_request_in_budget(req: FilesRequest) -> bool {
    &&& MIN_TOTAL_HITS <= req.max_files <= MAX_TOTAL_HITS_LIMIT
    &&& MIN_TOTAL_CHARS <= req.max_total_chars <= MAX_TOTAL_CHARS_LIMIT
}

/// Reads a file-listing request from its arguments.
pub fn parse_files_request(args: &Args) -> (res: FilesRequest)
    ensures
        files_request_matches(res, *args),
        files_request_in_budget(res),
{
    let query = str_arg(args, "query");
    let mode = match str_arg(args, "mode") {
        Some(m) => m,
        None => "literal".to_owned(),
    };
    let case_sensitive = opt_bool_arg(args, "case_sensitive");
    let max_files = clamp_usize(
        usize_arg(args, "max_files"),
        MIN_TOTAL_HITS,
        MAX_TOTAL_HITS_LIMIT,
        MAX_TOTAL_HITS,
    );
    let max_total_chars = clamp_usize(
        usize_arg(args, "max_total_chars"),
        MIN_TOTAL_CHARS,
        MAX_TOTAL_CHARS_LIMIT,
        MAX_TOTAL_CHARS,
    );
    FilesRequest { query, mode, case_sensitive, max_files, max_total_chars }
}

/// The listing command: `rg --files`, uncolored, the globs, then the paths.
pub open spec fn files_command(rg: Seq<char>, paths: Seq<Seq<char>>, globs: Seq<Seq<char>>) -> Seq<
    Seq<char>,
> {
    seq![rg, "--files"@, "--color=never"@] + globs + paths
}

pub fn build_files_command(rg: &str, paths: &Vec<String>, globs: &Vec<String>) -> (res: Vec<
    String,
>)
    ensures
        views(res@) == files_command(rg@, views(paths@), views(globs@)),
{
    let mut cmd: Vec<String> = Vec::new();
    cmd.push(rg.to_owned());
    cmd.push("--files".to_owned());
    cmd.push("--color=never".to_owned());
    assert(views(cmd@) =~= seq![rg@, "--files"@, "--color=never"@]);
    push_all(&mut cmd, globs);
    push_all(&mut cmd, paths);
    assert(views(cmd@) =~= files_command(rg@, views(paths@), views(globs@)));
    cmd
}

/// Output lines the listing may produce.
pub open spec fn files_line_limit(req: FilesRequest) -> int {
    req.max_files * FILE_SCAN_LINE_MULTIPLIER
}

pub fn files_line_limit_of(req: &FilesRequest) -> (res: usize)
    requires
        files_request_in_budget(*req),
    ensures
        res == files_line_limit(*req),
{
    req.max_files * FILE_SCAN_LINE_MULTIPLIER
}

/// Whether the name filter is a regular expression that must compile.
pub open spec fn filter_is_regex(req: FilesRequest) -> bool {
    req.query is Some && req.mode@ != "literal"@
}

/// Whether a listed name passes the name filter: every name without a
/// query; a substring match in literal mode (ignoring case unless
/// case-sensitive); else a regular-expression match.
pub open spec fn name_passes(req: FilesRequest, name: Seq<char>) -> bool {
    match req.query {
        None => true,
        Some(q) => if req.mode@ == "literal"@ {
            let ci = req.case_sensitive != Some(true);
            contains_chars(fold_case(ci, name), fold_case(ci, q@))
        } else {
            regex_matches(q@, insensitive(req.case_sensitive), name)
        },
    }
}

/// Progress of a listing: names taken, their characters, and whether one
/// did not fit.
pub struct ListState {
    pub files: Seq<Seq<char>>,
    pub total: int,
    pub stopped: bool,
}

/// One listed name: a non-empty name that passes the filter is taken if the
/// list has room and its characters fit; the first that does not fit ends
/// the list.
pub open spec fn list_step(req: FilesRequest, st: ListState, raw: Seq<u8>) -> ListState {
    let name = listed_name(raw);
    if st.stopped || name.len() == 0 || !name_passes(req, name) {
        st
    } else if st.files.len() >= req.max_files || st.total + name.len() > req.max_total_chars {
        ListState { stopped: true, ..st }
    } else {
        ListState { files: st.files.push(name), total: st.total + name.len(), ..st }
    }
}

pub open spec fn list_lines(req: FilesRequest, lines: Seq<Vec<u8>>) -> ListState
    decreases lines.len(),
{
    if lines.len() == 0 {
        ListState { files: seq![], total: 0, stopped: false }
    } else {
        list_step(req, list_lines(req, lines.drop_last()), lines.last()@)
    }
}

/// The outcome of a file listing.
pub struct FilesReport {
    pub status: Status,
    pub files: Vec<String>,
    pub truncated: bool,
    pub rc: i32,
    pub rejected: Vec<Rejected>,
    pub warnings: Vec<String>,
}

/// The name filter's pattern does not compile.
#[derive(PartialEq, Eq, Structural, Clone, Copy, Debug)]
pub enum FilesError {
    BadRegex,
}

fn name_check(req: &FilesRequest, m: &Option<Matcher>, name: &String) -> (res: bool)
    requires
        filter_is_regex(*req) ==> (m matches Some(mm) && mm.pattern_view() == req.query.unwrap()@
            && mm.is_case_insensitive() == insensitive(req.case_sensitive)),
    ensures
        res == name_passes(*req, name@),
{
    match &req.query {
        None => true,
        Some(q) => {
            if str_eq(req.mode.as_str(), "literal") {
                let ci = match req.case_sensitive {
                    Some(true) => false,
                    _ => true,
                };
                let (h, n) = if ci {
                    (
                        chars_of(to_lowercase(name.as_str()).as_str()),
                        chars_of(to_lowercase(q.as_str()).as_str()),
                    )
                } else {
                    (chars_of(name.as_str()), chars_of(q.as_str()))
                };
                contains_slice(h.as_slice(), n.as_slice())
            } else {
                match m {
                    Some(mm) => mm.is_match(name.as_str()),
                    None => false,
                }
            }
        },
    }
}

/// The listing report from ripgrep's file list: `Err(BadRegex)` when the
/// name filter is a regular expression that does not compile; otherwise the
/// names as [`list_lines`] takes them, cut short when the listing hit a
/// limit or a budget was reached.
pub fn files_report(
    req: &FilesRequest,
    proc: &ProcResult,
    rejected: Vec<Rejected>,
    warnings: Vec<String>,
) -> (res: Result<FilesReport, FilesError>)
    requires
        files_request_in_budget(*req),
    ensures
        res is Err <==> (filter_is_regex(*req) && !regex_compiles(
            req.query.unwrap()@,
            insensitive(req.case_sensitive),
        )),
        res matches Ok(r) ==> {
            let st = list_lines(*req, proc.lines@);
            &&& views(r.files@) == st.files
            &&& r.truncated == (proc.timed_out || proc.byte_limit_hit || proc.line_limit_hit
                || st.files.len() >= req.max_files || st.total >= req.max_total_chars)
            &&& r.status == if r.truncated {
                Status::Truncated
            } else {
                Status::Complete
            }
            &&& r.rc == proc.returncode
            &&& r.rejected@ == rejected@
            &&& r.warnings@ == warnings@
        },
{
    let m: Option<Matcher> = match &req.query {
        Some(q) => if !str_eq(req.mode.as_str(), "literal") {
            match compile_regex(q.as_str(), req.case_sensitive) {
                Ok(mm) => Some(mm),
                Err(_) => {
                    return Err(FilesError::BadRegex);
                },
            }
        } else {
            None
        },
        None => None,
    };
    let n = proc.lines.len();
    let mut files: Vec<String> = Vec::new();
    let mut total: usize = 0;
    let mut stopped = false;
    let mut i: usize = 0;
    assert(proc.lines@.take(0) =~= Seq::<Vec<u8>>::empty());
    assert(views(files@) =~= Seq::<Seq<char>>::empty());
    while i < n && !stopped
        invariant
            i <= n == proc.lines@.len(),
            files_request_in_budget(*req),
            filter_is_regex(*req) ==> (m matches Some(mm) && mm.pattern_view()
                == req.query.unwrap()@ && mm.is_case_insensitive() == insensitive(
                req.case_sensitive,
            )),
            ({
                let st = list_lines(*req, proc.lines@.take(i as int));
                &&& views(files@) == st.files
                &&& total == st.total
                &&& stopped == st.stopped
                &&& total <= req.max_total_chars
            }),
        decreases n - i,
    {
        assert(proc.lines@.take(i + 1).drop_last() =~= proc.lines@.take(i as int));
        assert(proc.lines@.take(i + 1).last() == proc.lines@[i as int]);
        let s = from_utf8_lossy(proc.lines[i].as_slice());
        let cs = chars_of(s.as_str());
        let t = trim_chars(cs.as_slice());
        let ts = string_from_chars(t.as_slice());
        let name = clean_rel(ts.as_str());
        if !name.as_str().is_empty() && name_check(req, &m, &name) {
            let nl = chars_of(name.as_str()).len();
            if files.len() >= req.max_files || nl > req.max_total_chars - total {
                stopped = true;
            } else {
                let ghost fb = files@;
                files.push(name);
                assert(views(files@) =~= views(fb).push(files@.last()@));
                total = total + nl;
            }
        }
        i = i + 1;
    }
    proof {
        lemma_list_stays_stopped(*req, proc.lines@, i as int, n as int);
        assert(proc.lines@.take(n as int) =~= proc.lines@);
    }
    let truncated = proc.timed_out || proc.byte_limit_hit || proc.line_limit_hit || files.len()
        >= req.max_files || total >= req.max_total_chars;
    let status = if truncated {
        Status::Truncated
    } else {
        Status::Complete
    };
    Ok(FilesReport { status, files, truncated, rc: proc.returncode, rejected, warnings })
}

/// A file listing keeps its budget: at most `max_files` names, whose
/// characters total at most `max_total_chars`, each of them a non-empty
/// name that passes the filter.
pub proof fn law_listing_within_budget(req: FilesRequest, lines: Seq<Vec<u8>>)
    ensures
        list_lines(req, lines).files.len() <= req.max_files,
        list_lines(req, lines).total <= req.max_total_chars,
        forall|i: int| 0 <= i < list_lines(req, lines).files.len() ==> (#[trigger] list_lines(req, lines).files[i]).len() > 0
            && name_passes(req, list_lines(req, lines).files[i]),
    decreases lines.len(),
{
    if lines.len() > 0 {
        law_listing_within_budget(req, lines.drop_last());
        let prev = list_lines(req, lines.drop_last());
        let st = list_lines(req, lines);
        assert forall|i: int| 0 <= i < st.files.len() implies (#[trigger] st.files[i]).len() > 0 && name_passes(req, st.files[i]) by {
            if i < prev.files.len() {
                assert(st.files[i] == prev.files[i]);
            }
        }
    }
}

/// A case-sensitive literal name filter keeps a listed name exactly when
/// the name contains the query as it is written, so every file such a
/// listing returns contains the query exactly.
pub proof fn law_case_sensitive_filter_is_exact(req: FilesRequest, lines: Seq<Vec<u8>>, name: Seq<char>)
    requires
        req.query is Some,
        req.mode@ == "literal"@,
        req.case_sensitive == Some(true),
    ensures
        name_passes(req, name) == contains_chars(name, req.query.unwrap()@),
        forall|i: int| 0 <= i < list_lines(req, lines).files.len() ==> contains_chars(
            #[trigger] list_lines(req, lines).files[i],
            req.query.unwrap()@,
        ),
{
    law_listing_within_budget(req, lines);
    assert forall|i: int| 0 <= i < list_lines(req, lines).files.len() implies contains_chars(
        #[trigger] list_lines(req, lines).files[i],
        req.query.unwrap()@,
    ) by {
        assert(name_passes(req, list_lines(req, lines).files[i]));
    }
}

proof fn lemma_list_stays_stopped(req: FilesRequest, lines: Seq<Vec<u8>>, a: int, m: int)
    requires
        0 <= a <= m <= lines.len(),
        a == lines.len() || list_lines(req, lines.take(a)).stopped,
    ensures
        list_lines(req, lines.take(m)) == list_lines(req, lines.take(a)),
    decreases m - a,
{
    if m > a {
        lemma_list_stays_stopped(req, lines, a, m - 1);
        assert(lines.take(m).drop_last() =~= lines.take(m - 1));
    }
}

} // verus!
