//! Files-only search: which files match, a page at a time, with the
//! follow-up search for the first batch of them.
use vstd::prelude::*;
use crate::budget::{
    FILE_SCAN_LINE_MULTIPLIER,
    FILES_ONLY_CANDIDATE_CHAR_MULTIPLIER,
    FILES_ONLY_MIN_LINE_LIMIT,
    MIN_FILES_ONLY_CANDIDATE_CHARS,
    NEXT_FILES_BATCH_SIZE,
    NEXT_FIND_MAX_TOTAL_HITS,
    STDERR_CHARS,
};
use crate::find::{
    FindRequest,
    LimitReason,
    Status,
    longest_index,
    longest_term_index,
    push_all,
    push_term_flags,
    request_in_budget,
    term_flags,
};
use crate::paths::Rejected;
use crate::process::ProcResult;
use crate::scan::{opt_reason, opt_string_view, shown_stderr};
use crate::regexes::insensitive;
use crate::text::{
    chars_of,
    clean_rel,
    from_utf8_lossy,
    lossy_utf8,
    str_eq,
    string_from_chars,
    trim_chars,
    trimmed,
    views,
    truncate_chars,
    truncated,
    without_dot_slash,
};

verus! {

// ---------------------------------------------------------------------------
// The command
// ---------------------------------------------------------------------------

/// The files-with-matches command: file names only, uncolored, files up to
/// 5M, case-insensitive unless asked otherwise, the globs, literal matching
/// in literal mode, the terms, then the paths.
pub open spec fn files_with_matches_command(
    rg: Seq<char>,
    terms: Seq<Seq<char>>,
    literal: bool,
    paths: Seq<Seq<char>>,
    globs: Seq<Seq<char>>,
    case_sensitive: Option<bool>,
) -> Seq<Seq<char>> {
    seq![rg, "-l"@, "--color=never"@, "--max-filesize"@, "5M"@] + (if insensitive(
        case_sensitive,
    ) {
        seq!["-i"@]
    } else {
        seq![]
    }) + globs + (if literal {
        seq!["-F"@]
    } else {
        seq![]
    }) + term_flags(terms) + paths
}

fn push_str(out: &mut Vec<String>, s: &str)
    ensures
        views(final(out)@) == views(old(out)@).push(s@),
{
    let ghost before = out@;
    out.push(s.to_owned());
    assert(views(out@) =~= views(before).push(s@));
}

/// Builds the files-with-matches command as
/// [`files_with_matches_command`] says (`mode` is literal when it reads
/// `literal`).
pub fn build_rg_files_with_matches_cmd(
    rg: &str,
    terms: &Vec<String>,
    mode: &str,
    search_paths: &Vec<String>,
    globs: &Vec<String>,
    case_sensitive: Option<bool>,
) -> (res: Vec<String>)
    ensures
        views(res@) == files_with_matches_command(
            rg@,
            views(terms@),
            mode@ == "literal"@,
            views(search_paths@),
            views(globs@),
            case_sensitive,
        ),
{
    let mut cmd: Vec<String> = Vec::new();
    push_str(&mut cmd, rg);
    push_str(&mut cmd, "-l");
    push_str(&mut cmd, "--color=never");
    push_str(&mut cmd, "--max-filesize");
    push_str(&mut cmd, "5M");
    match case_sensitive {
        Some(true) => {},
        _ => {
            push_str(&mut cmd, "-i");
        },
    }
    push_all(&mut cmd, globs);
    if str_eq(mode, "literal") {
        push_str(&mut cmd, "-F");
    }
    push_term_flags(&mut cmd, terms);
    push_all(&mut cmd, search_paths);
    assert(views(cmd@) =~= files_with_matches_command(
        rg@,
        views(terms@),
        mode@ == "literal"@,
        views(search_paths@),
        views(globs@),
        case_sensitive,
    ));
    cmd
}

// ---------------------------------------------------------------------------
// Collecting matching files
// ---------------------------------------------------------------------------

/// A file name as ripgrep lists it, read as a relative path: decoded,
/// trimmed, without a leading `./`.
pub open spec fn listed_name(raw: Seq<u8>) -> Seq<char> {
    without_dot_slash(trimmed(lossy_utf8(raw)))
}

/// The distinct non-empty names listed in `lines`, in first-seen order.
pub open spec fn distinct_names(lines: Seq<Vec<u8>>) -> Seq<Seq<char>>
    decreases lines.len(),
{
    if lines.len() == 0 {
        seq![]
    } else {
        let p = distinct_names(lines.drop_last());
        let n = listed_name(lines.last()@);
        if n.len() == 0 || p.contains(n) {
            p
        } else {
            p.push(n)
        }
    }
}

/// Progress of collecting a page: names seen, names taken, characters they
/// account for, and whether a name did not fit.
pub struct CollectState {
    pub seen: Seq<Seq<char>>,
    pub files: Seq<Seq<char>>,
    pub total: int,
    pub stopped: bool,
}

/// The characters one listed file accounts for.
pub open spec fn file_cost(name: Seq<char>) -> int {
    (name.len() + 16) as int
}

/// One listed name: new non-empty names are counted as seen; those past
/// the first `offset` are taken while the page has room for another file
/// and its characters fit, and the first one that does not fit ends the
/// page.
pub open spec fn collect_step(
    max_files: nat,
    max_chars: nat,
    offset: nat,
    st: CollectState,
    raw: Seq<u8>,
) -> CollectState {
    let name = listed_name(raw);
    if st.stopped || name.len() == 0 || st.seen.contains(name) {
        st
    } else {
        let seen = st.seen.push(name);
        if seen.len() <= offset {
            CollectState { seen, ..st }
        } else if st.files.len() >= max_files || st.total + file_cost(name) > max_chars {
            CollectState { seen, stopped: true, ..st }
        } else {
            CollectState { seen, files: st.files.push(name), total: st.total + file_cost(name), ..st }
        }
    }
}

pub open spec fn collect_lines(
    max_files: nat,
    max_chars: nat,
    offset: nat,
    lines: Seq<Vec<u8>>,
) -> CollectState
    decreases lines.len(),
{
    if lines.len() == 0 {
        CollectState { seen: seq![], files: seq![], total: 0, stopped: false }
    } else {
        collect_step(
            max_files,
            max_chars,
            offset,
            collect_lines(max_files, max_chars, offset, lines.drop_last()),
            lines.last()@,
        )
    }
}

/// A page never holds more than `max_files` files.
pub proof fn lemma_page_within_budget(max_files: nat, max_chars: nat, offset: nat, lines: Seq<Vec<u8>>)
    ensures
        collect_lines(max_files, max_chars, offset, lines).files.len() <= max_files,
        collect_lines(max_files, max_chars, offset, lines).total <= max_chars,
        collect_lines(max_files, max_chars, offset, lines).total >= 0,
    decreases lines.len(),
{
    if lines.len() > 0 {
        lemma_page_within_budget(max_files, max_chars, offset, lines.drop_last());
    }
}

/// How a page stands among the distinct names: the names seen are the
/// first distinct names; while the page is open they are all of them, and
/// the page holds every seen name past the offset; the page is always the
/// run of distinct names that starts at the offset.
pub open spec fn page_in_names(offset: nat, st: CollectState, names: Seq<Seq<char>>) -> bool {
    &&& st.seen.is_prefix_of(names)
    &&& !st.stopped ==> st.seen == names
    &&& if st.seen.len() <= offset {
        st.files.len() == 0
    } else {
        &&& offset + st.files.len() <= st.seen.len()
        &&& st.files == st.seen.subrange(offset as int, (offset + st.files.len()) as int)
        &&& !st.stopped ==> offset + st.files.len() == st.seen.len()
    }
}

proof fn lemma_page_in_names(max_files: nat, max_chars: nat, offset: nat, lines: Seq<Vec<u8>>)
    ensures
        page_in_names(offset, collect_lines(max_files, max_chars, offset, lines), distinct_names(lines)),
    decreases lines.len(),
{
    if lines.len() > 0 {
        let prev = lines.drop_last();
        lemma_page_in_names(max_files, max_chars, offset, prev);
        let st = collect_lines(max_files, max_chars, offset, prev);
        let d = distinct_names(prev);
        let name = listed_name(lines.last()@);
        let st2 = collect_lines(max_files, max_chars, offset, lines);
        let d2 = distinct_names(lines);
        if st.stopped {
            assert(st2 == st);
            assert(st.seen.is_prefix_of(d2)) by {
                if !(name.len() == 0 || d.contains(name)) {
                    assert(d2 == d.push(name));
                    assert forall|i: int| 0 <= i < st.seen.len() implies st.seen[i] == d2[i] by {
                        assert(st.seen[i] == d[i]);
                    }
                }
            }
        } else if name.len() == 0 || st.seen.contains(name) {
            assert(st2 == st);
            assert(d2 == d);
        } else {
            assert(d2 == d.push(name));
            let seen = st.seen.push(name);
            assert(st2.seen == seen);
            assert(seen == d2);
            if seen.len() <= offset {
            } else if st.files.len() >= max_files || st.total + file_cost(name) > max_chars {
                assert(st2.files == st.files);
                if st.seen.len() <= offset {
                    assert(st.files.len() == 0);
                    assert(st2.files =~= seen.subrange(offset as int, offset as int));
                } else {
                    assert(st2.files =~= seen.subrange(offset as int, (offset + st2.files.len()) as int));
                }
            } else {
                assert(st2.files == st.files.push(name));
                if st.seen.len() <= offset {
                    assert(st.seen.len() == offset);
                    assert(st2.files =~= seen.subrange(offset as int, (offset + st2.files.len()) as int));
                } else {
                    assert(st2.files =~= seen.subrange(offset as int, (offset + st2.files.len()) as int));
                }
            }
        }
    }
}

/// Paging through the files that match: a page is the run of distinct
/// matching files (in listing order) that starts at the requested offset,
/// so the page at `offset + files.len()` continues where this one ends;
/// and a page that was not cut short holds every file past the offset.
pub proof fn law_page_is_slice(max_files: nat, max_chars: nat, offset: nat, lines: Seq<Vec<u8>>)
    ensures
        ({
            let st = collect_lines(max_files, max_chars, offset, lines);
            let names = distinct_names(lines);
            &&& st.files.len() == 0 || (offset + st.files.len() <= names.len() && st.files == names.subrange(
                offset as int,
                (offset + st.files.len()) as int,
            ))
            &&& !st.stopped ==> st.files == if names.len() <= offset {
                Seq::<Seq<char>>::empty()
            } else {
                names.skip(offset as int)
            }
        }),
{
    lemma_page_in_names(max_files, max_chars, offset, lines);
    let st = collect_lines(max_files, max_chars, offset, lines);
    let names = distinct_names(lines);
    if st.files.len() > 0 {
        assert(st.files =~= names.subrange(offset as int, (offset + st.files.len()) as int)) by {
            assert forall|i: int| 0 <= i < st.files.len() implies st.files[i] == names[offset + i] by {
                assert(st.seen[offset + i] == names[offset + i]);
            }
        }
    }
    if !st.stopped && names.len() > offset {
        assert(st.files =~= names.skip(offset as int));
    }
}

/// Result of collecting a page of listed files: the page, the characters
/// it accounts for, whether it is cut short, how many distinct names were
/// seen, and whether more follow.
pub struct FilePage {
    pub files: Vec<String>,
    pub total_chars: usize,
    pub truncated: bool,
    pub seen: usize,
    pub has_more: bool,
}

/// Collects the page of listed files after the first `offset` distinct
/// names, as [`collect_lines`] says.
pub fn collect_file_hits(lines: &Vec<Vec<u8>>, max_files: usize, max_total_chars: usize, offset: usize) -> (res: FilePage)
    ensures
        ({
            let st = collect_lines(max_files as nat, max_total_chars as nat, offset as nat, lines@);
            &&& views(res.files@) == st.files
            &&& res.total_chars == st.total
            &&& res.truncated == st.stopped
            &&& res.has_more == st.stopped
            &&& res.seen == st.seen.len()
        }),
{
    let n = lines.len();
    let mut seen: Vec<String> = Vec::new();
    let mut files: Vec<String> = Vec::new();
    let mut total: usize = 0;
    let mut stopped = false;
    let mut i: usize = 0;
    let ghost mf = max_files as nat;
    let ghost mc = max_total_chars as nat;
    let ghost off = offset as nat;
    assert(lines@.take(0) =~= Seq::<Vec<u8>>::empty());
    assert(views(seen@) =~= Seq::<Seq<char>>::empty());
    assert(views(files@) =~= Seq::<Seq<char>>::empty());
    while i < n && !stopped
        invariant
            i <= n == lines@.len(),
            mf == max_files,
            mc == max_total_chars,
            off == offset,
            ({
                let st = collect_lines(mf, mc, off, lines@.take(i as int));
                &&& views(seen@) == st.seen
                &&& views(files@) == st.files
                &&& total == st.total
                &&& stopped == st.stopped
                &&& total <= max_total_chars
                &&& seen@.len() == st.seen.len()
            }),
        decreases n - i,
    {
        let ghost prev = collect_lines(mf, mc, off, lines@.take(i as int));
        assert(lines@.take(i + 1).drop_last() =~= lines@.take(i as int));
        assert(lines@.take(i + 1).last() == lines@[i as int]);
        let s = from_utf8_lossy(lines[i].as_slice());
        let cs = chars_of(s.as_str());
        let t = trim_chars(cs.as_slice());
        let ts = string_from_chars(t.as_slice());
        let rel = clean_rel(ts.as_str());
        if !rel.as_str().is_empty() && !crate::text::contains_string(&seen, rel.as_str()) {
            let ghost sb = seen@;
            seen.push(rel.clone());
            assert(views(seen@) =~= views(sb).push(rel@));
            if seen.len() > offset {
                let rl = chars_of(rel.as_str()).len();
                if files.len() >= max_files || rl > max_total_chars - total || max_total_chars
                    - total - rl < 16 {
                    stopped = true;
                } else {
                    let ghost fb = files@;
                    files.push(rel);
                    assert(views(files@) =~= views(fb).push(rel@));
                    total = total + rl + 16;
                }
            }
        }
        i = i + 1;
    }
    proof {
        lemma_collect_stays_stopped(mf, mc, off, lines@, i as int, n as int);
        assert(lines@.take(n as int) =~= lines@);
    }
    FilePage { files, total_chars: total, truncated: stopped, seen: seen.len(), has_more: stopped }
}

proof fn lemma_collect_stays_stopped(
    mf: nat,
    mc: nat,
    off: nat,
    lines: Seq<Vec<u8>>,
    a: int,
    m: int,
)
    requires
        0 <= a <= m <= lines.len(),
        a == lines.len() || collect_lines(mf, mc, off, lines.take(a)).stopped,
    ensures
        collect_lines(mf, mc, off, lines.take(m)) == collect_lines(mf, mc, off, lines.take(a)),
    decreases m - a,
{
    if m > a {
        lemma_collect_stays_stopped(mf, mc, off, lines, a, m - 1);
        assert(lines.take(m).drop_last() =~= lines.take(m - 1));
    }
}

// ---------------------------------------------------------------------------
// Follow-up suggestions
// ---------------------------------------------------------------------------

/// A suggested follow-up content search over the first files of a page.
pub struct NextFind {
    pub paths: Vec<String>,
    pub max_total_hits: usize,
    pub max_hits_per_file: usize,
    pub max_line_chars: usize,
    /// Set when the request had exactly one term and a query.
    pub query: Option<String>,
    /// Set otherwise.
    pub terms: Option<Vec<String>>,
    /// Set when the match mode is not `any`.
    pub match_mode: Option<String>,
    /// Set when the mode is not `literal`.
    pub mode: Option<String>,
    pub case_sensitive: bool,
}

/// Sizes of the follow-up batch within a page.
pub struct NextMeta {
    pub batch_size: usize,
    pub files_in_next: usize,
    pub total_files_in_page: usize,
    pub remaining_files_in_page: usize,
    pub next_is_first_batch: bool,
}

pub open spec fn min_nat(a: int, b: int) -> int {
    if a < b {
        a
    } else {
        b
    }
}

/// The follow-up suggestion for a page: none for an empty page; otherwise
/// one content search over the first batch of files, with the hit budget
/// capped, the same per-file and line budgets, the query (single term) or
/// the terms, and the match mode, mode and case sensitivity when they
/// differ from the defaults.
pub open spec fn next_matches(
    n: NextFind,
    files: Seq<Seq<char>>,
    query: Option<Seq<char>>,
    terms: Seq<Seq<char>>,
    match_mode: Seq<char>,
    mode: Seq<char>,
    max_total_hits: usize,
    max_hits_per_file: usize,
    max_line_chars: usize,
    case_sensitive: Option<bool>,
) -> bool {
    &&& views(n.paths@) == files.take(min_nat(files.len() as int, NEXT_FILES_BATCH_SIZE as int))
    &&& n.max_total_hits == min_nat(NEXT_FIND_MAX_TOTAL_HITS as int, max_total_hits as int)
    &&& n.max_hits_per_file == max_hits_per_file
    &&& n.max_line_chars == max_line_chars
    &&& if query is Some && terms.len() == 1 {
        &&& n.query matches Some(q) && Some(q@) == query
        &&& n.terms is None
    } else {
        &&& n.query is None
        &&& n.terms matches Some(t) && views(t@) == terms
    }
    &&& if match_mode == "any"@ {
        n.match_mode is None
    } else {
        n.match_mode matches Some(m) && m@ == match_mode
    }
    &&& if mode == "literal"@ {
        n.mode is None
    } else {
        n.mode matches Some(m) && m@ == mode
    }
    &&& n.case_sensitive == (case_sensitive == Some(true))
}

/// The batch sizes of a page of `total` files with the default batch.
pub open spec fn meta_matches(m: NextMeta, total: int) -> bool {
    &&& m.batch_size == NEXT_FILES_BATCH_SIZE
    &&& m.total_files_in_page == total
    &&& m.files_in_next == min_nat(total, NEXT_FILES_BATCH_SIZE as int)
    &&& m.remaining_files_in_page == (if total > NEXT_FILES_BATCH_SIZE {
        total - NEXT_FILES_BATCH_SIZE
    } else {
        0
    })
    &&& m.next_is_first_batch == (total > NEXT_FILES_BATCH_SIZE)
}

/// The follow-up suggestions for a page of files.
pub fn make_find_files_next(
    query: &Option<String>,
    terms: &Vec<String>,
    match_mode: &str,
    mode: &str,
    files: &Vec<String>,
    max_total_hits: usize,
    max_hits_per_file: usize,
    max_line_chars: usize,
    case_sensitive: Option<bool>,
) -> (res: Vec<NextFind>)
    ensures
        files@.len() == 0 ==> res@.len() == 0,
        files@.len() > 0 ==> res@.len() == 1 && next_matches(
            res@[0],
            views(files@),
            match query {
                Some(q) => Some(q@),
                None => None,
            },
            views(terms@),
            match_mode@,
            mode@,
            max_total_hits,
            max_hits_per_file,
            max_line_chars,
            case_sensitive,
        ),
{
    let mut out: Vec<NextFind> = Vec::new();
    if files.len() == 0 {
        return out;
    }
    let take = if files.len() < NEXT_FILES_BATCH_SIZE {
        files.len()
    } else {
        NEXT_FILES_BATCH_SIZE
    };
    let mut paths: Vec<String> = Vec::new();
    let mut i: usize = 0;
    while i < take
        invariant
            i <= take <= files@.len(),
            views(paths@) == views(files@).take(i as int),
        decreases take - i,
    {
        let ghost pb = paths@;
        paths.push(files[i].clone());
        assert(views(paths@) =~= views(pb).push(files@[i as int]@));
        assert(views(files@).take(i + 1) =~= views(files@).take(i as int).push(files@[i as int]@));
        i = i + 1;
    }
    let cap = if NEXT_FIND_MAX_TOTAL_HITS < max_total_hits {
        NEXT_FIND_MAX_TOTAL_HITS
    } else {
        max_total_hits
    };
    let (q, t) = match query {
        Some(qs) => if terms.len() == 1 {
            (Some(qs.clone()), None)
        } else {
            (None, Some(crate::text::copy_strings(terms)))
        },
        None => (None, Some(crate::text::copy_strings(terms))),
    };
    let mm = if str_eq(match_mode, "any") {
        None
    } else {
        Some(match_mode.to_owned())
    };
    let md = if str_eq(mode, "literal") {
        None
    } else {
        Some(mode.to_owned())
    };
    let cs = match case_sensitive {
        Some(true) => true,
        _ => false,
    };
    out.push(
        NextFind {
            paths,
            max_total_hits: cap,
            max_hits_per_file,
            max_line_chars,
            query: q,
            terms: t,
            match_mode: mm,
            mode: md,
            case_sensitive: cs,
        },
    );
    out
}

/// The sizes of the follow-up batch for a page of `total` files.
pub fn make_find_next_meta(total: usize, batch_size: Option<usize>) -> (res: NextMeta)
    ensures
        ({
            let bs = match batch_size {
                Some(b) => b,
                None => NEXT_FILES_BATCH_SIZE,
            };
            &&& res.batch_size == bs
            &&& res.files_in_next == min_nat(total as int, bs as int)
            &&& res.total_files_in_page == total
            &&& res.remaining_files_in_page == if total > bs {
                total - bs
            } else {
                0
            }
            &&& res.next_is_first_batch == (total > bs)
        }),
{
    let bs = match batch_size {
        Some(b) => b,
        None => NEXT_FILES_BATCH_SIZE,
    };
    NextMeta {
        batch_size: bs,
        files_in_next: if total < bs {
            total
        } else {
            bs
        },
        total_files_in_page: total,
        remaining_files_in_page: if total > bs {
            total - bs
        } else {
            0
        },
        next_is_first_batch: total > bs,
    }
}

// ---------------------------------------------------------------------------
// Planning
// ---------------------------------------------------------------------------

pub open spec fn max_int(a: int, b: int) -> int {
    if a > b {
        a
    } else {
        b
    }
}

/// Output lines the listing may produce: enough for the page after the
/// offset, at least twenty.
pub open spec fn files_only_line_limit(req: FindRequest) -> int {
    max_int(
        max_int(
            FILES_ONLY_MIN_LINE_LIMIT as int,
            req.max_total_hits * FILE_SCAN_LINE_MULTIPLIER,
        ),
        req.offset + req.max_total_hits + 1,
    )
}

/// Whether the search runs in two stages: every one of several terms must
/// match, so files are first listed for the longest term and then probed
/// for the others.
pub open spec fn staged(req: FindRequest) -> bool {
    req.match_mode@ == "all"@ && req.terms@.len() > 1
}

/// How a files-only search runs.
pub struct FilesOnlyPlan {
    /// Listed files are probed for the other terms.
    pub staged: bool,
    /// Terms of the first listing.
    pub first_terms: Vec<String>,
    /// Terms each listed file is probed for (staged searches only).
    pub rest: Vec<String>,
    /// Output line limit of the first listing.
    pub line_limit: usize,
    /// Character budget for the candidate list of a staged search.
    pub candidate_chars: usize,
}

/// The terms other than `x`.
pub open spec fn without_term(ts: Seq<Seq<char>>, x: Seq<char>) -> Seq<Seq<char>> {
    ts.filter(|t: Seq<char>| t != x)
}

/// The plan of a files-only search: in a staged search the first listing
/// uses the longest term and files are probed for every term that differs
/// from it; otherwise one listing uses all terms.
pub open spec fn plan_matches(p: FilesOnlyPlan, req: FindRequest) -> bool {
    let ts = views(req.terms@);
    &&& p.staged == staged(req)
    &&& p.line_limit == files_only_line_limit(req)
    &&& p.candidate_chars == max_int(
        MIN_FILES_ONLY_CANDIDATE_CHARS as int,
        req.max_total_chars * FILES_ONLY_CANDIDATE_CHAR_MULTIPLIER,
    )
    &&& if p.staged {
        let first = ts[longest_index(ts)];
        &&& views(p.first_terms@) == seq![first]
        &&& views(p.rest@) == without_term(ts, first)
    } else {
        &&& views(p.first_terms@) == ts
        &&& p.rest@.len() == 0
    }
}

/// Plans a files-only search.
pub fn plan_files_only(req: &FindRequest) -> (res: FilesOnlyPlan)
    requires
        request_in_budget(*req),
    ensures
        plan_matches(res, *req),
{
    let a = req.max_total_hits * FILE_SCAN_LINE_MULTIPLIER;
    let b = req.offset + req.max_total_hits + 1;
    let l0 = if FILES_ONLY_MIN_LINE_LIMIT > a {
        FILES_ONLY_MIN_LINE_LIMIT
    } else {
        a
    };
    let line_limit = if l0 > b {
        l0
    } else {
        b
    };
    let c = req.max_total_chars * FILES_ONLY_CANDIDATE_CHAR_MULTIPLIER;
    let candidate_chars = if MIN_FILES_ONLY_CANDIDATE_CHARS > c {
        MIN_FILES_ONLY_CANDIDATE_CHARS
    } else {
        c
    };
    let is_staged = str_eq(req.match_mode.as_str(), "all") && req.terms.len() > 1;
    let ghost ts = views(req.terms@);
    if is_staged {
        let k = longest_term_index(&req.terms);
        let first = req.terms[k].clone();
        let mut first_terms: Vec<String> = Vec::new();
        first_terms.push(first.clone());
        assert(views(first_terms@) =~= seq![ts[k as int]]);
        let ghost pred = |t: Seq<char>| t != first@;
        let mut rest: Vec<String> = Vec::new();
        let n = req.terms.len();
        let mut i: usize = 0;
        assert(ts.take(0).filter(pred) =~= Seq::<Seq<char>>::empty()) by {
            reveal_with_fuel(Seq::filter, 1);
        }
        while i < n
            invariant
                i <= n == req.terms@.len(),
                ts == views(req.terms@),
                pred == |t: Seq<char>| t != first@,
                views(rest@) == ts.take(i as int).filter(pred),
            decreases n - i,
        {
            proof {
                reveal_with_fuel(Seq::filter, 1);
                assert(ts.take(i + 1).drop_last() =~= ts.take(i as int));
                assert(ts.take(i + 1).last() == req.terms@[i as int]@);
            }
            if !str_eq(req.terms[i].as_str(), first.as_str()) {
                let ghost rb = rest@;
                rest.push(req.terms[i].clone());
                assert(views(rest@) =~= views(rb).push(req.terms@[i as int]@));
            }
            i = i + 1;
        }
        assert(ts.take(n as int) =~= ts);
        assert(first@ == ts[longest_index(ts)]);
        assert(pred =~= (|t: Seq<char>| t != first@));
        assert(views(rest@) == without_term(ts, first@));
        FilesOnlyPlan { staged: true, first_terms, rest, line_limit, candidate_chars }
    } else {
        FilesOnlyPlan {
            staged: false,
            first_terms: crate::text::copy_strings(&req.terms),
            rest: Vec::new(),
            line_limit,
            candidate_chars,
        }
    }
}

// ---------------------------------------------------------------------------
// The report
// ---------------------------------------------------------------------------

/// The run that stands for a files-only search in its report: its exit code
/// and which limits cut it short.
#[derive(Clone, Copy)]
pub struct RunSummary {
    pub returncode: i32,
    pub timed_out: bool,
    pub byte_limit_hit: bool,
    pub line_limit_hit: bool,
}

pub open spec fn summary_of(p: ProcResult) -> RunSummary {
    RunSummary {
        returncode: p.returncode,
        timed_out: p.timed_out,
        byte_limit_hit: p.byte_limit_hit,
        line_limit_hit: p.line_limit_hit,
    }
}

pub fn summarize(p: &ProcResult) -> (res: RunSummary)
    ensures
        res == summary_of(*p),
{
    RunSummary {
        returncode: p.returncode,
        timed_out: p.timed_out,
        byte_limit_hit: p.byte_limit_hit,
        line_limit_hit: p.line_limit_hit,
    }
}

/// Where the next page starts, and its size.
pub struct NextPage {
    pub offset: usize,
    pub max_total_hits: usize,
}

/// The outcome of a files-only search.
pub struct FilesOnlyReport {
    pub status: Status,
    pub files: Vec<String>,
    pub offset: usize,
    pub seen_files: usize,
    pub has_more: bool,
    pub truncated: bool,
    pub limit_reasons: Vec<LimitReason>,
    pub rc: i32,
    pub bytes: usize,
    pub next: Vec<NextFind>,
    pub next_meta: Option<NextMeta>,
    pub next_page: Option<NextPage>,
    pub rejected: Vec<Rejected>,
    pub warnings: Vec<String>,
    pub stderr: Option<String>,
}

/// What a files-only search found before the report is made.
pub struct FilesOnlyFindings {
    pub files: Vec<String>,
    pub seen_files: usize,
    pub has_more: bool,
    pub truncated: bool,
    pub summary: RunSummary,
    pub bytes: usize,
    pub stderr: String,
}

/// A page is cut short and has more when it is full.
pub open spec fn final_truncated(f: FilesOnlyFindings, req: FindRequest) -> bool {
    f.truncated || f.files@.len() >= req.max_total_hits
}

/// The search failed: its run ended with an exit code other than 0 and 1
/// and no file was found.
pub open spec fn findings_failed(f: FilesOnlyFindings) -> bool {
    f.summary.returncode != 0 && f.summary.returncode != 1 && f.files@.len() == 0
}

/// More files may follow the page, so it can be continued from the next
/// offset: when the search saw more, when the page is full, and whenever a
/// page that is not an error was cut short.
pub open spec fn final_has_more(f: FilesOnlyFindings, req: FindRequest) -> bool {
    f.has_more || f.files@.len() >= req.max_total_hits || (final_truncated(f, req) && !findings_failed(f))
}

/// The reasons a page is incomplete: the time, output byte and output line
/// limits of the run that stands for the search, a full page, more files
/// after the page, and, when nothing else explains a cut-short page, the
/// files-only limit itself.
pub open spec fn files_only_reasons(f: FilesOnlyFindings, req: FindRequest) -> Seq<LimitReason> {
    let base = opt_reason(f.summary.timed_out, LimitReason::Timeout) + opt_reason(
        f.summary.byte_limit_hit,
        LimitReason::ProcessOutputBytes,
    ) + opt_reason(f.summary.line_limit_hit, LimitReason::ProcessLineLimit) + opt_reason(
        f.files@.len() >= req.max_total_hits,
        LimitReason::MaxTotalHits,
    ) + opt_reason(final_has_more(f, req), LimitReason::FilesPageHasMore);
    base + opt_reason(final_truncated(f, req) && base.len() == 0, LimitReason::FilesOnlyLimit)
}

/// The report of a files-only search from what it found.
pub fn files_only_report(
    req: &FindRequest,
    f: FilesOnlyFindings,
    rejected: Vec<Rejected>,
    warnings: Vec<String>,
) -> (res: FilesOnlyReport)
    requires
        request_in_budget(*req),
        f.files@.len() <= req.max_total_hits,
    ensures
        views(res.files@) == views(f.files@),
        res.offset == req.offset,
        res.seen_files == f.seen_files,
        res.truncated == final_truncated(f, *req),
        res.has_more == final_has_more(f, *req),
        res.status == (if findings_failed(f) {
            Status::Failed
        } else if res.truncated {
            Status::Truncated
        } else {
            Status::Complete
        }),
        res.limit_reasons@ == files_only_reasons(f, *req),
        res.rc == f.summary.returncode,
        res.bytes == f.bytes,
        f.files@.len() == 0 ==> res.next@.len() == 0 && res.next_meta is None,
        f.files@.len() > 0 ==> res.next@.len() == 1 && next_matches(
            res.next@[0],
            views(f.files@),
            match req.query {
                Some(q) => Some(q@),
                None => None,
            },
            views(req.terms@),
            req.match_mode@,
            req.mode@,
            req.max_total_hits,
            req.max_hits_per_file,
            req.max_line_chars,
            req.case_sensitive,
        ) && res.next_meta is Some && meta_matches(res.next_meta.unwrap(), f.files@.len() as int),
        match res.next_page {
            Some(p) => res.has_more && p.offset == req.offset + f.files@.len() && p.max_total_hits
                == req.max_total_hits,
            None => !res.has_more,
        },
        res.status != Status::Failed && res.truncated ==> (res.next_page matches Some(p) && p.offset
            == req.offset + f.files@.len() && res.limit_reasons@.contains(LimitReason::FilesPageHasMore)),
        res.rejected@ == rejected@,
        res.warnings@ == warnings@,
        opt_string_view(res.stderr) == shown_stderr(f.stderr@, res.status, warnings@.len() > 0),
{
    let full = f.files.len() >= req.max_total_hits;
    let truncated = f.truncated || full;
    let rc = f.summary.returncode;
    let failed = rc != 0 && rc != 1 && f.files.len() == 0;
    let has_more = f.has_more || full || (truncated && !failed);
    let status = if failed {
        Status::Failed
    } else if truncated {
        Status::Truncated
    } else {
        Status::Complete
    };
    let mut reasons: Vec<LimitReason> = Vec::new();
    if f.summary.timed_out {
        reasons.push(LimitReason::Timeout);
    }
    if f.summary.byte_limit_hit {
        reasons.push(LimitReason::ProcessOutputBytes);
    }
    if f.summary.line_limit_hit {
        reasons.push(LimitReason::ProcessLineLimit);
    }
    if full {
        reasons.push(LimitReason::MaxTotalHits);
    }
    if has_more {
        reasons.push(LimitReason::FilesPageHasMore);
    }
    let ghost base = reasons@;
    proof {
        if has_more {
            assert(base[base.len() - 1] == LimitReason::FilesPageHasMore);
        }
    }
    let was_empty = reasons.len() == 0;
    if truncated && was_empty {
        reasons.push(LimitReason::FilesOnlyLimit);
    }
    assert(base =~= opt_reason(f.summary.timed_out, LimitReason::Timeout) + opt_reason(
        f.summary.byte_limit_hit,
        LimitReason::ProcessOutputBytes,
    ) + opt_reason(f.summary.line_limit_hit, LimitReason::ProcessLineLimit) + opt_reason(
        f.files@.len() >= req.max_total_hits,
        LimitReason::MaxTotalHits,
    ) + opt_reason(final_has_more(f, *req), LimitReason::FilesPageHasMore));
    assert(reasons@ =~= files_only_reasons(f, *req));
    proof {
        if has_more {
            assert(reasons@[base.len() - 1] == LimitReason::FilesPageHasMore);
        }
    }
    let next = make_find_files_next(
        &req.query,
        &req.terms,
        req.match_mode.as_str(),
        req.mode.as_str(),
        &f.files,
        req.max_total_hits,
        req.max_hits_per_file,
        req.max_line_chars,
        req.case_sensitive,
    );
    let next_meta = if next.len() > 0 {
        Some(make_find_next_meta(f.files.len(), None))
    } else {
        None
    };
    let next_page = if has_more {
        Some(NextPage { offset: req.offset + f.files.len(), max_total_hits: req.max_total_hits })
    } else {
        None
    };
    let show = !f.stderr.as_str().is_empty() && (status == Status::Failed || warnings.len() > 0);
    let stderr = if show {
        Some(truncate_chars(f.stderr.as_str(), STDERR_CHARS))
    } else {
        None
    };
    FilesOnlyReport {
        status,
        offset: req.offset,
        seen_files: f.seen_files,
        has_more,
        truncated,
        limit_reasons: reasons,
        rc,
        bytes: f.bytes,
        next,
        next_meta,
        next_page,
        rejected,
        warnings,
        stderr,
        files: f.files,
    }
}

/// What a single-listing search found: the page after the offset, cut
/// short when the listing hit a limit or the page filled.
pub fn single_listing_findings(req: &FindRequest, proc: ProcResult) -> (res: FilesOnlyFindings)
    requires
        request_in_budget(*req),
    ensures
        res.files@.len() <= req.max_total_hits,
        ({
            let st = collect_lines(
                req.max_total_hits as nat,
                req.max_total_chars as nat,
                req.offset as nat,
                proc.lines@,
            );
            &&& views(res.files@) == st.files
            &&& res.seen_files == st.seen.len()
            &&& res.has_more == st.stopped
            &&& res.truncated == (proc.timed_out || proc.byte_limit_hit || proc.line_limit_hit
                || st.stopped)
            &&& res.summary == summary_of(proc)
            &&& res.bytes == proc.bytes_read
            &&& res.stderr@ == proc.stderr@
        }),
{
    let page = collect_file_hits(&proc.lines, req.max_total_hits, req.max_total_chars, req.offset);
    proof {
        lemma_page_within_budget(
            req.max_total_hits as nat,
            req.max_total_chars as nat,
            req.offset as nat,
            proc.lines@,
        );
        assert(page.files@.len() == views(page.files@).len());
    }
    let summary = summarize(&proc);
    FilesOnlyFindings {
        files: page.files,
        seen_files: page.seen,
        has_more: page.has_more,
        truncated: proc.timed_out || proc.byte_limit_hit || proc.line_limit_hit || page.truncated,
        summary,
        bytes: proc.bytes_read,
        stderr: proc.stderr,
    }
}

// ---------------------------------------------------------------------------
// Staged search: listing for the longest term, then probing each file
// ---------------------------------------------------------------------------

/// The state of a staged search, between probes.
pub struct StagedView {
    pub max_total_hits: usize,
    pub max_total_chars: usize,
    pub offset: usize,
    pub candidates: Seq<Seq<char>>,
    pub rest: Seq<Seq<char>>,
    pub cand: int,
    pub term: int,
    pub files: Seq<Seq<char>>,
    pub total: int,
    pub matched: int,
    pub truncated: bool,
    pub has_more: bool,
    pub done: bool,
    pub bytes_read: usize,
    pub stderr: Seq<char>,
    pub failure: Option<RunSummary>,
    /// The first listing's run.
    pub first: RunSummary,
    /// The first listing succeeded (exit code 0 or 1).
    pub first_ok: bool,
    /// Distinct files the first listing named.
    pub candidate_count: int,
}

/// Files a staged search saw: none when the first listing failed; else the
/// matches, or the candidates listed when more follow and they are more.
pub open spec fn staged_seen(s: StagedView) -> int {
    if !s.first_ok {
        0
    } else if !s.has_more {
        s.matched
    } else if s.matched > s.candidate_count {
        s.matched
    } else {
        s.candidate_count
    }
}

/// On to the next candidate file, from its first term.
pub open spec fn advance(s: StagedView) -> StagedView {
    StagedView { cand: s.cand + 1, term: 0, ..s }
}

/// The current candidate has every term: it counts as a match; past the
/// offset it joins the page if the page has room for it, and otherwise the
/// page is closed and more files follow.
pub open spec fn accept(s: StagedView) -> StagedView {
    let name = s.candidates[s.cand];
    let matched = s.matched + 1;
    if matched <= s.offset {
        advance(StagedView { matched, ..s })
    } else if s.files.len() >= s.max_total_hits || s.total + file_cost(name) > s.max_total_chars {
        StagedView { matched, has_more: true, truncated: true, done: true, ..s }
    } else {
        advance(
            StagedView {
                matched,
                files: s.files.push(name),
                total: s.total + file_cost(name),
                ..s
            },
        )
    }
}

/// Accepts candidates that have no term left to probe, until one needs a
/// probe or the search ends.
pub open spec fn settle(s: StagedView) -> StagedView
    decreases s.candidates.len() - s.cand, if s.done {
        0int
    } else {
        1int
    },
{
    if !s.done && 0 <= s.cand < s.candidates.len() && s.term >= s.rest.len() {
        settle(accept(s))
    } else {
        s
    }
}

/// `a + b`, or `usize::MAX` when that does not fit.
pub open spec fn sat_sum(a: usize, b: usize) -> usize {
    if a + b > usize::MAX {
        usize::MAX
    } else {
        (a + b) as usize
    }
}

/// A probe of the current candidate for the current term finished: its
/// output bytes are counted and its standard error kept if none was; a
/// failed probe (exit code other than 0 and 1) rules the candidate out and,
/// while the page is empty, stands for the search; a probe with no output
/// rules it out; otherwise the next term is probed.
pub open spec fn probe_step(s: StagedView, rc: i32, found: bool, bytes: usize, stderr: Seq<char>, sum: RunSummary) -> StagedView {
    let s1 = StagedView {
        bytes_read: sat_sum(s.bytes_read, bytes),
        stderr: if stderr.len() > 0 && s.stderr.len() == 0 {
            stderr
        } else {
            s.stderr
        },
        ..s
    };
    if rc != 0 && rc != 1 {
        settle(
            advance(
                StagedView {
                    failure: if s.files.len() == 0 {
                        Some(sum)
                    } else {
                        s.failure
                    },
                    ..s1
                },
            ),
        )
    } else if !found {
        settle(advance(s1))
    } else {
        settle(StagedView { term: s.term + 1, ..s1 })
    }
}

/// The time for probing ran out before a probe: the search is cut short and
/// the current candidate ruled out.
pub open spec fn deadline_step(s: StagedView) -> StagedView {
    settle(advance(StagedView { truncated: true, ..s }))
}

/// A staged search checks every other term in turn: a probe that found
/// the current term, with terms left after it, moves on to the next term of
/// the same candidate and adds no match and no file; a candidate becomes a
/// match (and may join the page) only after a successful probe found its
/// last term; a failed or empty probe rules the candidate out without a
/// match.
pub proof fn law_probes_check_every_term(
    s: StagedView,
    rc: i32,
    found: bool,
    bytes: usize,
    stderr: Seq<char>,
    sum: RunSummary,
)
    requires
        !s.done,
        0 <= s.cand < s.candidates.len(),
        0 <= s.term < s.rest.len(),
    ensures
        ({
            let r = probe_step(s, rc, found, bytes, stderr, sum);
            &&& (found && (rc == 0 || rc == 1) && s.term + 1 < s.rest.len()) ==> (r.cand == s.cand
                && r.term == s.term + 1 && r.matched == s.matched && r.files == s.files)
            &&& r.matched > s.matched ==> (found && (rc == 0 || rc == 1) && s.term + 1 == s.rest.len()
                && r.matched == s.matched + 1)
            &&& !(found && (rc == 0 || rc == 1)) ==> (r.matched == s.matched && r.files == s.files
                && r.cand == s.cand + 1 && r.term == 0)
        }),
{
    reveal_with_fuel(settle, 2);
}

/// Running out of time rules the current candidate out: no match and no
/// file is added.
pub proof fn law_deadline_adds_nothing(s: StagedView)
    requires
        !s.done,
        0 <= s.cand < s.candidates.len(),
        s.rest.len() > 0,
    ensures
        deadline_step(s).matched == s.matched,
        deadline_step(s).files == s.files,
        deadline_step(s).truncated,
{
}

/// A staged files-only search between probes.
pub struct StagedSearch {
    max_total_hits: usize,
    max_total_chars: usize,
    offset: usize,
    candidates: Vec<String>,
    candidate_count: usize,
    rest: Vec<String>,
    cand: usize,
    term: usize,
    files: Vec<String>,
    total: usize,
    matched: usize,
    truncated: bool,
    has_more: bool,
    done: bool,
    bytes_read: usize,
    stderr: String,
    failure: Option<RunSummary>,
    first: RunSummary,
    first_ok: bool,
}

impl View for StagedSearch {
    type V = StagedView;

    closed spec fn view(&self) -> StagedView {
        StagedView {
            max_total_hits: self.max_total_hits,
            max_total_chars: self.max_total_chars,
            offset: self.offset,
            candidates: views(self.candidates@),
            rest: views(self.rest@),
            cand: self.cand as int,
            term: self.term as int,
            files: views(self.files@),
            total: self.total as int,
            matched: self.matched as int,
            truncated: self.truncated,
            has_more: self.has_more,
            done: self.done,
            bytes_read: self.bytes_read,
            stderr: self.stderr@,
            failure: self.failure,
            first: self.first,
            first_ok: self.first_ok,
            candidate_count: self.candidate_count as int,
        }
    }
}

impl StagedSearch {
    /// Internal consistency: positions within range, the page and its
    /// characters within budget, and no candidate left waiting without a
    /// term to probe.
    pub closed spec fn wf(&self) -> bool {
        &&& self.cand <= self.candidates@.len()
        &&& self.term <= self.rest@.len()
        &&& self.files@.len() <= self.max_total_hits
        &&& self.total <= self.max_total_chars
        &&& self.matched <= self.candidates@.len()
        &&& !self.done ==> self.matched <= self.cand
        &&& (!self.done && self.cand < self.candidates@.len()) ==> self.term < self.rest@.len()
    }

    /// The page budget of the search.
    pub closed spec fn page_budget(&self) -> usize {
        self.max_total_hits
    }

    /// The next probe to run: the current candidate file and the term to
    /// look for in it; `None` when the search is over.
    pub fn next_probe(&self) -> (res: Option<(String, String)>)
        requires
            self.wf(),
        ensures
            match res {
                None => self@.done || self@.cand >= self@.candidates.len(),
                Some((f, t)) => !self@.done && 0 <= self@.cand < self@.candidates.len()
                    && f@ == self@.candidates[self@.cand] && t@ == self@.rest[self@.term],
            },
    {
        if self.done || self.cand >= self.candidates.len() {
            None
        } else {
            Some((self.candidates[self.cand].clone(), self.rest[self.term].clone()))
        }
    }

    fn accept_current(&mut self)
        requires
            old(self).wf_base(),
            !old(self)@.done,
            0 <= old(self)@.cand < old(self)@.candidates.len(),
        ensures
            final(self)@ == accept(old(self)@),
            final(self).wf_base(),
            final(self).same_setup(*old(self)),
    {
        let _n = self.candidates.len();
        let name_len = chars_of(self.candidates[self.cand].as_str()).len();
        self.matched = self.matched + 1;
        if self.matched <= self.offset {
            self.cand = self.cand + 1;
            self.term = 0;
        } else if self.files.len() >= self.max_total_hits || name_len > self.max_total_chars
            - self.total || self.max_total_chars - self.total - name_len < 16 {
            self.has_more = true;
            self.truncated = true;
            self.done = true;
        } else {
            let ghost fb = self.files@;
            let name = self.candidates[self.cand].clone();
            self.files.push(name);
            assert(views(self.files@) =~= views(fb).push(self.candidates@[self.cand as int]@));
            self.total = self.total + name_len + 16;
            self.cand = self.cand + 1;
            self.term = 0;
        }
    }

    /// Consistency without the waiting-candidate condition.
    closed spec fn wf_base(&self) -> bool {
        &&& self.cand <= self.candidates@.len()
        &&& self.term <= self.rest@.len()
        &&& self.files@.len() <= self.max_total_hits
        &&& self.total <= self.max_total_chars
        &&& self.matched <= self.candidates@.len()
        &&& !self.done ==> self.matched <= self.cand
    }

    closed spec fn same_setup(&self, o: StagedSearch) -> bool {
        &&& self.max_total_hits == o.max_total_hits
        &&& self.candidate_count == o.candidate_count
        &&& self.first == o.first
        &&& self.first_ok == o.first_ok
    }

    fn settle_now(&mut self)
        requires
            old(self).wf_base(),
        ensures
            final(self)@ == settle(old(self)@),
            final(self).wf(),
            final(self).same_setup(*old(self)),
        decreases old(self).candidates@.len() - old(self).cand, if old(self).done {
            0int
        } else {
            1int
        },
    {
        if !self.done && self.cand < self.candidates.len() && self.term >= self.rest.len() {
            self.accept_current();
            self.settle_now();
        }
    }

    /// Starts a staged search from the first listing: when it succeeded
    /// (exit code 0 or 1), its files become the candidates, collected as a
    /// page from offset 0 under the plan's line limit and candidate budget.
    pub fn start(req: &FindRequest, plan: &FilesOnlyPlan, first: ProcResult) -> (res: StagedSearch)
        requires
            request_in_budget(*req),
            plan_matches(*plan, *req),
        ensures
            res.wf(),
            res.page_budget() == req.max_total_hits,
            ({
                let ok = first.returncode == 0 || first.returncode == 1;
                let page = collect_lines(
                    plan.line_limit as nat,
                    plan.candidate_chars as nat,
                    0,
                    first.lines@,
                );
                res@ == settle(
                    StagedView {
                        max_total_hits: req.max_total_hits,
                        max_total_chars: req.max_total_chars,
                        offset: req.offset,
                        candidates: if ok {
                            page.files
                        } else {
                            seq![]
                        },
                        rest: views(plan.rest@),
                        cand: 0,
                        term: 0,
                        files: seq![],
                        total: 0,
                        matched: 0,
                        truncated: ok && (first.timed_out || first.byte_limit_hit
                            || first.line_limit_hit || page.stopped),
                        has_more: ok && page.stopped,
                        done: false,
                        bytes_read: first.bytes_read,
                        stderr: first.stderr@,
                        failure: None,
                        first: summary_of(first),
                        first_ok: ok,
                        candidate_count: if ok {
                            page.seen.len() as int
                        } else {
                            0
                        },
                    },
                )
            }),
    {
        let ok = first.returncode == 0 || first.returncode == 1;
        let summary = summarize(&first);
        let (candidates, count, truncated, has_more) = if ok {
            let page = collect_file_hits(&first.lines, plan.line_limit, plan.candidate_chars, 0);
            (
                page.files,
                page.seen,
                first.timed_out || first.byte_limit_hit || first.line_limit_hit || page.truncated,
                page.has_more,
            )
        } else {
            (Vec::new(), 0, false, false)
        };
        let mut s = StagedSearch {
            max_total_hits: req.max_total_hits,
            max_total_chars: req.max_total_chars,
            offset: req.offset,
            candidates,
            candidate_count: count,
            rest: crate::text::copy_strings(&plan.rest),
            cand: 0,
            term: 0,
            files: Vec::new(),
            total: 0,
            matched: 0,
            truncated,
            has_more,
            done: false,
            bytes_read: first.bytes_read,
            stderr: first.stderr,
            failure: None,
            first: summary,
            first_ok: ok,
        };
        assert(views(s.files@) =~= Seq::<Seq<char>>::empty());
        if !ok {
            assert(views(s.candidates@) =~= Seq::<Seq<char>>::empty());
        }
        s.settle_now();
        s
    }

    /// A probe finished with the given result.
    pub fn on_probe(&mut self, sub: &ProcResult)
        requires
            old(self).wf(),
            !old(self)@.done,
            0 <= old(self)@.cand < old(self)@.candidates.len(),
        ensures
            final(self).wf(),
            final(self).page_budget() == old(self).page_budget(),
            final(self)@ == probe_step(
                old(self)@,
                sub.returncode,
                sub.lines@.len() > 0,
                sub.bytes_read,
                sub.stderr@,
                summary_of(*sub),
            ),
    {
        let _n = self.candidates.len();
        let _m = self.rest.len();
        self.bytes_read = if sub.bytes_read > usize::MAX - self.bytes_read {
            usize::MAX
        } else {
            self.bytes_read + sub.bytes_read
        };
        if !sub.stderr.as_str().is_empty() && self.stderr.as_str().is_empty() {
            self.stderr = sub.stderr.clone();
        }
        if sub.returncode != 0 && sub.returncode != 1 {
            if self.files.len() == 0 {
                self.failure = Some(summarize(sub));
            }
            self.cand = self.cand + 1;
            self.term = 0;
        } else if sub.lines.len() == 0 {
            self.cand = self.cand + 1;
            self.term = 0;
        } else {
            self.term = self.term + 1;
        }
        self.settle_now();
    }

    /// The time for probing ran out before the next probe.
    pub fn on_deadline(&mut self)
        requires
            old(self).wf(),
            !old(self)@.done,
            0 <= old(self)@.cand < old(self)@.candidates.len(),
        ensures
            final(self).wf(),
            final(self).page_budget() == old(self).page_budget(),
            final(self)@ == deadline_step(old(self)@),
    {
        let _n = self.candidates.len();
        self.truncated = true;
        self.cand = self.cand + 1;
        self.term = 0;
        self.settle_now();
    }

    /// What the search found: the page, how many files were seen (the
    /// matches, or the candidates when more follow and they are more), and
    /// the run that stands for the search (a failed probe while the page
    /// was empty, else the first listing).
    pub fn finish(self) -> (res: FilesOnlyFindings)
        requires
            self.wf(),
        ensures
            views(res.files@) == self@.files,
            res.files@.len() <= self.page_budget(),
            res.has_more == self@.has_more,
            res.truncated == self@.truncated,
            res.bytes == self@.bytes_read,
            res.stderr@ == self@.stderr,
            res.summary == match self@.failure {
                Some(f) => f,
                None => self@.first,
            },
            res.seen_files == staged_seen(self@),
    {
        let seen = if !self.first_ok {
            0
        } else if !self.has_more {
            self.matched
        } else if self.matched > self.candidate_count {
            self.matched
        } else {
            self.candidate_count
        };
        let summary = match self.failure {
            Some(f) => f,
            None => self.first,
        };
        FilesOnlyFindings {
            files: self.files,
            seen_files: seen,
            has_more: self.has_more,
            truncated: self.truncated,
            summary,
            bytes: self.bytes_read,
            stderr: self.stderr,
        }
    }
}

} // verus!
