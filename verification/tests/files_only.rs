use cxs::files_only::{
    build_rg_files_with_matches_cmd, collect_file_hits, files_only_report, make_find_files_next,
    make_find_next_meta, plan_files_only, single_listing_findings, StagedSearch,
};
use cxs::find::{parse_find_request, FindRequest, LimitReason, Status};
use cxs::json::{Args, JsonValue};
use cxs::process::ProcResult;

fn st(x: &str) -> JsonValue {
    JsonValue::Str(x.to_string())
}

fn num(n: u64) -> JsonValue {
    JsonValue::Number(Some(n), n.to_string())
}

fn request(pairs: Vec<(&str, JsonValue)>) -> FindRequest {
    let mut entries: Vec<(String, JsonValue)> = pairs.into_iter().map(|(k, v)| (k.to_string(), v)).collect();
    entries.sort_by(|a, b| a.0.cmp(&b.0));
    parse_find_request(&Args { entries }).ok().unwrap()
}

fn listing(lines: &[&str], rc: i32) -> ProcResult {
    ProcResult {
        lines: lines.iter().map(|l| l.as_bytes().to_vec()).collect(),
        returncode: rc,
        stderr: String::new(),
        timed_out: false,
        byte_limit_hit: false,
        line_limit_hit: false,
        bytes_read: 0,
    }
}

fn lines_of(xs: &[&str]) -> Vec<Vec<u8>> {
    xs.iter().map(|x| x.as_bytes().to_vec()).collect()
}

fn strings(xs: &[&str]) -> Vec<String> {
    xs.iter().map(|s| s.to_string()).collect()
}

#[test]
fn find_files_only_and_pagination() {
    let req = request(vec![("query", st("needle")), ("files_only", JsonValue::Bool(true))]);
    let plan = plan_files_only(&req);
    assert!(!plan.staged);
    let f = single_listing_findings(&req, listing(&["docs/README.md"], 0));
    let res = files_only_report(&req, f, vec![], vec![]);
    assert!(res.files.contains(&"docs/README.md".to_string()));
    assert_eq!(res.next.len(), 1);
    assert_eq!(res.next[0].query, Some("needle".to_string()));

    let req2 = request(vec![
        ("terms", JsonValue::Array(vec![st("alpha"), st("beta")], String::new())),
        ("match", st("all")),
        ("files_only", JsonValue::Bool(true)),
    ]);
    let plan2 = plan_files_only(&req2);
    assert!(plan2.staged);
    assert_eq!(plan2.first_terms, strings(&["alpha"]));
    assert_eq!(plan2.rest, strings(&["beta"]));
    let mut s = StagedSearch::start(&req2, &plan2, listing(&["src/multi.py", "src/one.py"], 0));
    while let Some((file, term)) = s.next_probe() {
        assert_eq!(term, "beta");
        let found = if file == "src/multi.py" { listing(&["src/multi.py"], 0) } else { listing(&[], 1) };
        s.on_probe(&found);
    }
    let res2 = files_only_report(&req2, s.finish(), vec![], vec![]);
    assert!(res2.files.contains(&"src/multi.py".to_string()));
    assert!(!res2.files.contains(&"src/one.py".to_string()));

    let pages = ["src/page0.py", "src/page1.py", "src/page2.py", "src/page3.py"];
    let req3 = request(vec![("query", st("page-key")), ("files_only", JsonValue::Bool(true)), ("max_total_hits", num(2))]);
    let page1 = files_only_report(&req3, single_listing_findings(&req3, listing(&pages, 0)), vec![], vec![]);
    assert_eq!(page1.files.len(), 2);
    assert_eq!(page1.status, Status::Truncated);
    assert!(page1.has_more);
    let next = page1.next_page.as_ref().unwrap();
    assert_eq!(next.offset, 2);
    assert!(page1.next_meta.is_some());
    let req4 = request(vec![
        ("query", st("page-key")),
        ("files_only", JsonValue::Bool(true)),
        ("max_total_hits", num(2)),
        ("offset", num(next.offset as u64)),
    ]);
    let page2 = files_only_report(&req4, single_listing_findings(&req4, listing(&pages, 0)), vec![], vec![]);
    assert_eq!(page2.files.len(), 2);
    assert_ne!(page1.files, page2.files);
}

#[test]
fn pages_are_consecutive_runs_of_distinct_names() {
    let lines = lines_of(&["./a", "b", "a", "", "c", "d", "e"]);
    let p1 = collect_file_hits(&lines, 2, 10000, 0);
    assert_eq!(p1.files, strings(&["a", "b"]));
    assert!(p1.has_more);
    let p2 = collect_file_hits(&lines, 2, 10000, 2);
    assert_eq!(p2.files, strings(&["c", "d"]));
    let p3 = collect_file_hits(&lines, 2, 10000, 4);
    assert_eq!(p3.files, strings(&["e"]));
    assert!(!p3.has_more);
    assert_eq!(p3.seen, 5);
    assert_eq!(p3.total_chars, 17);
}

#[test]
fn page_character_budget() {
    let lines = lines_of(&["aaaa", "bbbb"]);
    let p = collect_file_hits(&lines, 10, 25, 0);
    assert_eq!(p.files, strings(&["aaaa"]));
    assert!(p.truncated);
    assert_eq!(p.total_chars, 20);
}

#[test]
fn follow_up_search_suggestion() {
    let files: Vec<String> = (0..12).map(|i| format!("f{i}")).collect();
    let n = make_find_files_next(&None, &strings(&["a", "b"]), "all", "regex", &files, 300, 7, 100, Some(true));
    assert_eq!(n.len(), 1);
    assert_eq!(n[0].paths.len(), 10);
    assert_eq!(n[0].max_total_hits, 20);
    assert_eq!(n[0].max_hits_per_file, 7);
    assert_eq!(n[0].terms, Some(strings(&["a", "b"])));
    assert_eq!(n[0].query, None);
    assert_eq!(n[0].match_mode, Some("all".to_string()));
    assert_eq!(n[0].mode, Some("regex".to_string()));
    assert!(n[0].case_sensitive);
    let q = make_find_files_next(&Some("x".to_string()), &strings(&["x"]), "any", "literal", &files[..1].to_vec(), 5, 1, 40, None);
    assert_eq!(q[0].query, Some("x".to_string()));
    assert_eq!(q[0].max_total_hits, 5);
    assert!(q[0].match_mode.is_none() && q[0].mode.is_none() && !q[0].case_sensitive);
    assert!(make_find_files_next(&None, &strings(&["x"]), "any", "literal", &Vec::new(), 5, 1, 40, None).is_empty());
}

#[test]
fn follow_up_batch_sizes() {
    let m = make_find_next_meta(25, None);
    assert_eq!(m.batch_size, 10);
    assert_eq!(m.files_in_next, 10);
    assert_eq!(m.remaining_files_in_page, 15);
    assert!(m.next_is_first_batch);
    let small = make_find_next_meta(3, Some(5));
    assert_eq!(small.files_in_next, 3);
    assert_eq!(small.remaining_files_in_page, 0);
    assert!(!small.next_is_first_batch);
}

#[test]
fn files_with_matches_command_layout() {
    let cmd = build_rg_files_with_matches_cmd("rg", &strings(&["a", "b"]), "literal", &strings(&["src"]), &strings(&["-g", "*.py"]), None);
    assert_eq!(cmd, strings(&["rg", "-l", "--color=never", "--max-filesize", "5M", "-i", "-g", "*.py", "-F", "-e", "a", "-e", "b", "src"]));
    let cs = build_rg_files_with_matches_cmd("rg", &strings(&["a"]), "regex", &strings(&["."]), &Vec::new(), Some(true));
    assert_eq!(cs, strings(&["rg", "-l", "--color=never", "--max-filesize", "5M", "-e", "a", "."]));
}

#[test]
fn failed_listing_is_an_error_when_nothing_is_found() {
    let req = request(vec![("query", st("q")), ("files_only", JsonValue::Bool(true))]);
    let r = files_only_report(&req, single_listing_findings(&req, listing(&[], 2)), vec![], vec![]);
    assert_eq!(r.status, Status::Failed);
    assert!(r.next.is_empty());
    let mut timed = listing(&["a.py"], 0);
    timed.timed_out = true;
    let t = files_only_report(&req, single_listing_findings(&req, timed), vec![], vec![]);
    assert_eq!(t.status, Status::Truncated);
    assert_eq!(t.limit_reasons, vec![LimitReason::Timeout, LimitReason::FilesPageHasMore]);
    assert!(t.has_more);
    assert_eq!(t.next_page.as_ref().unwrap().offset, 1);
}

#[test]
fn truncated_page_without_files_can_be_continued() {
    let req = request(vec![("query", st("q")), ("files_only", JsonValue::Bool(true)), ("offset", num(4))]);
    let mut timed = listing(&[], 1);
    timed.timed_out = true;
    let r = files_only_report(&req, single_listing_findings(&req, timed), vec![], vec![]);
    assert_eq!(r.status, Status::Truncated);
    assert!(r.files.is_empty());
    let p = r.next_page.as_ref().unwrap();
    assert_eq!(p.offset, 4);
    assert_eq!(p.max_total_hits, 300);
    assert!(r.limit_reasons.contains(&LimitReason::FilesPageHasMore));
    let mut failed = listing(&[], 2);
    failed.timed_out = true;
    let f = files_only_report(&req, single_listing_findings(&req, failed), vec![], vec![]);
    assert_eq!(f.status, Status::Failed);
    assert!(f.next_page.is_none());
}

#[test]
fn staged_search_reports_its_first_listing() {
    let req = request(vec![
        ("terms", JsonValue::Array(vec![st("alpha"), st("be")], String::new())),
        ("match", st("all")),
    ]);
    let plan = plan_files_only(&req);
    let mut failed = listing(&[], 2);
    failed.stderr = "boom".to_string();
    let s = StagedSearch::start(&req, &plan, failed);
    assert!(s.next_probe().is_none());
    let r = files_only_report(&req, s.finish(), vec![], vec![]);
    assert_eq!(r.status, Status::Failed);
    assert_eq!(r.rc, 2);
    assert_eq!(r.seen_files, 0);
    assert_eq!(r.stderr, Some("boom".to_string()));

    let mut cut = listing(&["a.py", "b.py", "c.py"], 0);
    cut.line_limit_hit = true;
    let mut s2 = StagedSearch::start(&req, &plan, cut);
    while let Some((file, _)) = s2.next_probe() {
        let found = if file == "b.py" { listing(&["b.py"], 0) } else { listing(&[], 1) };
        s2.on_probe(&found);
    }
    let r2 = files_only_report(&req, s2.finish(), vec![], vec![]);
    assert_eq!(r2.files, strings(&["b.py"]));
    assert_eq!(r2.status, Status::Truncated);
    assert!(r2.limit_reasons.contains(&LimitReason::ProcessLineLimit));
    assert_eq!(r2.seen_files, 1);
    assert_eq!(r2.next_page.as_ref().unwrap().offset, 1);
}

#[test]
fn staged_seen_count_takes_the_larger_when_more_follow() {
    let req = request(vec![
        ("terms", JsonValue::Array(vec![st("alpha"), st("be")], String::new())),
        ("match", st("all")),
        ("max_total_hits", num(1)),
    ]);
    let plan = plan_files_only(&req);
    let mut s = StagedSearch::start(&req, &plan, listing(&["a.py", "b.py", "c.py"], 0));
    while s.next_probe().is_some() {
        s.on_probe(&listing(&["x"], 0));
    }
    let f = s.finish();
    assert_eq!(f.files, strings(&["a.py"]));
    assert!(f.has_more);
    assert_eq!(f.seen_files, 3);
}

#[test]
fn staged_search_deadline_cuts_short() {
    let req = request(vec![
        ("terms", JsonValue::Array(vec![st("alpha"), st("be")], String::new())),
        ("match", st("all")),
    ]);
    let plan = plan_files_only(&req);
    let mut s = StagedSearch::start(&req, &plan, listing(&["a.py", "b.py"], 0));
    assert!(s.next_probe().is_some());
    s.on_deadline();
    s.on_probe(&listing(&["b.py"], 0));
    assert!(s.next_probe().is_none());
    let f = s.finish();
    assert_eq!(f.files, strings(&["b.py"]));
    assert!(f.truncated);
}
