use cxs::find::{build_find_command, parse_find_request, LimitReason, RequestError, Status};
use cxs::json::{Args, JsonValue};
use cxs::paths::{normalize_paths, PathFacts};
use cxs::process::ProcResult;
use cxs::scan::{find_report, FindError};

fn st(x: &str) -> JsonValue {
    JsonValue::Str(x.to_string())
}

fn num(n: u64) -> JsonValue {
    JsonValue::Number(Some(n), n.to_string())
}

fn args(pairs: Vec<(&str, JsonValue)>) -> Args {
    let mut entries: Vec<(String, JsonValue)> = pairs.into_iter().map(|(k, v)| (k.to_string(), v)).collect();
    entries.sort_by(|a, b| a.0.cmp(&b.0));
    Args { entries }
}

fn out(lines: &[String], rc: i32) -> ProcResult {
    ProcResult {
        lines: lines.iter().map(|l| l.as_bytes().to_vec()).collect(),
        returncode: rc,
        stderr: String::new(),
        timed_out: false,
        byte_limit_hit: false,
        line_limit_hit: false,
        bytes_read: lines.iter().map(|l| l.len() + 1).sum(),
    }
}

#[test]
fn find_defaults_come_from_budget() {
    let req = parse_find_request(&args(vec![("query", st("budget-key")), ("paths", JsonValue::Array(vec![st("src/budget.py")], String::new()))]))
        .ok()
        .unwrap();
    let lines: Vec<String> = (1..=25).map(|i| format!("src/budget.py\t{i}\tbudget-key")).collect();
    let res = find_report(&req, &out(&lines, 0), vec![], vec![]).ok().unwrap();
    assert_eq!(res.hits.len(), 25);
    assert_eq!(res.status, Status::Complete);
}

#[test]
fn find_line_limits_and_missing_paths() {
    let req = parse_find_request(&args(vec![("query", st("return"))])).ok().unwrap();
    let res = find_report(&req, &out(&["src/app.py\t2\t    return x".to_string()], 0), vec![], vec![]).ok().unwrap();
    assert_eq!(res.hits.len(), 1);
    assert_eq!(res.hits[0].file, "src/app.py");
    assert_eq!(res.hits[0].line, Some(2));

    let limited_req = parse_find_request(&args(vec![("query", st("needle")), ("max_hits_per_file", num(3))])).ok().unwrap();
    let lines: Vec<String> = (1..=3).map(|i| format!("src/many.py\t{i}\tneedle {}", "x".repeat(200))).collect();
    let limited = find_report(&limited_req, &out(&lines, 0), vec![], vec![]).ok().unwrap();
    assert_eq!(limited.status, Status::Truncated);
    assert!(limited.limit_reasons.contains(&LimitReason::MaxHitsPerFile));
    assert_eq!(limited.limited_files[0].file, "src/many.py");
    assert_eq!(limited.limited_files[0].hits, 3);

    let items = vec!["missing.md".to_string()];
    let facts = vec![PathFacts { exists: false, resolved: None }];
    let (ok, bad) = normalize_paths("/fx", &items, &facts);
    assert!(ok.is_empty());
    assert_eq!(bad[0].path, "missing.md");
    assert_eq!(bad[0].reason, "missing");
}

#[test]
fn empty_query_is_refused() {
    assert!(matches!(parse_find_request(&args(vec![])), Err(RequestError::EmptyQuery)));
    assert!(matches!(parse_find_request(&args(vec![("query", st(""))])), Err(RequestError::EmptyQuery)));
    let r = parse_find_request(&args(vec![("terms", JsonValue::Array(vec![st("a"), st("b")], String::new()))])).ok().unwrap();
    assert_eq!(r.terms, vec!["a".to_string(), "b".to_string()]);
}

#[test]
fn request_budget_values_are_clamped() {
    let r = parse_find_request(&args(vec![
        ("query", st("q")),
        ("max_total_hits", num(100000)),
        ("max_line_chars", num(1)),
        ("offset", num(7)),
        ("files_only", JsonValue::Bool(true)),
    ]))
    .ok()
    .unwrap();
    assert_eq!(r.max_total_hits, 5000);
    assert_eq!(r.max_line_chars, 40);
    assert_eq!(r.max_hits_per_file, 999);
    assert_eq!(r.offset, 7);
    assert!(r.files_only);
    assert_eq!(r.match_mode, "any");
    assert_eq!(r.mode, "literal");
}

#[test]
fn find_command_layout() {
    let r = parse_find_request(&args(vec![("query", st("needle"))])).ok().unwrap();
    let cmd = build_find_command("rg", &r, &vec![".".to_string()], &vec!["-g".to_string(), "**/*.md".to_string()]);
    let expected: Vec<String> = [
        "rg", "-n", "-H", "--no-heading", "--color=never", "--field-match-separator", "\t", "--max-count",
        "999", "--max-columns", "240", "--max-columns-preview", "--max-filesize", "5M", "-i", "-g", "**/*.md",
        "-F", "-e", "needle", ".",
    ]
    .iter()
    .map(|s| s.to_string())
    .collect();
    assert_eq!(cmd, expected);
    let all = parse_find_request(&args(vec![
        ("terms", JsonValue::Array(vec![st("ab"), st("abcd"), st("x")], String::new())),
        ("match", st("all")),
        ("case_sensitive", JsonValue::Bool(true)),
        ("mode", st("regex")),
    ]))
    .ok()
    .unwrap();
    let cmd = build_find_command("rg", &all, &vec!["src".to_string()], &vec![]);
    assert_eq!(&cmd[14..], &["-e".to_string(), "abcd".to_string(), "src".to_string()]);
}

#[test]
fn all_terms_must_match_a_line() {
    let r = parse_find_request(&args(vec![
        ("terms", JsonValue::Array(vec![st("alpha"), st("beta")], String::new())),
        ("match", st("all")),
    ]))
    .ok()
    .unwrap();
    let lines = vec!["a.py\t1\tALPHA beta".to_string(), "a.py\t2\talpha only".to_string()];
    let res = find_report(&r, &out(&lines, 0), vec![], vec![]).ok().unwrap();
    assert_eq!(res.hits.len(), 1);
    assert_eq!(res.hits[0].line, Some(1));
}

#[test]
fn regex_terms_must_compile() {
    let r = parse_find_request(&args(vec![
        ("terms", JsonValue::Array(vec![st("a("), st("b")], String::new())),
        ("match", st("all")),
        ("mode", st("regex")),
    ]))
    .ok()
    .unwrap();
    assert!(matches!(find_report(&r, &out(&[], 1), vec![], vec![]), Err(FindError::BadRegex)));
}

#[test]
fn failed_search_without_hits_is_an_error() {
    let r = parse_find_request(&args(vec![("query", st("q"))])).ok().unwrap();
    let mut p = out(&[], 2);
    p.stderr = "bad flag".to_string();
    let res = find_report(&r, &p, vec![], vec![]).ok().unwrap();
    assert_eq!(res.status, Status::Failed);
    assert_eq!(res.stderr, Some("bad flag".to_string()));
    assert_eq!(res.status.name(), "error");
}

#[test]
fn total_hit_budget_stops_the_scan() {
    let r = parse_find_request(&args(vec![("query", st("q")), ("max_total_hits", num(2))])).ok().unwrap();
    let lines: Vec<String> = (1..=5).map(|i| format!("f{i}.py\t1\tq")).collect();
    let res = find_report(&r, &out(&lines, 0), vec![], vec![]).ok().unwrap();
    assert_eq!(res.hits.len(), 2);
    assert!(res.truncated);
    assert!(res.limit_reasons.contains(&LimitReason::MaxTotalHits));
    assert_eq!(res.files, 2);
    assert_eq!(LimitReason::MaxTotalHits.name(), "max_total_hits");
}

#[test]
fn malformed_output_lines_are_skipped() {
    let r = parse_find_request(&args(vec![("query", st("q"))])).ok().unwrap();
    let lines = vec!["no tabs here".to_string(), "./a.py\tx\tq".to_string()];
    let res = find_report(&r, &out(&lines, 0), vec![], vec![]).ok().unwrap();
    assert_eq!(res.hits.len(), 1);
    assert_eq!(res.hits[0].file, "a.py");
    assert_eq!(res.hits[0].line, None);
}
