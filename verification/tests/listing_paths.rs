use cxs::files::{build_files_command, files_report, parse_files_request, FilesError};
use cxs::find::Status;
use cxs::json::{Args, JsonValue};
use cxs::paths::{find_rg_excluding, normalize_paths, paths_all_files, requested_paths, safe_rel, PathFacts, RgCandidate};
use cxs::process::{LineCollector, ProcResult};
use cxs::regexes::{compile_regex, compile_regex_terms};
use cxs::symbol::symbol_pattern;
use cxs::scope::{build_glob_args, build_globs, default_scope_names, scope_includes};

fn st(x: &str) -> JsonValue {
    JsonValue::Str(x.to_string())
}

fn strings(xs: &[&str]) -> Vec<String> {
    xs.iter().map(|s| s.to_string()).collect()
}

fn listing(lines: &[&str]) -> ProcResult {
    ProcResult {
        lines: lines.iter().map(|l| l.as_bytes().to_vec()).collect(),
        returncode: 0,
        stderr: String::new(),
        timed_out: false,
        byte_limit_hit: false,
        line_limit_hit: false,
        bytes_read: 0,
    }
}

#[test]
fn file_listing_filters_names() {
    let lit = parse_files_request(&Args { entries: vec![("query".to_string(), st("APP"))] });
    let r = files_report(&lit, &listing(&["src/app.py", "./docs/Apple.md", "src/x.py", ""]), vec![], vec![]).ok().unwrap();
    assert_eq!(r.files, strings(&["src/app.py", "docs/Apple.md"]));
    assert_eq!(r.status, Status::Complete);
    let rx = parse_files_request(&Args {
        entries: vec![("mode".to_string(), st("regex")), ("query".to_string(), st("^src/.*\\.py$"))],
    });
    let r2 = files_report(&rx, &listing(&["src/app.py", "docs/a.md", "src/b.py"]), vec![], vec![]).ok().unwrap();
    assert_eq!(r2.files, strings(&["src/app.py", "src/b.py"]));
    let bad = parse_files_request(&Args {
        entries: vec![("mode".to_string(), st("regex")), ("query".to_string(), st("(")), ]
    });
    assert!(matches!(files_report(&bad, &listing(&[]), vec![], vec![]), Err(FilesError::BadRegex)));
}

#[test]
fn file_listing_budget() {
    let req = parse_files_request(&Args {
        entries: vec![("max_files".to_string(), JsonValue::Number(Some(2), "2".to_string()))],
    });
    let r = files_report(&req, &listing(&["a", "b", "c"]), vec![], vec![]).ok().unwrap();
    assert_eq!(r.files, strings(&["a", "b"]));
    assert!(r.truncated);
    assert_eq!(r.status, Status::Truncated);
    assert_eq!(
        build_files_command("rg", &strings(&["src"]), &strings(&["-g", "*.py"])),
        strings(&["rg", "--files", "--color=never", "-g", "*.py", "src"])
    );
}

#[test]
fn paths_inside_root_only() {
    assert_eq!(safe_rel("/r", Some("/r")), Some(".".to_string()));
    assert_eq!(safe_rel("/r", Some("/r/src/a.py")), Some("src/a.py".to_string()));
    assert_eq!(safe_rel("/r", Some("/rx/a")), None);
    assert_eq!(safe_rel("/r", None), None);
    let items = strings(&["src", "../x", "gone"]);
    let facts = vec![
        PathFacts { exists: true, resolved: Some("/r/src".to_string()) },
        PathFacts { exists: true, resolved: Some("/x".to_string()) },
        PathFacts { exists: false, resolved: None },
    ];
    let (ok, bad) = normalize_paths("/r", &items, &facts);
    assert_eq!(ok, strings(&["src"]));
    assert_eq!(bad.len(), 2);
    assert_eq!(bad[0].reason, "outside_root");
    assert_eq!(bad[1].reason, "missing");
    let (all, none) = normalize_paths("/r", &Vec::new(), &Vec::new());
    assert_eq!(all, strings(&["."]));
    assert!(none.is_empty());
}

#[test]
fn explicit_files_and_requested_paths() {
    assert!(paths_all_files(&strings(&["a.py", "b.py"]), &vec![true, true]));
    assert!(!paths_all_files(&strings(&["a.py", "src"]), &vec![true, false]));
    assert!(!paths_all_files(&strings(&["."]), &vec![true]));
    assert!(!paths_all_files(&Vec::new(), &Vec::new()));
    let v = JsonValue::Array(vec![st("a"), st("")], String::new());
    assert_eq!(requested_paths(Some(&v)), strings(&["a"]));
}

#[test]
fn rg_lookup_skips_the_stand_in() {
    let c = vec![
        RgCandidate { path: "/a/rg".to_string(), is_file: false, resolved: None },
        RgCandidate { path: "/b/rg".to_string(), is_file: true, resolved: Some("/shim".to_string()) },
        RgCandidate { path: "/c/rg".to_string(), is_file: true, resolved: Some("/c/rg".to_string()) },
    ];
    assert_eq!(find_rg_excluding(&c, Some("/shim")), Some("/c/rg".to_string()));
    assert_eq!(find_rg_excluding(&c, None), Some("/b/rg".to_string()));
    let only_dir = vec![RgCandidate { path: "/a/rg".to_string(), is_file: false, resolved: None }];
    assert_eq!(find_rg_excluding(&only_dir, None), None);
}

#[test]
fn scope_tables_and_globs() {
    assert_eq!(default_scope_names(), strings(&["docs", "src", "tests", "config", "analysis"]));
    assert!(scope_includes("docs").unwrap().contains(&"**/*.md".to_string()));
    assert!(scope_includes("nope").is_none());
    let scopes = JsonValue::Array(vec![st("docs"), st("bogus")], String::new());
    let plan = build_globs(Some(&scopes), None, None, false, false);
    assert!(plan.args.contains(&"**/*.md".to_string()));
    assert!(plan.args.contains(&"!**/node_modules/**".to_string()));
    assert_eq!(plan.warnings, strings(&["unknown_scope:bogus"]));
    let vendor = build_glob_args(&strings(&["vendor"]), &Vec::new(), &Vec::new(), false, false);
    assert!(!vendor.args.contains(&"!**/resources/code/github/**".to_string()));
    assert!(vendor.args.contains(&"!**/.git/**".to_string()));
    let files = build_glob_args(&Vec::new(), &Vec::new(), &strings(&["*.log"]), true, true);
    assert_eq!(files.args, strings(&["-g", "!*.log"]));
    assert!(files.warnings.is_empty());
}

#[test]
fn collector_keeps_its_limits() {
    let mut c = LineCollector::new(100, 2);
    assert!(!c.on_line(b"abc".to_vec()));
    assert!(c.on_line(b"def".to_vec()));
    assert!(c.line_limit_hit);
    c.on_exit(Some(0));
    let p = c.finish(String::new());
    assert_eq!(p.lines.len(), 2);
    assert_eq!(p.bytes_read, 8);
    let mut b = LineCollector::new(5, 10);
    assert!(b.on_line(b"abcdef".to_vec()));
    assert!(b.byte_limit_hit);
    let mut t = LineCollector::new(100, 10);
    t.on_deadline();
    t.on_trailing_line(b"late".to_vec());
    let tp = t.finish("oops".to_string());
    assert!(tp.timed_out);
    assert_eq!(tp.lines.len(), 1);
    assert_eq!(tp.stderr, "oops");
    let failed = ProcResult::spawn_failed("no such file".to_string());
    assert_eq!(failed.returncode, 127);
}

#[test]
fn regex_compilation_and_escape() {
    assert!(compile_regex("ab+c", None).is_ok());
    assert!(compile_regex("ab+c", Some(true)).is_ok());
    let bad = compile_regex("a(", None).err().unwrap();
    assert_eq!(bad.pattern, "a(");
    assert!(compile_regex_terms(&strings(&["a", "b("]), None).is_err());
    assert_eq!(compile_regex_terms(&strings(&["a", "b"]), None).ok().unwrap().len(), 2);
    assert!(symbol_pattern("a.b*c").contains("a\\.b\\*c"));
    assert!(symbol_pattern("plain").contains("+plain\\b"));
}
