use cxs::datasearch::{large_field_matcher, parse_json_request, JsonSearch};
use cxs::files::{files_report, parse_files_request};
use cxs::find::parse_find_request;
use cxs::json::{Args, JsonValue};
use cxs::process::ProcResult;
use cxs::records::{json_lines_records, select_data_files};
use cxs::scan::find_report;
use cxs::scope::build_globs;
use cxs::symbol::symbol_find_args;
use serde_json::Value;

fn val(s: &str) -> Value {
    serde_json::from_str(s).unwrap()
}

fn to_value(v: &Value) -> JsonValue {
    match v {
        Value::Null => JsonValue::Null,
        Value::Bool(b) => JsonValue::Bool(*b),
        Value::Number(n) => JsonValue::Number(n.as_u64(), n.to_string()),
        Value::String(s) => JsonValue::Str(s.clone()),
        Value::Array(xs) => JsonValue::Array(xs.iter().map(to_value).collect(), v.to_string()),
        Value::Object(m) => JsonValue::Object(
            m.iter().map(|(k, x)| (k.clone(), to_value(x))).collect(),
            v.to_string(),
        ),
    }
}

fn to_args(v: &Value) -> Args {
    match to_value(v) {
        JsonValue::Object(entries, _) => Args { entries },
        _ => Args { entries: Vec::new() },
    }
}

fn output(lines: &[&str]) -> ProcResult {
    ProcResult {
        lines: lines.iter().map(|l| l.as_bytes().to_vec()).collect(),
        returncode: if lines.is_empty() { 1 } else { 0 },
        stderr: String::new(),
        timed_out: false,
        byte_limit_hit: false,
        line_limit_hit: false,
        bytes_read: lines.iter().map(|l| l.len() + 1).sum(),
    }
}

#[test]
fn find_budget_and_excludes() {
    let args = to_args(&val(r#"{"query":"needle","root":"/fx","scopes":["docs"],"max_line_chars":60}"#));
    let req = parse_find_request(&args).ok().unwrap();
    let long = format!("docs/README.md\t2\tneedle {}", "x".repeat(1000));
    let res = find_report(&req, &output(&[long.as_str()]), vec![], vec![]).ok().unwrap();
    assert!(!res.hits.is_empty());
    assert!(res.hits[0].snippet.chars().count() <= 80);

    let args2 = to_args(&val(r#"{"query":"vendor","root":"/fx","scopes":["docs","src"]}"#));
    let plan = build_globs(args2.get("scopes"), None, None, false, false);
    assert!(plan.args.contains(&"!**/resources/code/github/**".to_string()));
    let req2 = parse_find_request(&args2).ok().unwrap();
    let res2 = find_report(&req2, &output(&[]), vec![], vec![]).ok().unwrap();
    assert_eq!(res2.hits.len(), 0);
}

#[test]
fn files_symbol_and_json() {
    let fargs = to_args(&val(r#"{"query":"app","root":"/fx","scopes":["src"]}"#));
    let freq = parse_files_request(&fargs);
    let files = files_report(&freq, &output(&["src/app.py", "docs/README.md"]), vec![], vec![])
        .ok()
        .unwrap();
    assert!(files.files.iter().any(|f| f == "src/app.py"));

    let sargs = symbol_find_args(to_args(&val(r#"{"name":"train_loop","root":"/fx"}"#))).ok().unwrap();
    let sreq = parse_find_request(&sargs).ok().unwrap();
    assert!(regex::Regex::new(&sreq.terms[0]).unwrap().is_match("def train_loop(x):"));
    let sym = find_report(&sreq, &output(&["src/app.py\t1\tdef train_loop(x):"]), vec![], vec![])
        .ok()
        .unwrap();
    assert!(sym.hits.iter().any(|h| h.snippet.contains("def train_loop")));

    let lines = vec![
        to_value(&val(&format!(r#"{{"doc_id":"doc-1","token_count":12,"text":"{}","kind":"summary"}}"#, "A".repeat(10000)))),
        to_value(&val(r#"{"doc_id":"doc-2","token_count":99,"text":"needle hidden in large text","kind":"raw"}"#)),
    ];
    let search = |a: Value| {
        let req = parse_json_request(to_args(&a));
        let mut s = JsonSearch::new(req, large_field_matcher().unwrap(), false);
        let recs = json_lines_records(lines.iter().map(clone_value).collect());
        s.on_file("data/records.jsonl", &recs);
        s.finish(1, vec![], vec![])
    };
    let hidden = search(val(r#"{"query":"needle hidden","root":"/fx","paths":["data/records.jsonl"]}"#));
    assert_eq!(hidden.hits.len(), 0);
    let hidden2 = search(
        val(r#"{"query":"needle hidden","root":"/fx","paths":["data/records.jsonl"],"search_large_fields":true}"#),
    );
    assert_eq!(hidden2.hits.len(), 1);
    let fields = search(
        val(r#"{"filters":{"doc_id":"doc-1"},"fields":["doc_id","token_count","text"],"root":"/fx","paths":["data/records.jsonl"]}"#),
    );
    let rec = &fields.hits[0].record;
    let get = |k: &str| rec.iter().find(|(key, _)| key == k).map(|(_, v)| v);
    assert!(matches!(get("doc_id"), Some(JsonValue::Str(s)) if s == "doc-1"));
    match get("text") {
        Some(JsonValue::Str(s)) => assert!(s.chars().count() <= 320),
        _ => panic!("text field missing"),
    }

    let analysis = to_args(&val(r#"{"query":"r1","root":"/fx","scopes":["analysis"]}"#));
    let plan = cxs::datasearch::data_globs_for(&analysis, false, false);
    assert!(plan.args.contains(&"!**/experiments/runs/**".to_string()));
    let listed = select_data_files(&output(&[]), 300);
    assert_eq!(listed.files.len(), 0);

    let runs = to_args(&val(r#"{"query":"r1","root":"/fx","scopes":["runs"]}"#));
    let plan = cxs::datasearch::data_globs_for(&runs, false, false);
    assert!(!plan.args.contains(&"!**/experiments/runs/**".to_string()));
    let listed = select_data_files(&output(&["experiments/runs/r1/metrics.jsonl"]), 300);
    assert_eq!(listed.files.len(), 1);
    let req = parse_json_request(runs);
    let mut s = JsonSearch::new(req, large_field_matcher().unwrap(), listed.truncated);
    let recs = json_lines_records(vec![to_value(&val(r#"{"run_id":"r1","acc":0.9}"#))]);
    s.on_file(&listed.files[0], &recs);
    assert_eq!(s.finish(1, vec![], vec![]).hits.len(), 1);
}

fn clone_value(v: &JsonValue) -> JsonValue {
    match v {
        JsonValue::Null => JsonValue::Null,
        JsonValue::Bool(b) => JsonValue::Bool(*b),
        JsonValue::Number(n, t) => JsonValue::Number(*n, t.clone()),
        JsonValue::Str(s) => JsonValue::Str(s.clone()),
        JsonValue::Array(xs, t) => JsonValue::Array(xs.iter().map(clone_value).collect(), t.clone()),
        JsonValue::Object(es, t) => JsonValue::Object(
            es.iter().map(|(k, x)| (k.clone(), clone_value(x))).collect(),
            t.clone(),
        ),
    }
}
