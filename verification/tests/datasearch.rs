use cxs::datasearch::{
    check_filters, check_query, entry_chars, flatten_text, large_field_matcher, parse_json_request,
    project_record, projected_value, JsonSearch,
};
use cxs::find::Status;
use cxs::json::{Args, JsonValue};
use cxs::records::Record;

fn st(x: &str) -> JsonValue {
    JsonValue::Str(x.to_string())
}

fn num(n: u64) -> JsonValue {
    JsonValue::Number(Some(n), n.to_string())
}

fn fields(pairs: Vec<(&str, JsonValue)>) -> Vec<(String, JsonValue)> {
    pairs.into_iter().map(|(k, v)| (k.to_string(), v)).collect()
}

fn list(xs: &[&str]) -> JsonValue {
    JsonValue::Array(xs.iter().map(|x| st(x)).collect(), String::new())
}

#[test]
fn flatten_hides_bulk_text_unless_asked() {
    let large = large_field_matcher().unwrap();
    let rec = fields(vec![("doc_id", st("d1")), ("text", st("needle")), ("body_html", st("b"))]);
    assert_eq!(flatten_text(&rec, false, &large), "d1");
    assert_eq!(flatten_text(&rec, true, &large), "d1\nneedle\nb");
}

#[test]
fn flatten_walks_nested_values() {
    let large = large_field_matcher().unwrap();
    let inner = JsonValue::Object(fields(vec![("k", st("v")), ("n", num(2))]), "{}".to_string());
    let items: Vec<JsonValue> = (0..60).map(|i| num(i)).collect();
    let rec = fields(vec![("a", inner), ("b", JsonValue::Array(items, String::new())), ("c", JsonValue::Null)]);
    let text = flatten_text(&rec, false, &large);
    let parts: Vec<&str> = text.split('\n').collect();
    assert_eq!(parts.len(), 2 + 50 + 1);
    assert_eq!(parts[0], "v");
    assert_eq!(parts[1], "2");
    assert_eq!(parts[51], "49");
    assert_eq!(parts[52], "null");
}

#[test]
fn flatten_skips_and_cuts_long_values() {
    let large = large_field_matcher().unwrap();
    let long = "y".repeat(6000);
    let rec = fields(vec![("note", st(&long))]);
    assert_eq!(flatten_text(&rec, false, &large), "");
    assert_eq!(flatten_text(&rec, true, &large).chars().count(), 5000);
}

#[test]
fn filters_compare_plain_text() {
    let rec = fields(vec![("id", st("doc-1")), ("n", num(12)), ("ok", JsonValue::Bool(true))]);
    assert!(check_filters(&rec, &fields(vec![("id", st("doc-1")), ("n", st("12"))])));
    assert!(check_filters(&rec, &fields(vec![("ok", st("true"))])));
    assert!(!check_filters(&rec, &fields(vec![("id", st("doc-2"))])));
    assert!(check_filters(&rec, &fields(vec![("missing", st(""))])));
    assert!(!check_filters(&rec, &fields(vec![("missing", JsonValue::Null)])));
    assert!(check_filters(&rec, &Vec::new()));
}

#[test]
fn query_any_all_and_case() {
    let qs = vec!["Alpha".to_string(), "beta".to_string()];
    assert!(check_query("alpha only", &qs, false, None));
    assert!(!check_query("alpha only", &qs, true, None));
    assert!(check_query("ALPHA and BETA", &qs, true, None));
    assert!(!check_query("alpha and beta", &qs, true, Some(true)));
    assert!(check_query("Alpha and beta", &qs, true, Some(true)));
    assert!(check_query("nothing", &Vec::new(), true, Some(true)));
}

#[test]
fn projection_of_listed_and_all_fields() {
    let large = large_field_matcher().unwrap();
    let rec = fields(vec![("id", st("d")), ("n", num(3)), ("text", st(&"z".repeat(500)))]);
    let listed = project_record(
        &rec,
        &vec!["text".to_string(), "id".to_string(), "id".to_string(), "gone".to_string(), "n".to_string()],
        &vec!["n".to_string()],
        60,
        &large,
    );
    let keys: Vec<&str> = listed.iter().map(|(k, _)| k.as_str()).collect();
    assert_eq!(keys, vec!["text", "id"]);
    match &listed[0].1 {
        JsonValue::Str(s) => {
            assert_eq!(s.chars().count(), 58);
            assert!(s.ends_with("[truncated]"));
        }
        _ => panic!("text not shown as text"),
    }
    let all = project_record(&rec, &Vec::new(), &Vec::new(), 60, &large);
    assert!(matches!(&all[2].1, JsonValue::Str(s) if s == "[omitted]"));
    assert!(matches!(&all[1].1, JsonValue::Number(Some(3), _)));
}

#[test]
fn projected_values_show_structures_as_text() {
    let arr = JsonValue::Array(vec![num(1), num(2)], "[1,2]".to_string());
    assert!(matches!(projected_value(&arr, 100), JsonValue::Str(s) if s == "[1,2]"));
    assert!(matches!(projected_value(&JsonValue::Bool(false), 100), JsonValue::Bool(false)));
}

#[test]
fn entry_size_is_compact_json_length() {
    assert_eq!(entry_chars("f", 1, &fields(vec![("a", st("x"))])), 40);
    let rec = fields(vec![
        ("a", st("q\"z")),
        ("n", num(3)),
        ("t", JsonValue::Bool(true)),
        ("z", JsonValue::Null),
    ]);
    assert_eq!(entry_chars("d/r.jsonl", 12, &rec), 76);
    assert_eq!(entry_chars("f", 1, &fields(vec![("a", st("\u{1}\n\u{1f}"))])), 53);
    assert_eq!(entry_chars("f", 1, &fields(vec![("\u{e9}", st("\u{263a}"))])), 40);
}

fn request(pairs: Vec<(&str, JsonValue)>) -> cxs::datasearch::JsonRequest {
    parse_json_request(Args { entries: fields(pairs) })
}

fn records(n: usize) -> Vec<Record> {
    (0..n)
        .map(|i| Record { line: i + 1, fields: fields(vec![("id", num(i as u64)), ("kind", st("k"))]) })
        .collect()
}

#[test]
fn request_defaults_and_clamps() {
    let r = request(vec![("max_records", num(0)), ("max_value_chars", num(1_000_000)), ("match", st("all"))]);
    assert_eq!(r.max_records, 1);
    assert_eq!(r.max_value_chars, 5000);
    assert_eq!(r.max_files, 300);
    assert_eq!(r.max_records_examined, 200000);
    assert_eq!(r.max_file_bytes, 64_000_000);
    assert!(r.match_all);
    assert!(!r.search_large_fields);
    let f = request(vec![("filters", JsonValue::Object(fields(vec![("a", st("b"))]), String::new())), ("fields", list(&["a"]))]);
    assert_eq!(f.filters.len(), 1);
    assert_eq!(f.fields, vec!["a".to_string()]);
}

#[test]
fn search_stops_at_record_budget() {
    let req = request(vec![("max_records", num(2))]);
    let mut s = JsonSearch::new(req, large_field_matcher().unwrap(), false);
    s.on_file("a.jsonl", &records(5));
    assert!(s.ended());
    let rep = s.finish(1, vec![], vec![]);
    assert_eq!(rep.hits.len(), 2);
    assert!(rep.truncated);
    assert_eq!(rep.status, Status::Truncated);
    assert_eq!(rep.examined, 3);
    assert_eq!(rep.hits[1].line, 2);
}

#[test]
fn search_stops_at_examination_limit() {
    let req = request(vec![("max_records_examined", num(2)), ("query", st("nomatch"))]);
    let mut s = JsonSearch::new(req, large_field_matcher().unwrap(), false);
    s.on_file("a.jsonl", &records(5));
    assert!(s.ended());
    let rep = s.finish(1, vec![], vec![]);
    assert_eq!(rep.hits.len(), 0);
    assert_eq!(rep.examined, 3);
    assert!(rep.truncated);
}

#[test]
fn search_char_budget_moves_on_to_next_file() {
    let req = request(vec![("max_total_chars", num(1000)), ("max_value_chars", num(5000))]);
    let mut s = JsonSearch::new(req, large_field_matcher().unwrap(), false);
    let big = vec![Record { line: 1, fields: fields(vec![("note", st(&"w".repeat(3000)))]) }];
    s.on_file("big.jsonl", &big);
    assert!(!s.ended());
    s.on_file("small.jsonl", &records(1));
    let rep = s.finish(2, vec![], vec![]);
    assert_eq!(rep.hits.len(), 1);
    assert_eq!(rep.hits[0].file, "small.jsonl");
    assert!(rep.truncated);
}

#[test]
fn search_complete_and_timeout() {
    let req = request(vec![("query", st("k"))]);
    let mut s = JsonSearch::new(req, large_field_matcher().unwrap(), false);
    assert!(!s.skips_file(Some(10)));
    assert!(s.skips_file(Some(64_000_001)));
    assert!(!s.skips_file(None));
    s.on_file("a.jsonl", &records(2));
    assert!(!s.ended());
    let rep = s.finish(1, vec![], vec![]);
    assert_eq!(rep.status, Status::Complete);
    assert_eq!(rep.hits.len(), 2);

    let mut t = JsonSearch::new(request(vec![]), large_field_matcher().unwrap(), false);
    t.on_timeout();
    assert!(t.ended());
    assert_eq!(t.finish(0, vec![], vec![]).status, Status::Truncated);
}
