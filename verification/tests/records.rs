use cxs::json::JsonValue;
use cxs::process::ProcResult;
use cxs::records::{
    data_format, delimited_records, json_document_records, json_lines_records, map_put,
    select_data_files, DataFormat,
};

fn listing(lines: &[&str]) -> ProcResult {
    ProcResult {
        lines: lines.iter().map(|l| l.as_bytes().to_vec()).collect(),
        returncode: 0,
        stderr: String::new(),
        timed_out: false,
        byte_limit_hit: false,
        line_limit_hit: false,
        bytes_read: 0,
    }
}

fn obj(pairs: &[(&str, JsonValue)]) -> JsonValue {
    let mut es = Vec::new();
    for (k, v) in pairs {
        let v2 = match v {
            JsonValue::Str(s) => JsonValue::Str(s.clone()),
            JsonValue::Number(n, t) => JsonValue::Number(*n, t.clone()),
            JsonValue::Bool(b) => JsonValue::Bool(*b),
            _ => JsonValue::Null,
        };
        es.push((k.to_string(), v2));
    }
    JsonValue::Object(es, String::new())
}

#[test]
fn data_formats_by_extension() {
    assert_eq!(data_format("data/a.JSONL"), Some(DataFormat::JsonLines));
    assert_eq!(data_format("x.ndjson"), Some(DataFormat::JsonLines));
    assert_eq!(data_format("x.json"), Some(DataFormat::Json));
    assert_eq!(data_format("x.Csv"), Some(DataFormat::Csv));
    assert_eq!(data_format("x.TSV"), Some(DataFormat::Tsv));
    assert_eq!(data_format("notes.txt"), None);
    assert_eq!(data_format(".json"), None);
    assert_eq!(data_format("archive.json.gz"), None);
}

#[test]
fn data_files_from_listing() {
    let p = listing(&["./data/a.json", "", "src/x.py", "b.csv", " c.tsv "]);
    let all = select_data_files(&p, 5);
    assert_eq!(all.files, vec!["data/a.json".to_string(), "b.csv".to_string(), "c.tsv".to_string()]);
    assert!(!all.truncated);
    let one = select_data_files(&p, 1);
    assert_eq!(one.files, vec!["data/a.json".to_string()]);
    assert!(one.truncated);
}

#[test]
fn data_files_invalid_utf8_is_decoded_lossily() {
    let mut p = listing(&[]);
    p.lines.push(vec![b'a', 0xff, b'.', b'j', b's', b'o', b'n']);
    let r = select_data_files(&p, 5);
    assert_eq!(r.files, vec!["a\u{fffd}.json".to_string()]);
}

#[test]
fn csv_rows_become_sorted_records() {
    let recs = delimited_records(b"b,a,b\n1,2,3\n4,5\n6,7,8\n", b',');
    assert_eq!(recs.len(), 2);
    assert_eq!(recs[0].line, 2);
    assert_eq!(recs[1].line, 4);
    let keys: Vec<&str> = recs[0].fields.iter().map(|(k, _)| k.as_str()).collect();
    assert_eq!(keys, vec!["a", "b"]);
    assert!(matches!(&recs[0].fields[1].1, JsonValue::Str(s) if s == "3"));
    assert!(matches!(&recs[1].fields[0].1, JsonValue::Str(s) if s == "7"));
}

#[test]
fn tsv_uses_tabs() {
    let recs = delimited_records(b"k\tv\nx\ty\n", b'\t');
    assert_eq!(recs.len(), 1);
    assert!(matches!(&recs[0].fields[1].1, JsonValue::Str(s) if s == "y"));
}

#[test]
fn unreadable_tables_give_no_records() {
    assert_eq!(delimited_records(b"", b',').len(), 0);
    assert_eq!(delimited_records(b"a,\xff\n1,2\n", b',').len(), 0);
    assert_eq!(delimited_records(b"a\n\xff\n3\n", b',').iter().map(|r| r.line).collect::<Vec<_>>(), vec![3]);
}

#[test]
fn json_lines_keep_objects_by_line() {
    let recs = json_lines_records(vec![
        JsonValue::Null,
        obj(&[("a", JsonValue::Bool(true))]),
        JsonValue::Str("x".to_string()),
        obj(&[]),
    ]);
    assert_eq!(recs.len(), 2);
    assert_eq!(recs[0].line, 2);
    assert_eq!(recs[1].line, 4);
}

#[test]
fn json_documents_give_records() {
    let one = json_document_records(Some(obj(&[("a", JsonValue::Null)])));
    assert_eq!(one.len(), 1);
    assert_eq!(one[0].line, 1);
    let arr = json_document_records(Some(JsonValue::Array(
        vec![obj(&[]), JsonValue::Null, obj(&[])],
        String::new(),
    )));
    assert_eq!(arr.iter().map(|r| r.line).collect::<Vec<_>>(), vec![1, 3]);
    assert_eq!(json_document_records(None).len(), 0);
    assert_eq!(json_document_records(Some(JsonValue::Bool(true))).len(), 0);
}

#[test]
fn map_put_keeps_keys_sorted_and_unique() {
    let mut es = Vec::new();
    map_put(&mut es, "b".to_string(), JsonValue::Null);
    map_put(&mut es, "a".to_string(), JsonValue::Null);
    map_put(&mut es, "c".to_string(), JsonValue::Null);
    map_put(&mut es, "a".to_string(), JsonValue::Bool(true));
    let keys: Vec<&str> = es.iter().map(|(k, _)| k.as_str()).collect();
    assert_eq!(keys, vec!["a", "b", "c"]);
    assert!(matches!(es[0].1, JsonValue::Bool(true)));
}
