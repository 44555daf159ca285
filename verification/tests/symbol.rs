use cxs::json::{Args, JsonValue};
use cxs::symbol::{symbol_find_args, symbol_pattern, SymbolError};

fn s(x: &str) -> JsonValue {
    JsonValue::Str(x.to_string())
}

#[test]
fn symbol_pattern_escapes_and_matches_definitions() {
    let p = symbol_pattern("a.b");
    assert!(p.contains("a\\.b"));
    let re = regex::Regex::new(&symbol_pattern("train_loop")).unwrap();
    assert!(re.is_match("def train_loop(x):"));
    assert!(re.is_match("pub fn train_loop() {"));
    assert!(re.is_match("const train_loop = 1"));
    assert!(re.is_match("func (s *S) train_loop() {"));
    assert!(!re.is_match("train_loop(3)"));
    assert!(p.starts_with("^\\s*(?:async\\s+def|def|class)\\s+a\\.b\\b|"));
}

#[test]
fn symbol_request_becomes_regex_find() {
    let args = Args {
        entries: vec![
            ("max_total_hits".to_string(), JsonValue::Number(Some(5), "5".to_string())),
            ("mode".to_string(), s("literal")),
            ("name".to_string(), s("Trainer")),
        ],
    };
    let out = symbol_find_args(args).ok().unwrap();
    assert!(matches!(out.get("query"), Some(JsonValue::Str(q)) if *q == symbol_pattern("Trainer")));
    assert!(matches!(out.get("match"), Some(JsonValue::Str(q)) if q == "any"));
    assert!(matches!(out.get("mode"), Some(JsonValue::Str(q)) if q == "regex"));
    assert!(out.get("name").is_none());
    assert!(matches!(out.get("max_total_hits"), Some(JsonValue::Number(Some(5), _))));
    match out.get("scopes") {
        Some(JsonValue::Array(xs, t)) => {
            assert_eq!(xs.len(), 2);
            assert_eq!(t, "[\"src\",\"tests\"]");
        }
        _ => panic!("default scopes missing"),
    }
}

#[test]
fn symbol_request_keeps_scopes() {
    let args = Args {
        entries: vec![
            ("name".to_string(), s("x")),
            ("scopes".to_string(), JsonValue::Array(vec![s("docs")], "[\"docs\"]".to_string())),
        ],
    };
    let out = symbol_find_args(args).ok().unwrap();
    assert!(matches!(out.get("scopes"), Some(JsonValue::Array(xs, _)) if xs.len() == 1));
}

#[test]
fn bad_symbol_names_are_refused() {
    for bad in ["", "two words", "semi;colon"] {
        let args = Args { entries: vec![("name".to_string(), s(bad))] };
        assert!(matches!(symbol_find_args(args), Err(SymbolError::BadSymbolName)));
    }
    let none = Args { entries: vec![] };
    assert!(matches!(symbol_find_args(none), Err(SymbolError::BadSymbolName)));
    let ok = Args { entries: vec![("name".to_string(), s("Mod::fn-x.$y"))] };
    assert!(symbol_find_args(ok).is_ok());
    assert_eq!(SymbolError::BadSymbolName.name(), "bad_symbol_name");
}
