use cxs::ops::{negotiate_protocol, op_from_name, rg_version, route_tool, shim_plan, valid_ops, Op, ShimPlan, ToolRoute};
use cxs::process::ProcResult;

fn strings(xs: &[&str]) -> Vec<String> {
    xs.iter().map(|s| s.to_string()).collect()
}

#[test]
fn operation_names() {
    assert_eq!(op_from_name("find"), Some(Op::Find));
    assert_eq!(op_from_name("cxs_find"), Some(Op::Find));
    assert_eq!(op_from_name("files"), Some(Op::Files));
    assert_eq!(op_from_name("cxs_symbol"), Some(Op::Symbol));
    assert_eq!(op_from_name("json"), Some(Op::Json));
    assert_eq!(op_from_name("self_check"), Some(Op::SelfCheck));
    assert_eq!(op_from_name("read"), None);
    assert_eq!(valid_ops(), strings(&["find", "files", "symbol", "json", "self_check"]));
    for name in valid_ops() {
        assert!(op_from_name(&name).is_some());
    }
}

#[test]
fn protocol_negotiation() {
    assert_eq!(negotiate_protocol(Some("2024-11-05")), "2024-11-05");
    assert_eq!(negotiate_protocol(Some("2025-03-26")), "2025-03-26");
    assert_eq!(negotiate_protocol(Some("1999-01-01")), "2025-06-18");
    assert_eq!(negotiate_protocol(None), "2025-06-18");
}

#[test]
fn tool_routes() {
    assert!(matches!(route_tool("cxs"), ToolRoute::ByOp));
    assert!(matches!(route_tool("cxs_json"), ToolRoute::Run(Op::Json)));
    assert!(matches!(route_tool("read"), ToolRoute::Unknown));
}

#[test]
fn shim_raw_and_listing() {
    assert!(matches!(shim_plan(&strings(&["-n", "x"]), true), ShimPlan::Raw));
    assert!(matches!(shim_plan(&strings(&["-l", "x"]), false), ShimPlan::Listing));
    assert!(matches!(shim_plan(&strings(&["--files"]), false), ShimPlan::Listing));
}

#[test]
fn shim_numbered_search() {
    match shim_plan(&strings(&["-n", "--no-heading", "needle", "src", "docs"]), false) {
        ShimPlan::Search { terms, literal, paths } => {
            assert_eq!(terms, strings(&["needle"]));
            assert_eq!(paths, strings(&["src", "docs"]));
            assert!(!literal);
        }
        _ => panic!("expected a search"),
    }
    match shim_plan(&strings(&["--line-number", "-F", "-e", "a", "-e", "b", "src"]), false) {
        ShimPlan::Search { terms, literal, paths } => {
            assert_eq!(terms, strings(&["a", "b"]));
            assert_eq!(paths, strings(&["src"]));
            assert!(literal);
        }
        _ => panic!("expected a search"),
    }
}

#[test]
fn shim_guards_other_command_lines() {
    match shim_plan(&strings(&["needle", "src"]), false) {
        ShimPlan::Guarded(g) => assert_eq!(
            g,
            strings(&["--max-count", "999", "--max-columns", "240", "--max-columns-preview", "needle", "src"])
        ),
        _ => panic!("expected a guarded run"),
    }
    match shim_plan(&strings(&["-n", "-w", "needle"]), false) {
        ShimPlan::Guarded(g) => assert_eq!(g.len(), 8),
        _ => panic!("expected a guarded run"),
    }
}

#[test]
fn version_line() {
    let mut p = ProcResult::spawn_failed(String::new());
    assert_eq!(rg_version(&p), "unknown");
    p.lines.push(b"ripgrep 14.1.0".to_vec());
    assert_eq!(rg_version(&p), "ripgrep 14.1.0");
}
