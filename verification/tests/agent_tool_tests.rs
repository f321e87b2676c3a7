use mcagent::agent_tools::{
    branch_line, changed_paths, resolve_dir_in_working_dir, resolve_in_working_dir, search_lines,
    tool_summary,
};
use mcagent::executor::ExecutionResult;
use mcagent::metadata::{check_describe, describe_args, describe_permissions};
use mcagent::types::{
    BranchInfo, DiffKind, FileDiff, McAgentError, ToolCapabilities, ToolMetadata, WasiTarget,
};

#[test]
fn paths_stay_in_the_working_dir() {
    assert_eq!(resolve_in_working_dir("/w/a1", "src/main.rs").as_deref(), Some("/w/a1/src/main.rs"));
    assert!(resolve_in_working_dir("/w/a1", "/etc/passwd").is_none());
    assert_eq!(resolve_in_working_dir("/w/a1", "/w/a1/x").as_deref(), Some("/w/a1/x"));
    assert!(resolve_in_working_dir("/w/a1", "/w/a10/x").is_none());
    assert_eq!(resolve_dir_in_working_dir("/w/a1", None).as_deref(), Some("/w/a1"));
    assert!(resolve_in_working_dir("/w", "/w/../etc").is_none());
    assert!(resolve_in_working_dir("/w", "../etc").is_none());
    assert!(resolve_in_working_dir("/w/a1", "../../etc/passwd").is_none());
    assert!(resolve_in_working_dir("/w/a1", "../../x").is_none());
    assert!(resolve_in_working_dir("/w/a1", "src/../../a2/x").is_none());
    assert!(resolve_dir_in_working_dir("/w/a1", Some("..")).is_none());
    assert_eq!(resolve_in_working_dir("/w/a1", "src/../x").as_deref(), Some("/w/a1/src/../x"));
    assert_eq!(resolve_in_working_dir("/w/a1", "./x/./y").as_deref(), Some("/w/a1/./x/./y"));
    assert_eq!(resolve_in_working_dir("/w/a1", "src/..").as_deref(), Some("/w/a1/src/.."));
    assert_eq!(resolve_in_working_dir("w/a1", "b").as_deref(), Some("w/a1/b"));
    assert!(resolve_in_working_dir("w/a1", "../../../b").is_none());
    assert!(resolve_in_working_dir("..", "../x").is_none());
    assert_eq!(resolve_in_working_dir("..", "x/..").as_deref(), Some("../x/.."));
}

#[test]
fn search_reports_numbered_hits() {
    let hits = search_lines("src/lib.rs", "fn a() {}\nlet x = 1;\r\nfn b() {}\n", "fn ");
    assert_eq!(hits, vec!["src/lib.rs:1: fn a() {}", "src/lib.rs:3: fn b() {}"]);
    assert!(search_lines("f", "abc", "abcd").is_empty());
    assert_eq!(search_lines("f", "abc", ""), vec!["f:1: abc"]);
}

#[test]
fn report_lines() {
    let b = BranchInfo { name: "feat".into(), id: None, upstream: None, stacked_on: Some("main".into()) };
    assert_eq!(branch_line(&b), "  feat (stacked on main)");
    let b = BranchInfo { name: "main".into(), id: None, upstream: None, stacked_on: None };
    assert_eq!(branch_line(&b), "  main");
    let meta = ToolMetadata {
        name: "grep".into(),
        version: "1.0.0".into(),
        description: "search".into(),
        args: Vec::new(),
        errors: Vec::new(),
        capabilities: ToolCapabilities { read: true, write: false, net: false },
        wasi_target: WasiTarget::Preview2,
    };
    assert_eq!(tool_summary(&meta), "grep v1.0.0 - search [preview2]");
    let diffs = vec![
        FileDiff { path: "a".into(), kind: DiffKind::Added },
        FileDiff { path: "b/c".into(), kind: DiffKind::Deleted },
    ];
    assert_eq!(changed_paths(&diffs), vec!["a", "b/c"]);
}

#[test]
fn describe_runs_are_checked() {
    assert_eq!(describe_args(), vec!["--describe"]);
    let p = describe_permissions();
    assert!(p.read_dirs.is_empty() && p.write_dirs.is_empty() && !p.allow_net);
    let ok = ExecutionResult { exit_code: 0, stdout: "{}".into(), stderr: String::new() };
    assert!(check_describe(&ok).is_ok());
    let bad = ExecutionResult { exit_code: -3, stdout: String::new(), stderr: "oops".into() };
    match check_describe(&bad) {
        Err(McAgentError::WasiRuntime(m)) => {
            assert_eq!(m, "Tool --describe failed with code -3: oops")
        }
        other => panic!("unexpected {:?}", other.is_ok()),
    }
}
