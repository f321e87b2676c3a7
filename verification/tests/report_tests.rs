use mcagent::report::{
    agent_created_text, agent_creation_answer, agent_destroyed_text, agent_status_text, branch_created_text,
    branches_text, changes_text, committed_text, compile_failed_error, compiled_to_text,
    dir_entry_line, error_text, join_strings, metadata_unavailable_text, no_matches_text,
    nothing_to_commit_text, path_traversal_text, pushed_text, tool_created_text, tools_text,
    wasm_missing_error, workspace_initialized_text, workspace_status_text, written_text,
};
use mcagent::server::ServerState;
use mcagent::types::{AgentConfig, AgentId, BranchInfo, DiffKind, FileDiff, McAgentError};

fn state_with_agent() -> ServerState {
    let mut state = ServerState::new("/proj");
    let config = AgentConfig {
        name: "fixer".into(),
        task_description: "fix bug".into(),
        branch_name: None,
        stacked_on: None,
    };
    state.create_agent(config, AgentId::from_text("ab12"), false).unwrap();
    state
}

#[test]
fn workspace_status_lists_agents() {
    let empty = ServerState::new("/proj");
    assert_eq!(workspace_status_text(empty.project_root(), empty.agents()), "Workspace: /proj\nNo active agents.");
    let state = state_with_agent();
    assert_eq!(
        workspace_status_text(state.project_root(), state.agents()),
        "Workspace: /proj\nAgents:\n  ab12 (fixer): branch=agent/ab12, state=created"
    );
}

#[test]
fn agent_reports() {
    let state = state_with_agent();
    let agent = state.get_agent("ab12").unwrap();
    assert_eq!(
        agent_created_text(agent),
        "Agent created:\n  id: ab12\n  name: fixer\n  branch: agent/ab12\n  working_dir: /proj/.mcagent/agents/ab12"
    );
    assert_eq!(
        agent_status_text(agent, "  No changes"),
        "Agent ab12:\n  name: fixer\n  state: created\n  branch: agent/ab12\n  task: fix bug\nChanges:\n  No changes"
    );
    assert_eq!(changes_text(&Vec::new()), "  No changes");
    let diffs = vec![
        FileDiff { path: "src/main.rs".into(), kind: DiffKind::Modified },
        FileDiff { path: "src/lib.rs".into(), kind: DiffKind::Added },
    ];
    assert_eq!(changes_text(&diffs), "  modified src/main.rs\n  added src/lib.rs");
}

#[test]
fn commit_branch_and_tool_reports() {
    let files = vec!["a.rs".to_string(), "b.rs".to_string()];
    assert_eq!(
        committed_text(2, "agent/x", "abc", &files),
        "Committed 2 files to branch 'agent/x':\n  commit: abc\n  files: a.rs, b.rs"
    );
    assert_eq!(branches_text(&Vec::new()), "No branches in workspace.");
    let b = vec![
        BranchInfo { name: "main".into(), id: None, upstream: None, stacked_on: None },
        BranchInfo { name: "f".into(), id: None, upstream: None, stacked_on: Some("main".into()) },
    ];
    assert_eq!(branches_text(&b), "Branches:\n  main\n  f (stacked on main)");
    assert_eq!(tools_text(&Vec::new()), "No tools available. Use create_tool to write a new tool.");
    assert_eq!(tools_text(&vec!["x v1 - d [preview1]".to_string()]), "Available tools:\n  x v1 - d [preview1]");
    assert_eq!(join_strings(&files, "|"), "a.rs|b.rs");
}

#[test]
fn error_texts() {
    assert_eq!(error_text(&McAgentError::ToolNotFound("t".into())), "tool not found: t");
    assert_eq!(
        error_text(&McAgentError::Filesystem { path: "/p".into(), message: "denied".into() }),
        "filesystem error at /p: denied"
    );
    assert_eq!(error_text(&McAgentError::AgentNotFound(AgentId::from_text("z"))), "agent not found: z");
}

#[test]
fn short_answers() {
    assert_eq!(nothing_to_commit_text(), "No changes to commit.");
    assert_eq!(metadata_unavailable_text("grep"), "grep (metadata unavailable)");
    assert_eq!(branch_created_text("feat", None), "Branch 'feat' created");
    assert_eq!(branch_created_text("feat", Some("main")), "Branch 'feat' created, stacked on 'main'");
    assert!(matches!(compile_failed_error("boom"), McAgentError::CompilationFailed(m) if m == "Compilation failed:\nboom"));
    assert!(matches!(wasm_missing_error("/t/x.wasm"), McAgentError::CompilationFailed(m) if m == "Compiled WASM not found at /t/x.wasm"));
}

#[test]
fn tool_answers() {
    assert_eq!(path_traversal_text(), "Path traversal not allowed");
    assert_eq!(no_matches_text(), "No matches found.");
    assert_eq!(agent_destroyed_text("a1"), "Agent a1 destroyed.");
    assert_eq!(workspace_initialized_text("/p"), "Workspace initialized at /p");
    assert_eq!(written_text(12, "src/a.rs"), "Written 12 bytes to src/a.rs");
    assert_eq!(written_text(0, "e"), "Written 0 bytes to e");
    assert_eq!(dir_entry_line(true, "src"), "  dir  src");
    assert_eq!(dir_entry_line(false, "a.rs"), "  file  a.rs");
    assert_eq!(compiled_to_text("/c/x.wasm"), "Compiled to /c/x.wasm");
    assert_eq!(tool_created_text("grep", "/t/grep.rs"), "Tool 'grep' created and compiled: /t/grep.rs");
    assert_eq!(pushed_text("agent/x", "T", "D"), "Branch 'agent/x' pushed.\nPR: title=T, description=D");
}

#[test]
fn creation_answer_reports_a_missing_branch() {
    let mut state = ServerState::new("/proj");
    let config = AgentConfig {
        name: "n".into(),
        task_description: "t".into(),
        branch_name: Some("agent/n".into()),
        stacked_on: None,
    };
    let agent = state.create_agent(config, AgentId::from_text("n1"), false).unwrap();
    assert_eq!(agent_creation_answer(&agent, None), agent_created_text(&agent));
    let e = McAgentError::GitButler("`but branch create agent/n` failed: no".into());
    assert_eq!(
        agent_creation_answer(&agent, Some(&e)),
        format!("{}\n  branch not created: GitButler error: `but branch create agent/n` failed: no", agent_created_text(&agent))
    );
}
