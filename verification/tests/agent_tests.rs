use mcagent::agent_tools::{plan_commit, CommitPlan};
use mcagent::cowfs::{copy_includes, is_hidden, AgentFile, BaseFile, CowLayer};
use mcagent::types::FileDiff;
use mcagent::gitbutler::{command_output, json_output, parse_branch_list, GitButlerCli};
use mcagent::server::ServerState;
use mcagent::types::{AgentConfig, AgentId, DiffKind, McAgentError};

fn config(name: &str, branch: Option<&str>) -> AgentConfig {
    AgentConfig {
        name: name.to_string(),
        task_description: "task".to_string(),
        branch_name: branch.map(|b| b.to_string()),
        stacked_on: None,
    }
}

#[test]
fn test_cow_layer_create_and_diff() {
    let agent_id = AgentId::from_text("a1");
    let layer = CowLayer::create("/tmp/project", "/tmp/agents", &agent_id, false).unwrap();
    assert_eq!(layer.working_dir(), "/tmp/agents/a1");
    assert_eq!(layer.base_path(), "/tmp/project");

    let main_rs = b"fn main() {}".to_vec();
    let cargo = b"[package]\nname = \"test\"".to_vec();
    // Initially no diff
    let agent = vec![
        AgentFile { path: "Cargo.toml".into(), content: cargo.clone(), base_content: Some(cargo.clone()) },
        AgentFile { path: "src/main.rs".into(), content: main_rs.clone(), base_content: Some(main_rs.clone()) },
    ];
    let base = vec![
        BaseFile { path: "Cargo.toml".into(), in_agent: true },
        BaseFile { path: "src/main.rs".into(), in_agent: true },
    ];
    assert!(layer.diff(&agent, &base).is_empty());

    // Modify a file in the agent's copy
    let agent = vec![
        AgentFile { path: "Cargo.toml".into(), content: cargo.clone(), base_content: Some(cargo.clone()) },
        AgentFile { path: "src/main.rs".into(), content: b"fn main() { println!(\"hello\"); }".to_vec(), base_content: Some(main_rs.clone()) },
    ];
    let diffs = layer.diff(&agent, &base);
    assert_eq!(diffs.len(), 1);
    assert!(matches!(diffs[0].kind, DiffKind::Modified));

    // Add a new file
    let mut agent = agent;
    agent.push(AgentFile { path: "src/lib.rs".into(), content: b"pub fn foo() {}".to_vec(), base_content: None });
    let diffs = layer.diff(&agent, &base);
    assert_eq!(diffs.len(), 2);
    assert_eq!(diffs[1].path, "src/lib.rs");
    assert_eq!(diffs[1].kind, DiffKind::Added);
}

#[test]
fn diff_reports_deleted_base_files_last() {
    let layer = CowLayer::create("/b", "/a", &AgentId::from_text("x"), false).unwrap();
    let agent = vec![AgentFile { path: "new".into(), content: vec![1], base_content: None }];
    let base = vec![BaseFile { path: "gone".into(), in_agent: false }, BaseFile { path: "kept".into(), in_agent: true }];
    let d = layer.diff(&agent, &base);
    assert_eq!(d.len(), 2);
    assert_eq!((d[0].path.as_str(), d[0].kind), ("new", DiffKind::Added));
    assert_eq!((d[1].path.as_str(), d[1].kind), ("gone", DiffKind::Deleted));
}

#[test]
fn existing_agent_dir_is_refused() {
    match CowLayer::create("/b", "/a", &AgentId::from_text("x"), true) {
        Err(McAgentError::AgentAlreadyExists(id)) => assert_eq!(id.as_str(), "x"),
        other => panic!("unexpected {:?}", other),
    }
    assert!(is_hidden(".git"));
    assert!(!is_hidden("src"));
}

#[test]
fn agent_table_create_get_destroy() {
    let mut state = ServerState::new("/proj");
    assert_eq!(state.agents_dir(), "/proj/.mcagent/agents");
    assert_eq!(state.wasi_runner().tools_dir(), "/proj/.mcagent/tools");

    let id = AgentId::from_text("id-1");
    assert_eq!(state.agent_path_for(&id), "/proj/.mcagent/agents/id-1");
    let a = state.create_agent(config("first", None), id, false).unwrap();
    assert_eq!(a.branch_name, "agent/id-1");
    assert_eq!(a.working_dir, "/proj/.mcagent/agents/id-1");

    let b = state.create_agent(config("second", Some("feature/x")), AgentId::from_text("id-2"), false).unwrap();
    assert_eq!(b.branch_name, "feature/x");

    // A created agent is found as it was created.
    let got = state.get_agent("id-1").unwrap();
    assert_eq!(got.config.name, "first");
    assert_eq!(state.agents().len(), 2);
    assert_eq!(state.cow_layer("id-2").unwrap().working_dir(), "/proj/.mcagent/agents/id-2");

    // A refused creation changes nothing.
    assert!(matches!(
        state.create_agent(config("dup", None), AgentId::from_text("id-3"), true),
        Err(McAgentError::AgentAlreadyExists(_))
    ));
    assert_eq!(state.agents().len(), 2);

    // A destroyed agent is gone; destroying it again is an error.
    let layer = state.destroy_agent("id-1").unwrap();
    assert_eq!(layer.working_dir(), "/proj/.mcagent/agents/id-1");
    assert!(matches!(state.get_agent("id-1"), Err(McAgentError::AgentNotFound(_))));
    assert!(matches!(state.destroy_agent("id-1"), Err(McAgentError::AgentNotFound(_))));
    assert_eq!(state.get_agent("id-2").unwrap().config.name, "second");
}

#[test]
fn gitbutler_commands_and_outputs() {
    assert_eq!(GitButlerCli::create_branch_args("b"), vec!["branch", "create", "b"]);
    assert_eq!(
        GitButlerCli::create_stacked_branch_args("b", "p"),
        vec!["branch", "create", "--set-stack", "p", "b"]
    );
    assert_eq!(
        GitButlerCli::commit_args("msg", "agent/x", &vec!["a".to_string(), "b".to_string()]),
        vec!["commit", "-m", "msg", "--branch", "agent/x", "a", "b"]
    );
    assert_eq!(GitButlerCli::push_args("b"), vec!["branch", "push", "b"]);
    let c = GitButlerCli::commit_info("m", "  abc123\n");
    assert_eq!(c.id, "abc123");

    let branches = parse_branch_list("  main \n\n feature/x\r\n   \n");
    let names: Vec<_> = branches.iter().map(|b| b.name.as_str()).collect();
    assert_eq!(names, vec!["main", "feature/x"]);
    assert!(branches.iter().all(|b| b.stacked_on.is_none() && b.id.is_none()));

    let args = vec!["branch".to_string(), "list".to_string()];
    match command_output(&args, false, String::new(), "boom") {
        Err(McAgentError::GitButler(m)) => assert_eq!(m, "`but branch list` failed: boom"),
        other => panic!("unexpected {:?}", other),
    }
    assert_eq!(command_output(&args, true, "out".into(), "").unwrap(), "out");
    assert!(json_output(&args, true, " \n".into(), "").unwrap().is_none());
    assert_eq!(json_output(&args, true, "{}".into(), "").unwrap().as_deref(), Some("{}"));
}

#[test]
fn commit_plan_targets_the_agents_branch() {
    let mut state = ServerState::new("/proj");
    let agent = state.create_agent(config("w", Some("agent/w")), AgentId::from_text("w1"), false).unwrap();
    let layer = state.cow_layer("w1").unwrap();
    assert!(matches!(plan_commit(&agent, layer, "m", &Vec::new()), CommitPlan::NothingToCommit));
    let diffs = vec![
        FileDiff { path: "src/a.rs".into(), kind: DiffKind::Modified },
        FileDiff { path: "old.txt".into(), kind: DiffKind::Deleted },
    ];
    match plan_commit(&agent, layer, "save", &diffs) {
        CommitPlan::Commit { sync, args } => {
            assert_eq!(args, vec!["commit", "-m", "save", "--branch", "agent/w", "src/a.rs", "old.txt"]);
            assert_eq!(sync.len(), 2);
            assert_eq!(sync[0].from, format!("{}/src/a.rs", agent.working_dir));
            assert_eq!(sync[0].to, "/proj/src/a.rs");
            assert!(!sync[0].remove);
            assert_eq!(sync[1].to, "/proj/old.txt");
            assert!(sync[1].remove);
        }
        CommitPlan::NothingToCommit => panic!("changes were planned as nothing"),
    }
}

#[test]
fn the_copy_takes_all_but_the_agents_dir() {
    assert!(copy_includes("/proj/src/main.rs", "/proj/.mcagent/agents"));
    assert!(copy_includes("/proj/.gitignore", "/proj/.mcagent/agents"));
    assert!(copy_includes("/proj/.cargo/config.toml", "/proj/.mcagent/agents"));
    assert!(copy_includes("/proj/.mcagent/cache", "/proj/.mcagent/agents"));
    assert!(copy_includes("/proj", "/proj/.mcagent/agents"));
    assert!(!copy_includes("/proj/.mcagent/agents", "/proj/.mcagent/agents"));
    assert!(!copy_includes("/proj/.mcagent/agents/a1/x.rs", "/proj/.mcagent/agents"));
    assert!(!copy_includes("./.mcagent/agents/a1", "./.mcagent/agents"));
}
