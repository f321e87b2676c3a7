use mcagent::executor::{
    component_exit_code, exit_code_of, run_wasm, ComponentOutcome, ExecutionResult, RunOutcome,
    SandboxPermissions,
};
use mcagent::order::sort_strings;
use mcagent::runtime::{
    build_permissions, is_valid_tool_name, tool_output, CreateAction, RunAction, RunEvent, ToolCreation,
    ToolRun, WasiToolRunner,
};
use mcagent::types::McAgentError;
use mcagent::types::{ToolCapabilities, WasiTarget};

fn strings(v: &[&str]) -> Vec<String> {
    v.iter().map(|s| s.to_string()).collect()
}

#[test]
fn source_tools_are_sorted_rs_files() {
    let runner = WasiToolRunner::new("/p", "/p/.mcagent/tools");
    let names = strings(&["zeta.rs", "notes.txt", ".rs", "alpha.rs", "Beta.rs", "x.rs.bak", "..rs"]);
    assert_eq!(
        runner.list_source_tools(&names),
        strings(&["/p/.mcagent/tools/..rs", "/p/.mcagent/tools/Beta.rs", "/p/.mcagent/tools/alpha.rs", "/p/.mcagent/tools/zeta.rs"])
    );
}

#[test]
fn compiled_tools_are_wasm_files_by_stem() {
    let runner = WasiToolRunner::new("/p", "/p/t");
    let tools = runner.list_tools(&strings(&["b.wasm", "a.txt", "c.d.wasm"]));
    assert_eq!(tools.len(), 2);
    assert_eq!(tools[0].name, "b");
    assert_eq!(tools[0].path, "/p/.mcagent/cache/wasi/b.wasm");
    assert_eq!(tools[1].name, "c.d");
}

#[test]
fn tool_names_are_checked() {
    assert!(is_valid_tool_name("my-tool_2"));
    assert!(!is_valid_tool_name(""));
    assert!(!is_valid_tool_name("../etc"));
    assert!(!is_valid_tool_name("caf\u{e9}"));
    assert!(is_valid_tool_name(&"a".repeat(64)));
    assert!(!is_valid_tool_name(&"a".repeat(65)));
    let runner = WasiToolRunner::new("/p", "/p/tools");
    assert_eq!(runner.tool_source_path("grep").unwrap(), "/p/tools/grep.rs");
    assert!(runner.tool_source_path("a/b").is_err());
}

#[test]
fn permissions_follow_capabilities() {
    let p = build_permissions(&ToolCapabilities { read: true, write: false, net: true }, "/w");
    assert_eq!(p.read_dirs, strings(&["/w"]));
    assert!(p.write_dirs.is_empty());
    assert!(p.allow_net);
}

#[test]
fn launch_plan_for_each_target() {
    let perms = SandboxPermissions { read_dirs: strings(&["/r"]), write_dirs: strings(&["/w"]), allow_net: true };
    let l1 = run_wasm("/m.wasm", &strings(&["--x"]), &perms, WasiTarget::Preview1);
    assert_eq!(l1.argv, strings(&["/m.wasm", "--x"]));
    assert_eq!(l1.preopens.len(), 2);
    assert!(!l1.preopens[0].writable && l1.preopens[1].writable);
    assert!(!l1.inherit_network);
    assert!(!l1.link_http);
    let l2 = run_wasm("/m.wasm", &Vec::new(), &perms, WasiTarget::Preview2);
    assert!(l2.inherit_network);
    assert!(l2.link_http);
    let closed = SandboxPermissions { read_dirs: Vec::new(), write_dirs: Vec::new(), allow_net: false };
    let l3 = run_wasm("/m.wasm", &Vec::new(), &closed, WasiTarget::Preview2);
    assert!(!l3.inherit_network);
    assert!(!l3.link_http);
    assert_eq!(l2.target, WasiTarget::Preview2);
}

#[test]
fn exit_codes_of_outcomes() {
    assert_eq!(exit_code_of(RunOutcome::Finished), 0);
    assert_eq!(exit_code_of(RunOutcome::Exited(42)), 42);
    assert_eq!(exit_code_of(RunOutcome::Failed), 1);
    assert_eq!(exit_code_of(RunOutcome::Trapped), 1);
    let out = tool_output(ExecutionResult { exit_code: 3, stdout: "o".into(), stderr: "e".into() });
    assert_eq!((out.exit_code, out.stdout.as_str(), out.stderr.as_str()), (3, "o", "e"));
}

#[test]
fn sorting_by_code_point() {
    let v = strings(&["b", "a", "ab", "", "B", "\u{e9}"]);
    assert_eq!(sort_strings(&v), strings(&["", "B", "a", "ab", "b", "\u{e9}"]));
}

const TOOL_SOURCE: &str = "---cargo\n[package]\nname = \"echo\"\n\n[package.metadata.wasi-tool]\nname = \"echo\"\nwasi_target = \"preview2\"\n\n[package.metadata.wasi-tool.capabilities]\nread = true\nnet = true\n---\nfn main() {}\n";

#[test]
fn a_tool_run_goes_read_compile_execute() {
    let runner = WasiToolRunner::new("/p", "/p/tools");
    let args = strings(&["-v"]);
    let (run, action) = runner.start_run("echo");
    assert!(matches!(&action, RunAction::ReadSource(p) if p == "/p/tools/echo.rs"));
    let (run, action) = runner.step(run, RunEvent::SourceRead(Some(Ok(TOOL_SOURCE.to_string()))), "/w", &args);
    assert!(matches!(&action, RunAction::Compile(p) if p == "/p/tools/echo.rs"));
    assert!(matches!(&run, ToolRun::Compiling { meta } if meta.name == "echo"));
    let (run, action) = runner.step(run, RunEvent::Compiled(Ok("/c/echo.wasm".to_string())), "/w", &args);
    let launch = match action {
        RunAction::Execute(l) => l,
        other => panic!("expected a launch, got {:?}", other),
    };
    assert_eq!(launch.argv, strings(&["/c/echo.wasm", "-v"]));
    assert_eq!(launch.preopens.len(), 1);
    assert_eq!(launch.preopens[0].dir, "/w");
    assert!(!launch.preopens[0].writable);
    assert!(launch.inherit_network && launch.link_http);
    let out = ExecutionResult { exit_code: 7, stdout: "hi".into(), stderr: "".into() };
    let (run, action) = runner.step(run, RunEvent::Ran(Ok(out)), "/w", &args);
    assert!(matches!(run, ToolRun::Done));
    match action {
        RunAction::Finish(Ok(o)) => assert_eq!((o.stdout.as_str(), o.exit_code), ("hi", 7)),
        other => panic!("expected output, got {:?}", other),
    }
}

#[test]
fn a_tool_run_ends_at_the_first_error() {
    let runner = WasiToolRunner::new("/p", "/p/tools");
    let args = Vec::new();
    let (_, action) = runner.start_run("../x");
    assert!(matches!(action, RunAction::Finish(Err(McAgentError::ToolNotFound(n))) if n == "../x"));

    let (run, _) = runner.start_run("missing");
    let (run, action) = runner.step(run, RunEvent::SourceRead(None), "/w", &args);
    assert!(matches!(run, ToolRun::Done));
    assert!(matches!(action, RunAction::Finish(Err(McAgentError::ToolNotFound(n))) if n == "missing"));

    let (run, _) = runner.start_run("bad");
    let (_, action) = runner.step(run, RunEvent::SourceRead(Some(Ok("no frontmatter".into()))), "/w", &args);
    assert!(matches!(action, RunAction::Finish(Err(McAgentError::InvalidConfig(_)))));

    let (run, _) = runner.start_run("echo");
    let (run, _) = runner.step(run, RunEvent::SourceRead(Some(Ok(TOOL_SOURCE.to_string()))), "/w", &args);
    let failed = McAgentError::CompilationFailed("Compilation failed:\nboom".into());
    let (run, action) = runner.step(run, RunEvent::Compiled(Err(failed)), "/w", &args);
    assert!(matches!(run, ToolRun::Done));
    assert!(matches!(action, RunAction::Finish(Err(McAgentError::CompilationFailed(m))) if m == "Compilation failed:\nboom"));

    let (run, _) = runner.start_run("echo");
    let (run, _) = runner.step(run, RunEvent::SourceRead(Some(Ok(TOOL_SOURCE.to_string()))), "/w", &args);
    let (run, _) = runner.step(run, RunEvent::Compiled(Ok("/c/e.wasm".into())), "/w", &args);
    let (_, action) = runner.step(run, RunEvent::Ran(Err(McAgentError::WasiRuntime("trap".into()))), "/w", &args);
    assert!(matches!(action, RunAction::Finish(Err(McAgentError::WasiRuntime(m))) if m == "trap"));
}

#[test]
fn new_tools_are_saved_in_the_tools_dir() {
    let runner = WasiToolRunner::new("/p", "/p/tools");
    assert_eq!(runner.new_tool_path("grep"), "/p/tools/grep.rs");
}

#[test]
fn creating_a_tool_writes_then_compiles() {
    let runner = WasiToolRunner::new("/p", "/p/tools");
    let (c, action) = runner.start_create("grep", "src");
    match &action {
        CreateAction::WriteSource { dir, path, text } => {
            assert_eq!((dir.as_str(), path.as_str(), text.as_str()), ("/p/tools", "/p/tools/grep.rs", "src"));
        }
        other => panic!("expected a write, got {:?}", other),
    }
    let (c, action) = runner.create_step(c, Ok(()));
    assert!(matches!(&action, CreateAction::Compile(p) if p == "/p/tools/grep.rs"));
    let (c2, _) = runner.start_create("grep", "src");
    let (c2, _) = runner.create_step(c2, Ok(()));
    let (c, action) = runner.create_step(c, Ok(()));
    assert!(matches!(c, ToolCreation::Done));
    assert!(matches!(action, CreateAction::Finish(Ok(p)) if p == "/p/tools/grep.rs"));
    let (_, action) = runner.create_step(c2, Err(McAgentError::CompilationFailed("x".into())));
    assert!(matches!(action, CreateAction::Finish(Err(McAgentError::CompilationFailed(m))) if m == "x"));
    let (c3, _) = runner.start_create("t", "s");
    let fs = McAgentError::Filesystem { path: "/p/tools".into(), message: "denied".into() };
    let (c3, action) = runner.create_step(c3, Err(fs));
    assert!(matches!(c3, ToolCreation::Done));
    assert!(matches!(action, CreateAction::Finish(Err(McAgentError::Filesystem { .. }))));
}

#[test]
fn component_runs_exit_with_zero_or_one() {
    assert_eq!(component_exit_code(ComponentOutcome::Succeeded), 0);
    assert_eq!(component_exit_code(ComponentOutcome::Failed), 1);
    assert_eq!(component_exit_code(ComponentOutcome::Trapped), 1);
}
