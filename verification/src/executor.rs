//! How a compiled tool is run: the command line, the directories the
//! sandbox opens, the network grant, and the exit code a run yields.

use vstd::prelude::*;
use crate::types::WasiTarget;

verus! {

/// Sandbox permissions granted to a running WASI tool.
#[derive(Debug)]
pub struct SandboxPermissions {
    pub read_dirs: Vec<String>,
    pub write_dirs: Vec<String>,
    pub allow_net: bool,
}

/// Result of executing a WASI tool.
#[derive(Debug)]
pub struct ExecutionResult {
    pub exit_code: i32,
    pub stdout: String,
    pub stderr: String,
}

/// A directory the sandbox opens: read-only, or with all permissions.
#[derive(Debug)]
pub struct Preopen {
    pub dir: String,
    pub writable: bool,
}

/// Everything the WASI runtime is given for one run.
#[derive(Debug)]
pub struct WasmLaunch {
    /// Which runtime runs the module: preview1 module or preview2 component.
    pub target: WasiTarget,
    /// The program arguments, the module's path first.
    pub argv: Vec<String>,
    /// Directories to open, each under its own path, read-only ones first.
    pub preopens: Vec<Preopen>,
    /// Whether the guest inherits the host network and may resolve names.
    pub inherit_network: bool,
    /// Whether outgoing `wasi:http` requests are wired into the component.
    pub link_http: bool,
}

/// The views of a list of strings.
pub open spec fn views(v: Seq<String>) -> Seq<Seq<char>> {
    v.map_values(|s: String| s@)
}

/// The preopens of a launch, as (directory, writable) pairs.
pub open spec fn preopen_views(v: Seq<Preopen>) -> Seq<(Seq<char>, bool)> {
    v.map_values(|p: Preopen| (p.dir@, p.writable))
}

/// The preopens that permissions ask for: read directories read-only, then
/// write directories with all permissions.
pub open spec fn preopens_for(read_dirs: Seq<Seq<char>>, write_dirs: Seq<Seq<char>>) -> Seq<
    (Seq<char>, bool),
> {
    read_dirs.map_values(|d: Seq<char>| (d, false)) + write_dirs.map_values(
        |d: Seq<char>| (d, true),
    )
}

/// How a run ended, as the runtime reports it.
#[derive(Debug, Clone, Copy, PartialEq, Eq, Structural)]
pub enum RunOutcome {
    /// The entry point returned normally.
    Finished,
    /// The guest called `exit` with this code (preview1).
    Exited(i32),
    /// The command's `run` returned an error (preview2).
    Failed,
    /// The guest trapped.
    Trapped,
}

/// The exit code a run yields.
pub open spec fn exit_code_spec(outcome: RunOutcome) -> i32 {
    match outcome {
        RunOutcome::Finished => 0,
        RunOutcome::Exited(code) => code,
        RunOutcome::Failed => 1,
        RunOutcome::Trapped => 1,
    }
}

/// The exit code a run yields: 0 on normal return, the code passed to
/// `exit`, and 1 for a failed command or a trap.
pub fn exit_code_of(outcome: RunOutcome) -> (code: i32)
    ensures
        code == exit_code_spec(outcome),
{
    match outcome {
        RunOutcome::Finished => 0,
        RunOutcome::Exited(code) => code,
        RunOutcome::Failed => 1,
        RunOutcome::Trapped => 1,
    }
}

/// How a preview2 component's `run` ended. A component reports success or
/// failure only, so it has no exit code of its own.
#[derive(Debug, Clone, Copy, PartialEq, Eq, Structural)]
pub enum ComponentOutcome {
    /// `run` returned success.
    Succeeded,
    /// `run` returned failure.
    Failed,
    /// The guest trapped (an `exit` included).
    Trapped,
}

/// The exit code of a preview2 run: 0 when `run` succeeded, else 1, so
/// preview2 exit codes are only ever 0 or 1.
pub fn component_exit_code(outcome: ComponentOutcome) -> (code: i32)
    ensures
        code == 0 || code == 1,
        code == 0 <==> outcome == ComponentOutcome::Succeeded,
        code == exit_code_spec(
            match outcome {
                ComponentOutcome::Succeeded => RunOutcome::Finished,
                ComponentOutcome::Failed => RunOutcome::Failed,
                ComponentOutcome::Trapped => RunOutcome::Trapped,
            },
        ),
{
    match outcome {
        ComponentOutcome::Succeeded => exit_code_of(RunOutcome::Finished),
        ComponentOutcome::Failed => exit_code_of(RunOutcome::Failed),
        ComponentOutcome::Trapped => exit_code_of(RunOutcome::Trapped),
    }
}

/// Run a compiled WASM module/component with the appropriate WASI runtime:
/// decides the runtime, command line, preopened directories and network grant.
/// Preview1 modules never get the network, and without the network grant a
/// component gets neither sockets, name lookup nor outgoing HTTP.
pub fn run_wasm(
    wasm_path: &str,
    args: &Vec<String>,
    permissions: &SandboxPermissions,
    target: WasiTarget,
) -> (r: WasmLaunch)
    ensures
        r.target == target,
        views(r.argv@) == seq![wasm_path@] + views(args@),
        preopen_views(r.preopens@) == preopens_for(
            views(permissions.read_dirs@),
            views(permissions.write_dirs@),
        ),
        r.inherit_network == (target == WasiTarget::Preview2 && permissions.allow_net),
        r.link_http == (target == WasiTarget::Preview2 && permissions.allow_net),
        !permissions.allow_net ==> !r.inherit_network && !r.link_http,
{
    let mut argv: Vec<String> = Vec::new();
    argv.push(wasm_path.to_string());
    let mut k: usize = 0;
    while k < args.len()
        invariant
            k <= args@.len(),
            views(argv@) == seq![wasm_path@] + views(args@.take(k as int)),
        decreases args@.len() - k,
    {
        let ghost before = argv@;
        argv.push(args[k].clone());
        assert(views(argv@) =~= views(before).push(args@[k as int]@));
        assert(views(args@.take(k + 1)) =~= views(args@.take(k as int)).push(args@[k as int]@));
        assert(views(argv@) =~= seq![wasm_path@] + views(args@.take(k + 1)));
        k = k + 1;
    }
    assert(args@.take(args@.len() as int) =~= args@);
    let ghost reads = views(permissions.read_dirs@);
    let ghost writes = views(permissions.write_dirs@);
    let mut preopens: Vec<Preopen> = Vec::new();
    let mut i: usize = 0;
    while i < permissions.read_dirs.len()
        invariant
            i <= reads.len(),
            reads == views(permissions.read_dirs@),
            preopen_views(preopens@) == reads.take(i as int).map_values(
                |d: Seq<char>| (d, false),
            ),
        decreases reads.len() - i,
    {
        let ghost before = preopens@;
        preopens.push(Preopen { dir: permissions.read_dirs[i].clone(), writable: false });
        assert(preopen_views(preopens@) =~= preopen_views(before).push((reads[i as int], false)));
        assert(reads.take(i + 1).map_values(|d: Seq<char>| (d, false)) =~= reads.take(
            i as int,
        ).map_values(|d: Seq<char>| (d, false)).push((reads[i as int], false)));
        i = i + 1;
    }
    assert(reads.take(reads.len() as int) =~= reads);
    let mut j: usize = 0;
    while j < permissions.write_dirs.len()
        invariant
            j <= writes.len(),
            writes == views(permissions.write_dirs@),
            preopen_views(preopens@) == reads.map_values(|d: Seq<char>| (d, false))
                + writes.take(j as int).map_values(|d: Seq<char>| (d, true)),
        decreases writes.len() - j,
    {
        let ghost before = preopens@;
        preopens.push(Preopen { dir: permissions.write_dirs[j].clone(), writable: true });
        assert(preopen_views(preopens@) =~= preopen_views(before).push((writes[j as int], true)));
        assert(writes.take(j + 1).map_values(|d: Seq<char>| (d, true)) =~= writes.take(
            j as int,
        ).map_values(|d: Seq<char>| (d, true)).push((writes[j as int], true)));
        assert(preopen_views(preopens@) =~= reads.map_values(|d: Seq<char>| (d, false))
            + writes.take(j + 1).map_values(|d: Seq<char>| (d, true)));
        j = j + 1;
    }
    assert(writes.take(writes.len() as int) =~= writes);
    let inherit_network = match target {
        WasiTarget::Preview2 => permissions.allow_net,
        WasiTarget::Preview1 => false,
    };
    WasmLaunch { target, argv, preopens, inherit_network, link_http: inherit_network }
}

} // verus!
