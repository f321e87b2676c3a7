//! The tool runner: where tool sources and compiled tools live, which files
//! count as tools, which tool names are accepted, and the sandbox a tool's
//! declared capabilities earn it.

use vstd::prelude::*;
use vstd::string::StringExecFns;
use crate::cache::{cache_dir, cache_dir_spec};
use crate::compiler::{ensure_compiled, CompileDecision, ensure_compiled_spec};
use crate::executor::{
    preopen_views, preopens_for, run_wasm, views, ExecutionResult, SandboxPermissions, WasmLaunch,
};
use crate::metadata::{extract_from_frontmatter, metadata_result_view, metadata_spec};
use crate::order::{is_sorted, sort_strings};
use crate::paths::{extension_of, extension_span, path_join, path_joined, stem, stem_of};
use crate::text::{chars_of, span_eq, string_from_chars};
use crate::types::{McAgentError, ErrorView, ToolCapabilities, ToolMetadata, WasiTarget};

verus! {

broadcast use vstd::string::group_string_axioms;

/// Manages WASI tool compilation and execution.
#[derive(Debug)]
pub struct WasiToolRunner {
    /// Directory for tool source files (`.rs`).
    tools_dir: String,
    /// Project root for cache and compilation workspace.
    project_root: String,
}

/// A compiled tool in the cache.
#[derive(Debug)]
pub struct ToolInfo {
    pub name: String,
    pub path: String,
}

/// What a tool run printed and how it ended.
#[derive(Debug)]
pub struct ToolOutput {
    pub stdout: String,
    pub stderr: String,
    pub exit_code: i32,
}

/// Whether `l` is the launch of a tool described by `meta`, compiled to
/// `wasm`, run in `working_dir` with `args`: its target, the module and the
/// arguments, the working directory opened as the capabilities ask, and the
/// network (sockets, names and outgoing HTTP) only for a preview2 tool that
/// declares `net`.
pub open spec fn launch_for(
    l: WasmLaunch,
    meta: ToolMetadata,
    wasm: Seq<char>,
    working_dir: Seq<char>,
    args: Seq<Seq<char>>,
) -> bool {
    &&& l.target == meta.wasi_target
    &&& views(l.argv@) == seq![wasm] + args
    &&& preopen_views(l.preopens@) == preopens_for(
        permissions_spec(meta.capabilities, working_dir).0,
        permissions_spec(meta.capabilities, working_dir).1,
    )
    &&& l.inherit_network == (meta.wasi_target == WasiTarget::Preview2 && meta.capabilities.net)
    &&& l.link_http == (meta.wasi_target == WasiTarget::Preview2 && meta.capabilities.net)
}

/// What a tool run asks to be done next.
#[derive(Debug)]
pub enum RunAction {
    /// Read the text of the tool's source file at this path, or report that
    /// it does not exist.
    ReadSource(String),
    /// Make sure the source at this path is compiled, and report the path of
    /// the module.
    Compile(String),
    /// Run this launch in the WASI runtime.
    Execute(WasmLaunch),
    /// The run is over, with this result.
    Finish(Result<ToolOutput, McAgentError>),
}

/// What the work a tool run asked for reports back.
#[derive(Debug)]
pub enum RunEvent {
    /// The source file's text (or why it could not be read); `None` when the
    /// file does not exist.
    SourceRead(Option<Result<String, McAgentError>>),
    /// The path of the compiled module, or why compiling failed.
    Compiled(Result<String, McAgentError>),
    /// What the run printed and its exit code, or why it could not run.
    Ran(Result<ExecutionResult, McAgentError>),
}

/// Where a tool run stands.
#[derive(Debug)]
pub enum ToolRun {
    /// Waiting for the text of the source file `source` of the tool `name`.
    ReadingSource { name: String, source: String },
    /// Waiting for the module compiled from `source`, for a tool described
    /// by `meta`.
    Compiling { meta: ToolMetadata },
    /// Waiting for the run to end.
    Executing,
    /// Over.
    Done,
}

/// What creating a tool asks to be done next.
#[derive(Debug)]
pub enum CreateAction {
    /// Make the directory `dir` if needed and write `text` to the file `path`.
    WriteSource { dir: String, path: String, text: String },
    /// Compile the source at this path (the module's own path is not needed).
    Compile(String),
    /// Creating is over, with the source path or the first error.
    Finish(Result<String, McAgentError>),
}

/// Where creating a tool stands.
#[derive(Debug)]
pub enum ToolCreation {
    /// Waiting for the source to be written to `path`.
    Writing { path: String },
    /// Waiting for the source at `path` to be compiled.
    Compiling { path: String },
    /// Over.
    Done,
}

/// Whether a tool run standing at `run` waits for an event like `event`.
pub open spec fn run_awaits(run: ToolRun, event: RunEvent) -> bool {
    match (run, event) {
        (ToolRun::ReadingSource { .. }, RunEvent::SourceRead(_)) => true,
        (ToolRun::Compiling { .. }, RunEvent::Compiled(_)) => true,
        (ToolRun::Executing, RunEvent::Ran(_)) => true,
        _ => false,
    }
}

/// Whether `r` ends a tool run with `result`.
pub open spec fn finished_with(r: (ToolRun, RunAction), result: Result<ToolOutput, McAgentError>) -> bool {
    r.0 is Done && r.1 == RunAction::Finish(result)
}

/// Whether `r` ends a tool run with the error `e`.
pub open spec fn failed_with(r: (ToolRun, RunAction), e: ErrorView) -> bool {
    r.0 is Done && (r.1 matches RunAction::Finish(Err(x)) && x@ == e)
}

impl ToolRun {
    /// Whether this run waits for an event like `event`.
    pub fn awaits(&self, event: &RunEvent) -> (b: bool)
        ensures
            b == run_awaits(*self, *event),
    {
        match (self, event) {
            (ToolRun::ReadingSource { .. }, RunEvent::SourceRead(_)) => true,
            (ToolRun::Compiling { .. }, RunEvent::Compiled(_)) => true,
            (ToolRun::Executing, RunEvent::Ran(_)) => true,
            _ => false,
        }
    }
}

/// The names among `names` with the given extension, in order.
pub open spec fn with_extension(names: Seq<Seq<char>>, ext: Seq<char>) -> Seq<Seq<char>>
    decreases names.len(),
{
    if names.len() == 0 {
        Seq::empty()
    } else {
        with_extension(names.drop_last(), ext) + if extension_of(names.last()) == Some(ext) {
            seq![names.last()]
        } else {
            Seq::empty()
        }
    }
}

/// A tool name is accepted when it is 1 to 64 characters of ASCII letters,
/// digits, `'_'` and `'-'` (so it cannot name a path outside the tools
/// directory).
pub open spec fn valid_tool_name(name: Seq<char>) -> bool {
    &&& 0 < name.len() <= 64
    &&& forall|i: int|
        0 <= i < name.len() ==> {
            let c = #[trigger] name[i];
            ('a' <= c <= 'z') || ('A' <= c <= 'Z') || ('0' <= c <= '9') || c == '_' || c == '-'
        }
}

/// The sandbox a tool's capabilities earn it in a working directory: read
/// access, write access, network access, each only if declared.
pub open spec fn permissions_spec(caps: ToolCapabilities, working_dir: Seq<char>) -> (
    Seq<Seq<char>>,
    Seq<Seq<char>>,
    bool,
) {
    (
        if caps.read {
            seq![working_dir]
        } else {
            Seq::empty()
        },
        if caps.write {
            seq![working_dir]
        } else {
            Seq::empty()
        },
        caps.net,
    )
}

/// An accepted tool name cannot name a path outside the tools directory:
/// it is not empty, not absolute, and holds no `'/'` and no `'.'`.
pub proof fn law_tool_name_stays_in_tools_dir(name: Seq<char>)
    requires
        valid_tool_name(name),
    ensures
        name.len() > 0,
        !crate::paths::is_absolute(name),
        forall|i: int| 0 <= i < name.len() ==> #[trigger] name[i] != '/' && name[i] != '.',
{
    assert forall|i: int| 0 <= i < name.len() implies #[trigger] name[i] != '/' && name[i]
        != '.' by {
        let c = name[i];
        assert(('a' <= c <= 'z') || ('A' <= c <= 'Z') || ('0' <= c <= '9') || c == '_' || c
            == '-');
    }
    assert(name[0] != '/');
}

/// The names among `names` with the given extension, in order.
pub fn names_with_extension(names: &Vec<String>, ext: &str) -> (r: Vec<String>)
    ensures
        views(r@) == with_extension(views(names@), ext@),
{
    let ec = chars_of(ext);
    let mut out: Vec<String> = Vec::new();
    let mut k: usize = 0;
    while k < names.len()
        invariant
            k <= names@.len(),
            ec@ == ext@,
            views(out@) == with_extension(views(names@.take(k as int)), ext@),
        decreases names@.len() - k,
    {
        let nc = chars_of(names[k].as_str());
        let keep = match extension_span(&nc) {
            Some((a, b)) => span_eq(&nc, a, b, &ec),
            None => false,
        };
        let ghost before = out@;
        assert(views(names@.take(k + 1)).drop_last() =~= views(names@.take(k as int)));
        assert(views(names@.take(k + 1)).last() == names@[k as int]@);
        if keep {
            out.push(names[k].clone());
            assert(views(out@) =~= views(before).push(names@[k as int]@));
        }
        k = k + 1;
    }
    assert(names@.take(names@.len() as int) =~= names@);
    out
}

/// Whether a tool name is accepted (see [`valid_tool_name`]).
pub fn is_valid_tool_name(name: &str) -> (b: bool)
    ensures
        b == valid_tool_name(name@),
{
    let c = chars_of(name);
    if c.len() == 0 || c.len() > 64 {
        return false;
    }
    let mut i: usize = 0;
    while i < c.len()
        invariant
            i <= c@.len(),
            c@ == name@,
            forall|j: int|
                0 <= j < i ==> {
                    let x = #[trigger] name@[j];
                    ('a' <= x <= 'z') || ('A' <= x <= 'Z') || ('0' <= x <= '9') || x == '_'
                        || x == '-'
                },
        decreases c@.len() - i,
    {
        let x = c[i];
        if !(('a' <= x && x <= 'z') || ('A' <= x && x <= 'Z') || ('0' <= x && x <= '9') || x
            == '_' || x == '-') {
            assert(name@[i as int] == x);
            return false;
        }
        i = i + 1;
    }
    true
}

/// Map declared capabilities to sandbox permissions for a working directory.
pub fn build_permissions(capabilities: &ToolCapabilities, working_dir: &str) -> (r:
    SandboxPermissions)
    ensures
        (views(r.read_dirs@), views(r.write_dirs@), r.allow_net) == permissions_spec(
            *capabilities,
            working_dir@,
        ),
{
    let mut read_dirs: Vec<String> = Vec::new();
    let mut write_dirs: Vec<String> = Vec::new();
    if capabilities.read {
        read_dirs.push(working_dir.to_string());
    }
    if capabilities.write {
        write_dirs.push(working_dir.to_string());
    }
    assert(views(read_dirs@) =~= permissions_spec(*capabilities, working_dir@).0);
    assert(views(write_dirs@) =~= permissions_spec(*capabilities, working_dir@).1);
    SandboxPermissions { read_dirs, write_dirs, allow_net: capabilities.net }
}

impl WasiToolRunner {
    /// The tools directory.
    pub closed spec fn tools_dir_spec(&self) -> Seq<char> {
        self.tools_dir@
    }

    /// The project root.
    pub closed spec fn project_root_spec(&self) -> Seq<char> {
        self.project_root@
    }

    pub fn new(project_root: &str, tools_dir: &str) -> (r: Self)
        ensures
            r.project_root_spec() == project_root@,
            r.tools_dir_spec() == tools_dir@,
    {
        WasiToolRunner { tools_dir: tools_dir.to_string(), project_root: project_root.to_string() }
    }

    /// The directory for tool source files.
    pub fn tools_dir(&self) -> (r: &str)
        ensures
            r@ == self.tools_dir_spec(),
    {
        self.tools_dir.as_str()
    }

    /// The project root.
    pub fn project_root(&self) -> (r: &str)
        ensures
            r@ == self.project_root_spec(),
    {
        self.project_root.as_str()
    }

    /// The source tools among the file names of the tools directory: the
    /// `.rs` files, sorted by name, as paths in the tools directory.
    pub fn list_source_tools(&self, entry_names: &Vec<String>) -> (r: Vec<String>)
        ensures
            exists|sorted: Seq<Seq<char>>|
                {
                    &&& is_sorted(sorted)
                    &&& sorted.to_multiset() == with_extension(
                        views(entry_names@),
                        "rs"@,
                    ).to_multiset()
                    &&& views(r@) == sorted.map_values(
                        |n: Seq<char>| path_joined(self.tools_dir_spec(), n),
                    )
                },
    {
        let names = names_with_extension(entry_names, "rs");
        let sorted = sort_strings(&names);
        let mut out: Vec<String> = Vec::new();
        let mut k: usize = 0;
        while k < sorted.len()
            invariant
                k <= sorted@.len(),
                views(out@) == views(sorted@).take(k as int).map_values(
                    |n: Seq<char>| path_joined(self.tools_dir_spec(), n),
                ),
            decreases sorted@.len() - k,
        {
            let p = path_join(self.tools_dir.as_str(), sorted[k].as_str());
            let ghost before = out@;
            out.push(p);
            assert(views(out@) =~= views(before).push(p@));
            assert(views(sorted@).take(k + 1).map_values(
                |n: Seq<char>| path_joined(self.tools_dir_spec(), n),
            ) =~= views(sorted@).take(k as int).map_values(
                |n: Seq<char>| path_joined(self.tools_dir_spec(), n),
            ).push(path_joined(self.tools_dir_spec(), sorted@[k as int]@)));
            k = k + 1;
        }
        assert(views(sorted@).take(sorted@.len() as int) =~= views(sorted@));
        out
    }

    /// The compiled tools among the file names of the cache directory: the
    /// `.wasm` files, in the order given, each named by its file stem.
    pub fn list_tools(&self, entry_names: &Vec<String>) -> (r: Vec<ToolInfo>)
        ensures
            r@.len() == with_extension(views(entry_names@), "wasm"@).len(),
            forall|i: int|
                0 <= i < r@.len() ==> {
                    let n = with_extension(views(entry_names@), "wasm"@)[i];
                    &&& (#[trigger] r@[i]).name@ == stem_of(n)
                    &&& r@[i].path@ == path_joined(cache_dir_spec(self.project_root_spec()), n)
                },
    {
        let names = names_with_extension(entry_names, "wasm");
        let dir = cache_dir(self.project_root.as_str());
        let mut out: Vec<ToolInfo> = Vec::new();
        let mut k: usize = 0;
        while k < names.len()
            invariant
                k <= names@.len(),
                views(names@) == with_extension(views(entry_names@), "wasm"@),
                dir@ == cache_dir_spec(self.project_root_spec()),
                out@.len() == k,
                forall|i: int|
                    0 <= i < k ==> {
                        &&& (#[trigger] out@[i]).name@ == stem_of(names@[i]@)
                        &&& out@[i].path@ == path_joined(dir@, names@[i]@)
                    },
            decreases names@.len() - k,
        {
            let nc = chars_of(names[k].as_str());
            let name = string_from_chars(&stem(&nc));
            let path = path_join(dir.as_str(), names[k].as_str());
            out.push(ToolInfo { name, path });
            k = k + 1;
        }
        assert forall|i: int| 0 <= i < out@.len() implies views(names@)[i] == names@[i]@ by {}
        out
    }

    /// Compile a source tool: the cached module if present, else where to
    /// compile it (see [`ensure_compiled`]).
    pub fn compile_tool(&self, source_content: &[u8], cached_exists: bool) -> (r: CompileDecision)
        ensures
            r@ == ensure_compiled_spec(self.project_root_spec(), source_content@, cached_exists),
    {
        ensure_compiled(self.project_root.as_str(), source_content, cached_exists)
    }

    /// Get metadata for a tool from its source frontmatter.
    pub fn tool_metadata(&self, source: &str) -> (r: Result<ToolMetadata, McAgentError>)
        ensures
            metadata_result_view(r) == metadata_spec(source@),
    {
        extract_from_frontmatter(source)
    }

    /// The source path of a tool, after checking its name: a rejected name is
    /// reported as a tool that does not exist.
    pub fn tool_source_path(&self, tool_name: &str) -> (r: Result<String, McAgentError>)
        ensures
            valid_tool_name(tool_name@) ==> (r matches Ok(p) && p@ == path_joined(
                self.tools_dir_spec(),
                tool_name@ + ".rs"@,
            )),
            !valid_tool_name(tool_name@) ==> (r matches Err(e) && e@ == ErrorView::ToolNotFound(
                tool_name@,
            )),
            valid_tool_name(tool_name@) && self.tools_dir_spec().len() > 0
                && self.tools_dir_spec().last() != '/' ==> (r matches Ok(p) && p@
                == self.tools_dir_spec() + seq!['/'] + tool_name@ + ".rs"@),
    {
        if !is_valid_tool_name(tool_name) {
            return Err(McAgentError::ToolNotFound(tool_name.to_string()));
        }
        let mut file = tool_name.to_string();
        file.append(".rs");
        assert(file@[0] == tool_name@[0]);
        Ok(path_join(self.tools_dir.as_str(), file.as_str()))
    }

    /// Where a tool written under `name` is saved: `<name>.rs` in the tools
    /// directory. The name is taken as given.
    pub fn new_tool_path(&self, name: &str) -> (r: String)
        ensures
            r@ == path_joined(self.tools_dir_spec(), name@ + ".rs"@),
    {
        let mut file = name.to_string();
        file.append(".rs");
        path_join(self.tools_dir.as_str(), file.as_str())
    }

    /// Start running the tool `tool_name`: a name that could leave the tools
    /// directory ends the run as a tool that does not exist; otherwise the
    /// tool's source file is read.
    pub fn start_run(&self, tool_name: &str) -> (r: (ToolRun, RunAction))
        ensures
            valid_tool_name(tool_name@) ==> (r.1 matches RunAction::ReadSource(p) && p@
                == path_joined(self.tools_dir_spec(), tool_name@ + ".rs"@) && (r.0 matches
            ToolRun::ReadingSource { name, source } && name@ == tool_name@ && source == p)),
            !valid_tool_name(tool_name@) ==> failed_with(r, ErrorView::ToolNotFound(tool_name@)),
    {
        match self.tool_source_path(tool_name) {
            Ok(p) => (
                ToolRun::ReadingSource { name: tool_name.to_string(), source: p.clone() },
                RunAction::ReadSource(p),
            ),
            Err(e) => (ToolRun::Done, RunAction::Finish(Err(e))),
        }
    }

    /// The next step of a tool run once the work it asked for reports back.
    /// The steps come in order: the source is read and its metadata parsed,
    /// the module compiled, the launch run. The first step that fails ends
    /// the run with its error, unchanged (a missing source file as a tool
    /// that does not exist); when all succeed the run ends with what the
    /// tool printed and its exit code.
    pub fn step(&self, run: ToolRun, event: RunEvent, working_dir: &str, args: &Vec<String>) -> (r: (
        ToolRun,
        RunAction,
    ))
        requires
            run_awaits(run, event),
        ensures
            run matches ToolRun::ReadingSource { name, source } ==> match event {
                RunEvent::SourceRead(None) => failed_with(r, ErrorView::ToolNotFound(name@)),
                RunEvent::SourceRead(Some(Err(e))) => finished_with(r, Err(e)),
                RunEvent::SourceRead(Some(Ok(text))) => match metadata_spec(text@) {
                    Err(e) => failed_with(r, e),
                    Ok(m) => r.1 == RunAction::Compile(source) && (r.0 matches ToolRun::Compiling {
                        meta,
                    } && meta@ == m),
                },
                _ => false,
            },
            run matches ToolRun::Compiling { meta } ==> match event {
                RunEvent::Compiled(Err(e)) => finished_with(r, Err(e)),
                RunEvent::Compiled(Ok(wasm)) => r.0 is Executing && (r.1 matches RunAction::Execute(
                    l,
                ) && launch_for(l, meta, wasm@, working_dir@, views(args@))),
                _ => false,
            },
            run is Executing ==> match event {
                RunEvent::Ran(Err(e)) => finished_with(r, Err(e)),
                RunEvent::Ran(Ok(out)) => r.0 is Done && (r.1 matches RunAction::Finish(Ok(o))
                    && o.stdout == out.stdout && o.stderr == out.stderr && o.exit_code
                    == out.exit_code),
                _ => false,
            },
    {
        match (run, event) {
            (ToolRun::ReadingSource { name, source }, RunEvent::SourceRead(read)) => match read {
                None => (ToolRun::Done, RunAction::Finish(Err(McAgentError::ToolNotFound(name)))),
                Some(Err(e)) => (ToolRun::Done, RunAction::Finish(Err(e))),
                Some(Ok(text)) => match self.tool_metadata(text.as_str()) {
                    Err(e) => (ToolRun::Done, RunAction::Finish(Err(e))),
                    Ok(meta) => (ToolRun::Compiling { meta }, RunAction::Compile(source)),
                },
            },
            (ToolRun::Compiling { meta }, RunEvent::Compiled(compiled)) => match compiled {
                Err(e) => (ToolRun::Done, RunAction::Finish(Err(e))),
                Ok(wasm) => {
                    let launch = self.tool_launch(&meta, wasm.as_str(), working_dir, args);
                    (ToolRun::Executing, RunAction::Execute(launch))
                },
            },
            (ToolRun::Executing, RunEvent::Ran(ran)) => match ran {
                Err(e) => (ToolRun::Done, RunAction::Finish(Err(e))),
                Ok(out) => (ToolRun::Done, RunAction::Finish(Ok(tool_output(out)))),
            },
            // Not reached: `requires` pairs each stage with its own event.
            (run, _) => (run, RunAction::Finish(Err(McAgentError::ToolNotFound(String::new())))),
        }
    }

    /// Start creating the tool `name` from `source_code`: its source is
    /// written to `<name>.rs` in the tools directory, which is made first.
    pub fn start_create(&self, name: &str, source_code: &str) -> (r: (ToolCreation, CreateAction))
        ensures
            r.1 matches CreateAction::WriteSource { dir, path, text } && dir@
                == self.tools_dir_spec() && path@ == path_joined(
                self.tools_dir_spec(),
                name@ + ".rs"@,
            ) && text@ == source_code@ && (r.0 matches ToolCreation::Writing { path: p } && p
                == path),
    {
        let path = self.new_tool_path(name);
        (
            ToolCreation::Writing { path: path.clone() },
            CreateAction::WriteSource {
                dir: self.tools_dir.clone(),
                path,
                text: source_code.to_string(),
            },
        )
    }

    /// The next step of creating a tool once the work it asked for reports
    /// back: a written source is compiled; the result is the source's path
    /// when it compiled, else the first error, unchanged. The source stays
    /// written whatever compiling gives.
    pub fn create_step(&self, creation: ToolCreation, done: Result<(), McAgentError>) -> (r: (
        ToolCreation,
        CreateAction,
    ))
        requires
            !(creation is Done),
        ensures
            creation matches ToolCreation::Writing { path } ==> match done {
                Err(e) => r.0 is Done && r.1 == CreateAction::Finish(Err(e)),
                Ok(_) => r.1 == CreateAction::Compile(path) && r.0 == (ToolCreation::Compiling {
                    path,
                }),
            },
            creation matches ToolCreation::Compiling { path } ==> r.0 is Done && match done {
                Err(e) => r.1 == CreateAction::Finish(Err(e)),
                Ok(_) => r.1 == CreateAction::Finish(Ok(path)),
            },
    {
        match creation {
            ToolCreation::Writing { path } => match done {
                Err(e) => (ToolCreation::Done, CreateAction::Finish(Err(e))),
                Ok(()) => (ToolCreation::Compiling { path: path.clone() }, CreateAction::Compile(path)),
            },
            ToolCreation::Compiling { path } => match done {
                Err(e) => (ToolCreation::Done, CreateAction::Finish(Err(e))),
                Ok(()) => (ToolCreation::Done, CreateAction::Finish(Ok(path))),
            },
            // Not reached: `requires` leaves out a creation that is over.
            ToolCreation::Done => (
                ToolCreation::Done,
                CreateAction::Finish(Err(McAgentError::ToolNotFound(String::new()))),
            ),
        }
    }

    /// The launch for a tool: its compiled module, the arguments, and the
    /// sandbox its declared capabilities earn it in the working directory.
    pub fn tool_launch(
        &self,
        meta: &ToolMetadata,
        wasm_path: &str,
        working_dir: &str,
        args: &Vec<String>,
    ) -> (r: WasmLaunch)
        ensures
            launch_for(r, *meta, wasm_path@, working_dir@, views(args@)),
    {
        let permissions = build_permissions(&meta.capabilities, working_dir);
        run_wasm(wasm_path, args, &permissions, meta.wasi_target)
    }
}

/// The output of a tool run.
pub fn tool_output(result: ExecutionResult) -> (r: ToolOutput)
    ensures
        r.stdout == result.stdout,
        r.stderr == result.stderr,
        r.exit_code == result.exit_code,
{
    ToolOutput { stdout: result.stdout, stderr: result.stderr, exit_code: result.exit_code }
}

/// Each capability opens exactly its own access, whatever the others say:
/// `read` opens the working directory read-only, `write` opens it writable,
/// `net` grants the network; an undeclared capability opens nothing.
pub proof fn law_capabilities_open_their_own_access(caps: ToolCapabilities, working_dir: Seq<char>)
    ensures
        caps.read ==> permissions_spec(caps, working_dir).0 == seq![working_dir],
        !caps.read ==> permissions_spec(caps, working_dir).0.len() == 0,
        caps.write ==> permissions_spec(caps, working_dir).1 == seq![working_dir],
        !caps.write ==> permissions_spec(caps, working_dir).1.len() == 0,
        permissions_spec(caps, working_dir).2 == caps.net,
        forall|other: ToolCapabilities|
            other.write == caps.write ==> #[trigger] permissions_spec(other, working_dir).1
                == permissions_spec(caps, working_dir).1,
        forall|other: ToolCapabilities|
            other.read == caps.read ==> #[trigger] permissions_spec(other, working_dir).0
                == permissions_spec(caps, working_dir).0,
{
}

} // verus!
