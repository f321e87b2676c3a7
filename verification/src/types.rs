//! Shared data types: tool metadata as declared in frontmatter, the
//! library's error type, agents, diffs and GitButler records.

use vstd::prelude::*;

verus! {

/// WASI compilation/execution target.
#[derive(Debug, Clone, Copy, PartialEq, Eq, Structural)]
pub enum WasiTarget {
    /// WASI preview1: simpler, full exit code support, no networking.
    Preview1,
    /// WASI preview2: networking support via wasi-http, exit codes limited to 0/1.
    Preview2,
}

impl Default for WasiTarget {
    fn default() -> (r: Self)
        ensures
            r == WasiTarget::Preview1,
    {
        WasiTarget::Preview1
    }
}

/// Declared capabilities a tool requires (from frontmatter metadata).
#[derive(Debug, Clone, Copy, PartialEq, Eq, Structural)]
pub struct ToolCapabilities {
    pub read: bool,
    pub write: bool,
    pub net: bool,
}

impl Default for ToolCapabilities {
    fn default() -> (r: Self)
        ensures
            r == (ToolCapabilities { read: false, write: false, net: false }),
    {
        ToolCapabilities { read: false, write: false, net: false }
    }
}

/// Specification for a tool argument.
#[derive(Debug)]
pub struct ArgSpec {
    pub name: String,
    pub arg_type: String,
    pub description: String,
    pub required: bool,
    pub default: Option<String>,
}

/// The mathematical content of an [`ArgSpec`].
pub struct ArgSpecView {
    pub name: Seq<char>,
    pub arg_type: Seq<char>,
    pub description: Seq<char>,
    pub required: bool,
    pub default: Option<Seq<char>>,
}

/// The view of an optional string.
pub open spec fn opt_view(o: Option<String>) -> Option<Seq<char>> {
    match o {
        Some(s) => Some(s@),
        None => None,
    }
}

impl View for ArgSpec {
    type V = ArgSpecView;

    open spec fn view(&self) -> ArgSpecView {
        ArgSpecView {
            name: self.name@,
            arg_type: self.arg_type@,
            description: self.description@,
            required: self.required,
            default: opt_view(self.default),
        }
    }
}

/// Specification for a tool error code.
#[derive(Debug)]
pub struct ErrorSpec {
    pub code: i32,
    pub message: String,
}

/// The mathematical content of an [`ErrorSpec`].
pub struct ErrorSpecView {
    pub code: i32,
    pub message: Seq<char>,
}

impl View for ErrorSpec {
    type V = ErrorSpecView;

    open spec fn view(&self) -> ErrorSpecView {
        ErrorSpecView { code: self.code, message: self.message@ }
    }
}

/// Tool metadata, extractable from frontmatter or `--describe` output.
#[derive(Debug)]
pub struct ToolMetadata {
    pub name: String,
    pub version: String,
    pub description: String,
    pub args: Vec<ArgSpec>,
    pub errors: Vec<ErrorSpec>,
    pub capabilities: ToolCapabilities,
    pub wasi_target: WasiTarget,
}

/// The mathematical content of a [`ToolMetadata`].
pub struct ToolMetadataView {
    pub name: Seq<char>,
    pub version: Seq<char>,
    pub description: Seq<char>,
    pub args: Seq<ArgSpecView>,
    pub errors: Seq<ErrorSpecView>,
    pub capabilities: ToolCapabilities,
    pub wasi_target: WasiTarget,
}

impl View for ToolMetadata {
    type V = ToolMetadataView;

    open spec fn view(&self) -> ToolMetadataView {
        ToolMetadataView {
            name: self.name@,
            version: self.version@,
            description: self.description@,
            args: self.args@.map_values(|a: ArgSpec| a@),
            errors: self.errors@.map_values(|e: ErrorSpec| e@),
            capabilities: self.capabilities,
            wasi_target: self.wasi_target,
        }
    }
}

/// Identifier of an agent.
#[derive(Debug)]
pub struct AgentId {
    pub id: String,
}

impl View for AgentId {
    type V = Seq<char>;

    open spec fn view(&self) -> Seq<char> {
        self.id@
    }
}

impl AgentId {
    /// An identifier with the given text.
    pub fn from_text(s: &str) -> (r: AgentId)
        ensures
            r@ == s@,
    {
        AgentId { id: s.to_string() }
    }

    /// The identifier's text.
    pub fn as_str(&self) -> (r: &str)
        ensures
            r@ == self@,
    {
        self.id.as_str()
    }

    /// A copy of this identifier.
    pub fn duplicate(&self) -> (r: AgentId)
        ensures
            r@ == self@,
    {
        AgentId { id: self.id.clone() }
    }
}

/// Errors of the library, each with the text that describes it.
#[derive(Debug)]
pub enum McAgentError {
    InvalidConfig(String),
    WasiRuntime(String),
    CompilationFailed(String),
    ToolNotFound(String),
    AgentAlreadyExists(AgentId),
    AgentNotFound(AgentId),
    GitButler(String),
    Filesystem { path: String, message: String },
}

/// The mathematical content of a [`McAgentError`].
pub enum ErrorView {
    InvalidConfig(Seq<char>),
    WasiRuntime(Seq<char>),
    CompilationFailed(Seq<char>),
    ToolNotFound(Seq<char>),
    AgentAlreadyExists(Seq<char>),
    AgentNotFound(Seq<char>),
    GitButler(Seq<char>),
    Filesystem { path: Seq<char>, message: Seq<char> },
}

impl View for McAgentError {
    type V = ErrorView;

    open spec fn view(&self) -> ErrorView {
        match self {
            McAgentError::InvalidConfig(m) => ErrorView::InvalidConfig(m@),
            McAgentError::WasiRuntime(m) => ErrorView::WasiRuntime(m@),
            McAgentError::CompilationFailed(m) => ErrorView::CompilationFailed(m@),
            McAgentError::ToolNotFound(m) => ErrorView::ToolNotFound(m@),
            McAgentError::AgentAlreadyExists(id) => ErrorView::AgentAlreadyExists(id@),
            McAgentError::AgentNotFound(id) => ErrorView::AgentNotFound(id@),
            McAgentError::GitButler(m) => ErrorView::GitButler(m@),
            McAgentError::Filesystem { path, message } => ErrorView::Filesystem {
                path: path@,
                message: message@,
            },
        }
    }
}

/// Configuration an agent is created with.
#[derive(Debug)]
pub struct AgentConfig {
    pub name: String,
    pub task_description: String,
    pub branch_name: Option<String>,
    pub stacked_on: Option<String>,
}

/// The mathematical content of an [`AgentConfig`].
pub struct AgentConfigView {
    pub name: Seq<char>,
    pub task_description: Seq<char>,
    pub branch_name: Option<Seq<char>>,
    pub stacked_on: Option<Seq<char>>,
}

impl View for AgentConfig {
    type V = AgentConfigView;

    open spec fn view(&self) -> AgentConfigView {
        AgentConfigView {
            name: self.name@,
            task_description: self.task_description@,
            branch_name: opt_view(self.branch_name),
            stacked_on: opt_view(self.stacked_on),
        }
    }
}

/// Lifecycle state of an agent.
#[derive(Debug, Clone, Copy, PartialEq, Eq, Structural)]
pub enum AgentState {
    Created,
}

/// An agent: its configuration, state, isolated working directory and branch.
#[derive(Debug)]
pub struct Agent {
    pub id: AgentId,
    pub config: AgentConfig,
    pub state: AgentState,
    pub working_dir: String,
    pub branch_name: String,
}

/// The mathematical content of an [`Agent`].
pub struct AgentView {
    pub id: Seq<char>,
    pub config: AgentConfigView,
    pub state: AgentState,
    pub working_dir: Seq<char>,
    pub branch_name: Seq<char>,
}

impl View for Agent {
    type V = AgentView;

    open spec fn view(&self) -> AgentView {
        AgentView {
            id: self.id@,
            config: self.config@,
            state: self.state,
            working_dir: self.working_dir@,
            branch_name: self.branch_name@,
        }
    }
}

/// A copy of an optional string.
pub fn opt_duplicate(o: &Option<String>) -> (r: Option<String>)
    ensures
        opt_view(r) == opt_view(*o),
{
    match o {
        Some(s) => Some(s.clone()),
        None => None,
    }
}

impl Agent {
    /// A copy of this agent.
    pub fn duplicate(&self) -> (r: Agent)
        ensures
            r@ == self@,
    {
        Agent {
            id: self.id.duplicate(),
            config: AgentConfig {
                name: self.config.name.clone(),
                task_description: self.config.task_description.clone(),
                branch_name: opt_duplicate(&self.config.branch_name),
                stacked_on: opt_duplicate(&self.config.stacked_on),
            },
            state: self.state,
            working_dir: self.working_dir.clone(),
            branch_name: self.branch_name.clone(),
        }
    }
}

/// How a file differs between an agent's copy and the base project.
#[derive(Debug, Clone, Copy, PartialEq, Eq, Structural)]
pub enum DiffKind {
    Added,
    Modified,
    Deleted,
}

/// One changed file, by its path relative to the project root.
#[derive(Debug)]
pub struct FileDiff {
    pub path: String,
    pub kind: DiffKind,
}

/// A branch of the GitButler workspace.
#[derive(Debug)]
pub struct BranchInfo {
    pub name: String,
    pub id: Option<String>,
    pub upstream: Option<String>,
    pub stacked_on: Option<String>,
}

/// A commit made through GitButler.
#[derive(Debug)]
pub struct CommitInfo {
    pub id: String,
    pub message: String,
}

/// The branches of the GitButler workspace.
#[derive(Debug)]
pub struct WorkspaceStatus {
    pub branches: Vec<BranchInfo>,
}

} // verus!
