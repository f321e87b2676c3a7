//! The texts the server's tools answer with: errors, states, the workspace
//! status, an agent's changes, commits, branches and the tool list.

use vstd::prelude::*;
use vstd::string::StringExecFns;
use crate::agent_tools::branch_line;
use crate::executor::views;
use crate::text::{decimal, decimal_chars, string_from_chars};
use crate::types::{
    Agent, AgentState, AgentView, BranchInfo, DiffKind, ErrorView, FileDiff, McAgentError,
};

verus! {

broadcast use vstd::string::group_string_axioms;

/// Parts joined with `sep` between them.
pub open spec fn join_sep(parts: Seq<Seq<char>>, sep: Seq<char>) -> Seq<char>
    decreases parts.len(),
{
    if parts.len() == 0 {
        Seq::empty()
    } else if parts.len() == 1 {
        parts[0]
    } else {
        join_sep(parts.drop_last(), sep) + sep + parts.last()
    }
}

/// Strings joined with `sep` between them.
pub fn join_strings(parts: &Vec<String>, sep: &str) -> (r: String)
    ensures
        r@ == join_sep(views(parts@), sep@),
{
    let mut out = String::new();
    let mut k: usize = 0;
    while k < parts.len()
        invariant
            k <= parts@.len(),
            out@ == join_sep(views(parts@).take(k as int), sep@),
        decreases parts@.len() - k,
    {
        assert(views(parts@).take(k + 1).drop_last() =~= views(parts@).take(k as int));
        assert(views(parts@).take(k + 1).last() == parts@[k as int]@);
        if k > 0 {
            out.append(sep);
        } else {
            assert(views(parts@).take(1) =~= seq![parts@[0]@]);
            assert(out@ =~= Seq::<char>::empty());
        }
        out.append(parts[k].as_str());
        assert(out@ =~= join_sep(views(parts@).take(k + 1), sep@));
        k = k + 1;
    }
    assert(views(parts@).take(parts@.len() as int) =~= views(parts@));
    out
}

/// The text an error is shown as.
pub open spec fn error_text_spec(e: ErrorView) -> Seq<char> {
    match e {
        ErrorView::InvalidConfig(m) => "invalid configuration: "@ + m,
        ErrorView::WasiRuntime(m) => "WASI runtime error: "@ + m,
        ErrorView::CompilationFailed(m) => "compilation failed: "@ + m,
        ErrorView::ToolNotFound(m) => "tool not found: "@ + m,
        ErrorView::AgentAlreadyExists(id) => "agent already exists: "@ + id,
        ErrorView::AgentNotFound(id) => "agent not found: "@ + id,
        ErrorView::GitButler(m) => "GitButler error: "@ + m,
        ErrorView::Filesystem { path, message } => "filesystem error at "@ + path + ": "@
            + message,
    }
}

/// The text an error is shown as.
pub fn error_text(e: &McAgentError) -> (r: String)
    ensures
        r@ == error_text_spec(e@),
{
    let (mut s, rest) = match e {
        McAgentError::InvalidConfig(m) => ("invalid configuration: ".to_string(), m.as_str()),
        McAgentError::WasiRuntime(m) => ("WASI runtime error: ".to_string(), m.as_str()),
        McAgentError::CompilationFailed(m) => ("compilation failed: ".to_string(), m.as_str()),
        McAgentError::ToolNotFound(m) => ("tool not found: ".to_string(), m.as_str()),
        McAgentError::AgentAlreadyExists(id) => ("agent already exists: ".to_string(), id.as_str()),
        McAgentError::AgentNotFound(id) => ("agent not found: ".to_string(), id.as_str()),
        McAgentError::GitButler(m) => ("GitButler error: ".to_string(), m.as_str()),
        McAgentError::Filesystem { path, message } => {
            let mut s = "filesystem error at ".to_string();
            s.append(path.as_str());
            s.append(": ");
            (s, message.as_str())
        },
    };
    s.append(rest);
    s
}

/// The text an agent state is shown as.
pub open spec fn state_text_spec(s: AgentState) -> Seq<char> {
    match s {
        AgentState::Created => "created"@,
    }
}

/// The text an agent state is shown as.
pub fn state_text(s: AgentState) -> (r: &'static str)
    ensures
        r@ == state_text_spec(s),
{
    match s {
        AgentState::Created => "created",
    }
}

/// The text a kind of change is shown as.
pub open spec fn kind_text_spec(k: DiffKind) -> Seq<char> {
    match k {
        DiffKind::Added => "added"@,
        DiffKind::Modified => "modified"@,
        DiffKind::Deleted => "deleted"@,
    }
}

/// The text a kind of change is shown as.
pub fn kind_text(k: DiffKind) -> (r: &'static str)
    ensures
        r@ == kind_text_spec(k),
{
    match k {
        DiffKind::Added => "added",
        DiffKind::Modified => "modified",
        DiffKind::Deleted => "deleted",
    }
}

/// The line that lists an agent in the workspace status.
pub open spec fn agent_line(a: AgentView) -> Seq<char> {
    "  "@ + a.id + " ("@ + a.config.name + "): branch="@ + a.branch_name + ", state="@
        + state_text_spec(a.state)
}

/// The workspace status: the project and its agents, one per line.
pub open spec fn workspace_status_spec(root: Seq<char>, agents: Seq<AgentView>) -> Seq<char> {
    if agents.len() == 0 {
        "Workspace: "@ + root + "\nNo active agents."@
    } else {
        "Workspace: "@ + root + "\nAgents:\n"@ + join_sep(
            agents.map_values(|a: AgentView| agent_line(a)),
            "\n"@,
        )
    }
}

/// The line that lists an agent in the workspace status.
fn agent_line_of(a: &Agent) -> (r: String)
    ensures
        r@ == agent_line(a@),
{
    let mut s = "  ".to_string();
    s.append(a.id.as_str());
    s.append(" (");
    s.append(a.config.name.as_str());
    s.append("): branch=");
    s.append(a.branch_name.as_str());
    s.append(", state=");
    s.append(state_text(a.state));
    s
}

/// The workspace status: the project and its agents, one per line.
pub fn workspace_status_text(root: &str, agents: &Vec<Agent>) -> (r: String)
    ensures
        r@ == workspace_status_spec(root@, agents@.map_values(|a: Agent| a@)),
{
    let mut s = "Workspace: ".to_string();
    s.append(root);
    if agents.len() == 0 {
        s.append("\nNo active agents.");
        return s;
    }
    let mut lines: Vec<String> = Vec::new();
    let mut k: usize = 0;
    while k < agents.len()
        invariant
            k <= agents@.len(),
            views(lines@) == agents@.take(k as int).map_values(|a: Agent| a@).map_values(
                |a: AgentView| agent_line(a),
            ),
        decreases agents@.len() - k,
    {
        let ghost before = lines@;
        lines.push(agent_line_of(&agents[k]));
        assert(views(lines@) =~= views(before).push(agent_line(agents@[k as int]@)));
        assert(agents@.take(k + 1).map_values(|a: Agent| a@).map_values(
            |a: AgentView| agent_line(a),
        ) =~= agents@.take(k as int).map_values(|a: Agent| a@).map_values(
            |a: AgentView| agent_line(a),
        ).push(agent_line(agents@[k as int]@)));
        k = k + 1;
    }
    assert(agents@.take(agents@.len() as int) =~= agents@);
    s.append("\nAgents:\n");
    let joined = join_strings(&lines, "\n");
    s.append(joined.as_str());
    s
}

/// The changes of an agent: one line per change, or a note that there are none.
pub open spec fn changes_spec(diffs: Seq<FileDiff>) -> Seq<char> {
    if diffs.len() == 0 {
        "  No changes"@
    } else {
        join_sep(
            diffs.map_values(|d: FileDiff| "  "@ + kind_text_spec(d.kind) + " "@ + d.path@),
            "\n"@,
        )
    }
}

/// The changes of an agent: one line per change, or a note that there are none.
pub fn changes_text(diffs: &Vec<FileDiff>) -> (r: String)
    ensures
        r@ == changes_spec(diffs@),
{
    if diffs.len() == 0 {
        return "  No changes".to_string();
    }
    let mut lines: Vec<String> = Vec::new();
    let mut k: usize = 0;
    while k < diffs.len()
        invariant
            k <= diffs@.len(),
            views(lines@) == diffs@.take(k as int).map_values(
                |d: FileDiff| "  "@ + kind_text_spec(d.kind) + " "@ + d.path@,
            ),
        decreases diffs@.len() - k,
    {
        let mut line = "  ".to_string();
        line.append(kind_text(diffs[k].kind));
        line.append(" ");
        line.append(diffs[k].path.as_str());
        let ghost before = lines@;
        lines.push(line);
        assert(views(lines@) =~= views(before).push(
            "  "@ + kind_text_spec(diffs@[k as int].kind) + " "@ + diffs@[k as int].path@,
        ));
        assert(diffs@.take(k + 1).map_values(
            |d: FileDiff| "  "@ + kind_text_spec(d.kind) + " "@ + d.path@,
        ) =~= diffs@.take(k as int).map_values(
            |d: FileDiff| "  "@ + kind_text_spec(d.kind) + " "@ + d.path@,
        ).push("  "@ + kind_text_spec(diffs@[k as int].kind) + " "@ + diffs@[k as int].path@));
        k = k + 1;
    }
    assert(diffs@.take(diffs@.len() as int) =~= diffs@);
    join_strings(&lines, "\n")
}

/// The report of a created agent.
pub open spec fn agent_created_spec(a: AgentView) -> Seq<char> {
    "Agent created:\n  id: "@ + a.id + "\n  name: "@ + a.config.name + "\n  branch: "@
        + a.branch_name + "\n  working_dir: "@ + a.working_dir
}

/// The report of a created agent.
pub fn agent_created_text(a: &Agent) -> (r: String)
    ensures
        r@ == agent_created_spec(a@),
{
    let mut s = "Agent created:\n  id: ".to_string();
    s.append(a.id.as_str());
    s.append("\n  name: ");
    s.append(a.config.name.as_str());
    s.append("\n  branch: ");
    s.append(a.branch_name.as_str());
    s.append("\n  working_dir: ");
    s.append(a.working_dir.as_str());
    s
}

/// The answer to creating an agent: the report of the agent, and, when its
/// GitButler branch could not be created, that error after it.
pub open spec fn agent_creation_answer_spec(a: AgentView, branch_error: Option<ErrorView>) -> Seq<
    char,
> {
    match branch_error {
        None => agent_created_spec(a),
        Some(e) => agent_created_spec(a) + "\n  branch not created: "@ + error_text_spec(e),
    }
}

/// The answer to creating an agent: the report of the agent, and, when its
/// GitButler branch could not be created, that error after it.
pub fn agent_creation_answer(a: &Agent, branch_error: Option<&McAgentError>) -> (r: String)
    ensures
        r@ == agent_creation_answer_spec(
            a@,
            match branch_error {
                Some(e) => Some(e@),
                None => None,
            },
        ),
{
    let mut s = agent_created_text(a);
    match branch_error {
        Some(e) => {
            s.append("\n  branch not created: ");
            let t = error_text(e);
            s.append(t.as_str());
        },
        None => {},
    }
    s
}

/// The status report of an agent, with the text of its changes.
pub open spec fn agent_status_spec(a: AgentView, changes: Seq<char>) -> Seq<char> {
    "Agent "@ + a.id + ":\n  name: "@ + a.config.name + "\n  state: "@ + state_text_spec(a.state)
        + "\n  branch: "@ + a.branch_name + "\n  task: "@ + a.config.task_description
        + "\nChanges:\n"@ + changes
}

/// The status report of an agent, with the text of its changes.
pub fn agent_status_text(a: &Agent, changes: &str) -> (r: String)
    ensures
        r@ == agent_status_spec(a@, changes@),
{
    let mut s = "Agent ".to_string();
    s.append(a.id.as_str());
    s.append(":\n  name: ");
    s.append(a.config.name.as_str());
    s.append("\n  state: ");
    s.append(state_text(a.state));
    s.append("\n  branch: ");
    s.append(a.branch_name.as_str());
    s.append("\n  task: ");
    s.append(a.config.task_description.as_str());
    s.append("\nChanges:\n");
    s.append(changes);
    s
}

/// The report of a commit of some files to an agent's branch.
pub open spec fn committed_spec(
    count: nat,
    branch: Seq<char>,
    commit_id: Seq<char>,
    files: Seq<Seq<char>>,
) -> Seq<char> {
    "Committed "@ + decimal(count) + " files to branch '"@ + branch + "':\n  commit: "@ + commit_id
        + "\n  files: "@ + join_sep(files, ", "@)
}

/// The report of a commit of some files to an agent's branch.
pub fn committed_text(count: usize, branch: &str, commit_id: &str, files: &Vec<String>) -> (r:
    String)
    ensures
        r@ == committed_spec(count as nat, branch@, commit_id@, views(files@)),
{
    let mut s = "Committed ".to_string();
    let n = string_from_chars(&decimal_chars(count));
    s.append(n.as_str());
    s.append(" files to branch '");
    s.append(branch);
    s.append("':\n  commit: ");
    s.append(commit_id);
    s.append("\n  files: ");
    let joined = join_strings(files, ", ");
    s.append(joined.as_str());
    s
}

/// The report of the workspace's branches.
pub open spec fn branches_spec(lines: Seq<Seq<char>>) -> Seq<char> {
    if lines.len() == 0 {
        "No branches in workspace."@
    } else {
        "Branches:\n"@ + join_sep(lines, "\n"@)
    }
}

/// The report of the workspace's branches, one line each (see [`branch_line`]).
pub fn branches_text(branches: &Vec<BranchInfo>) -> (r: String)
    ensures
        exists|lines: Seq<Seq<char>>|
            {
                &&& lines.len() == branches@.len()
                &&& forall|i: int|
                    0 <= i < lines.len() ==> #[trigger] lines[i] == "  "@ + branches@[i].name@
                        + match branches@[i].stacked_on {
                        Some(p) => " (stacked on "@ + p@ + ")"@,
                        None => Seq::<char>::empty(),
                    }
                &&& r@ == branches_spec(lines)
            },
{
    let mut lines: Vec<String> = Vec::new();
    let mut k: usize = 0;
    while k < branches.len()
        invariant
            k <= branches@.len(),
            lines@.len() == k,
            forall|i: int|
                0 <= i < k ==> #[trigger] lines@[i]@ == "  "@ + branches@[i].name@
                    + match branches@[i].stacked_on {
                    Some(p) => " (stacked on "@ + p@ + ")"@,
                    None => Seq::<char>::empty(),
                },
        decreases branches@.len() - k,
    {
        lines.push(branch_line(&branches[k]));
        k = k + 1;
    }
    let ghost witness = views(lines@);
    assert(forall|i: int| 0 <= i < lines@.len() ==> #[trigger] views(lines@)[i] == lines@[i]@);
    if branches.len() == 0 {
        let r = "No branches in workspace.".to_string();
        assert(r@ == branches_spec(witness));
        return r;
    }
    let mut s = "Branches:\n".to_string();
    let joined = join_strings(&lines, "\n");
    s.append(joined.as_str());
    assert(s@ == branches_spec(witness));
    s
}

/// The report of the available tools, one indented line each.
pub open spec fn tools_spec(entries: Seq<Seq<char>>) -> Seq<char> {
    if entries.len() == 0 {
        "No tools available. Use create_tool to write a new tool."@
    } else {
        "Available tools:\n"@ + join_sep(entries.map_values(|e: Seq<char>| "  "@ + e), "\n"@)
    }
}

/// The report of the available tools, one indented line each.
pub fn tools_text(entries: &Vec<String>) -> (r: String)
    ensures
        r@ == tools_spec(views(entries@)),
{
    if entries.len() == 0 {
        return "No tools available. Use create_tool to write a new tool.".to_string();
    }
    let mut lines: Vec<String> = Vec::new();
    let mut k: usize = 0;
    while k < entries.len()
        invariant
            k <= entries@.len(),
            views(lines@) == views(entries@).take(k as int).map_values(
                |e: Seq<char>| "  "@ + e,
            ),
        decreases entries@.len() - k,
    {
        let mut line = "  ".to_string();
        line.append(entries[k].as_str());
        let ghost before = lines@;
        lines.push(line);
        assert(views(lines@) =~= views(before).push("  "@ + entries@[k as int]@));
        assert(views(entries@).take(k + 1).map_values(|e: Seq<char>| "  "@ + e) =~= views(
            entries@,
        ).take(k as int).map_values(|e: Seq<char>| "  "@ + e).push("  "@ + entries@[k as int]@));
        k = k + 1;
    }
    assert(views(entries@).take(entries@.len() as int) =~= views(entries@));
    let mut s = "Available tools:\n".to_string();
    let joined = join_strings(&lines, "\n");
    s.append(joined.as_str());
    s
}

/// The answer to a commit request when the agent changed nothing.
pub fn nothing_to_commit_text() -> (r: String)
    ensures
        r@ == "No changes to commit."@,
{
    "No changes to commit.".to_string()
}

/// The tool-list entry of a tool whose metadata cannot be read.
pub fn metadata_unavailable_text(name: &str) -> (r: String)
    ensures
        r@ == name@ + " (metadata unavailable)"@,
{
    let mut s = name.to_string();
    s.append(" (metadata unavailable)");
    s
}

/// The report of a created branch, and of the branch it is stacked on.
pub open spec fn branch_created_spec(name: Seq<char>, stacked_on: Option<Seq<char>>) -> Seq<char> {
    match stacked_on {
        Some(parent) => "Branch '"@ + name + "' created, stacked on '"@ + parent + "'"@,
        None => "Branch '"@ + name + "' created"@,
    }
}

/// The report of a created branch, and of the branch it is stacked on.
pub fn branch_created_text(name: &str, stacked_on: Option<&str>) -> (r: String)
    ensures
        r@ == branch_created_spec(name@, match stacked_on {
            Some(p) => Some(p@),
            None => None,
        }),
{
    let mut s = "Branch '".to_string();
    s.append(name);
    match stacked_on {
        Some(parent) => {
            s.append("' created, stacked on '");
            s.append(parent);
            s.append("'");
        },
        None => {
            s.append("' created");
        },
    }
    s
}

/// The error of a build that failed, with what the compiler printed.
pub fn compile_failed_error(stderr: &str) -> (r: McAgentError)
    ensures
        r@ == ErrorView::CompilationFailed("Compilation failed:\n"@ + stderr@),
{
    let mut s = "Compilation failed:\n".to_string();
    s.append(stderr);
    McAgentError::CompilationFailed(s)
}

/// The error of a build that left no module where it was expected.
pub fn wasm_missing_error(path: &str) -> (r: McAgentError)
    ensures
        r@ == ErrorView::CompilationFailed("Compiled WASM not found at "@ + path@),
{
    let mut s = "Compiled WASM not found at ".to_string();
    s.append(path);
    McAgentError::CompilationFailed(s)
}

/// The answer to a path that leaves the agent's copy.
pub fn path_traversal_text() -> (r: String)
    ensures
        r@ == "Path traversal not allowed"@,
{
    "Path traversal not allowed".to_string()
}

/// The answer to a search that found nothing.
pub fn no_matches_text() -> (r: String)
    ensures
        r@ == "No matches found."@,
{
    "No matches found.".to_string()
}

/// The report of a destroyed agent.
pub fn agent_destroyed_text(id: &str) -> (r: String)
    ensures
        r@ == "Agent "@ + id@ + " destroyed."@,
{
    let mut s = "Agent ".to_string();
    s.append(id);
    s.append(" destroyed.");
    s
}

/// The report of an initialized workspace.
pub fn workspace_initialized_text(root: &str) -> (r: String)
    ensures
        r@ == "Workspace initialized at "@ + root@,
{
    let mut s = "Workspace initialized at ".to_string();
    s.append(root);
    s
}

/// The report of a written file.
pub fn written_text(bytes: usize, path: &str) -> (r: String)
    ensures
        r@ == "Written "@ + decimal(bytes as nat) + " bytes to "@ + path@,
{
    let mut s = "Written ".to_string();
    let n = string_from_chars(&decimal_chars(bytes));
    s.append(n.as_str());
    s.append(" bytes to ");
    s.append(path);
    s
}

/// One entry of a directory listing: its kind (`dir` or `file`) and name.
pub fn dir_entry_line(is_dir: bool, name: &str) -> (r: String)
    ensures
        r@ == (if is_dir { "  dir  "@ } else { "  file  "@ }) + name@,
{
    let mut s = if is_dir {
        "  dir  ".to_string()
    } else {
        "  file  ".to_string()
    };
    s.append(name);
    s
}

/// The report of a compiled tool.
pub fn compiled_to_text(path: &str) -> (r: String)
    ensures
        r@ == "Compiled to "@ + path@,
{
    let mut s = "Compiled to ".to_string();
    s.append(path);
    s
}

/// The report of a tool written and compiled.
pub fn tool_created_text(name: &str, path: &str) -> (r: String)
    ensures
        r@ == "Tool '"@ + name@ + "' created and compiled: "@ + path@,
{
    let mut s = "Tool '".to_string();
    s.append(name);
    s.append("' created and compiled: ");
    s.append(path);
    s
}

/// The report of a pushed branch and the pull request asked for.
pub fn pushed_text(branch: &str, title: &str, description: &str) -> (r: String)
    ensures
        r@ == "Branch '"@ + branch@ + "' pushed.\nPR: title="@ + title@ + ", description="@
            + description@,
{
    let mut s = "Branch '".to_string();
    s.append(branch);
    s.append("' pushed.\nPR: title=");
    s.append(title);
    s.append(", description=");
    s.append(description);
    s
}

} // verus!
