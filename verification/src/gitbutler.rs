//! The GitButler CLI (`but`): the command lines for each operation and the
//! reading of what the commands print.

use vstd::prelude::*;
use vstd::string::StringExecFns;
use crate::executor::views;
use crate::text::{
    chars_of, line_spans, lines, span_texts, spans_within, string_from_chars, trim, trim_span,
    push_span,
};
use crate::types::{BranchInfo, CommitInfo, ErrorView, McAgentError, WorkspaceStatus};

verus! {

broadcast use vstd::string::group_string_axioms;

/// Runs `but` commands in a project.
#[derive(Debug)]
pub struct GitButlerCli {
    project_path: String,
}

/// Parts joined with `' '` between them (what `join(" ")` gives).
pub open spec fn join_sp(parts: Seq<Seq<char>>) -> Seq<char>
    decreases parts.len(),
{
    if parts.len() == 0 {
        Seq::empty()
    } else if parts.len() == 1 {
        parts[0]
    } else {
        join_sp(parts.drop_last()) + seq![' '] + parts.last()
    }
}

/// The error for a `but` command that failed.
pub open spec fn command_failed(args: Seq<Seq<char>>, stderr: Seq<char>) -> ErrorView {
    ErrorView::GitButler("`but "@ + join_sp(args) + "` failed: "@ + stderr)
}

/// The branches a `but branch list` output names: its non-blank lines, trimmed.
pub open spec fn branch_names(ls: Seq<Seq<char>>) -> Seq<Seq<char>>
    decreases ls.len(),
{
    if ls.len() == 0 {
        Seq::empty()
    } else {
        branch_names(ls.drop_last()) + if trim(ls.last()).len() == 0 {
            Seq::<Seq<char>>::empty()
        } else {
            seq![trim(ls.last())]
        }
    }
}

/// A branch record that only knows the branch's name and parent.
pub open spec fn plain_branch(b: BranchInfo, name: Seq<char>, parent: Option<Seq<char>>) -> bool {
    &&& b.name@ == name
    &&& b.id is None
    &&& b.upstream is None
    &&& match (b.stacked_on, parent) {
        (Some(s), Some(p)) => s@ == p,
        (None, None) => true,
        _ => false,
    }
}

/// Strings joined with spaces.
fn join_with_spaces(parts: &Vec<String>) -> (r: String)
    ensures
        r@ == join_sp(views(parts@)),
{
    let mut out = String::new();
    let mut k: usize = 0;
    while k < parts.len()
        invariant
            k <= parts@.len(),
            out@ == join_sp(views(parts@).take(k as int)),
        decreases parts@.len() - k,
    {
        assert(views(parts@).take(k + 1).drop_last() =~= views(parts@).take(k as int));
        if k > 0 {
            proof {
                reveal_strlit(" ");
            }
            out.append(" ");
            assert(views(parts@).take(k + 1).last() == parts@[k as int]@);
        } else {
            assert(views(parts@).take(1) =~= seq![parts@[0]@]);
            assert(out@ =~= Seq::<char>::empty());
        }
        out.append(parts[k].as_str());
        assert(out@ =~= join_sp(views(parts@).take(k + 1)));
        k = k + 1;
    }
    assert(views(parts@).take(parts@.len() as int) =~= views(parts@));
    out
}

/// The outcome of a `but` command: its standard output when it succeeded,
/// else an error quoting the command line and its standard error.
pub fn command_output(args: &Vec<String>, success: bool, stdout: String, stderr: &str) -> (r:
    Result<String, McAgentError>)
    ensures
        success ==> (r matches Ok(s) && s@ == stdout@),
        !success ==> (r matches Err(e) && e@ == command_failed(views(args@), stderr@)),
{
    if success {
        return Ok(stdout);
    }
    let mut msg = "`but ".to_string();
    let joined = join_with_spaces(args);
    msg.append(joined.as_str());
    msg.append("` failed: ");
    msg.append(stderr);
    Err(McAgentError::GitButler(msg))
}

/// The JSON text of a `but` command's output, for commands that print JSON:
/// none when the output is blank (the command printed nothing to parse).
pub fn json_output(args: &Vec<String>, success: bool, stdout: String, stderr: &str) -> (r: Result<
    Option<String>,
    McAgentError,
>)
    ensures
        success && trim(stdout@).len() == 0 ==> r matches Ok(None),
        success && trim(stdout@).len() > 0 ==> (r matches Ok(Some(s)) && s@ == stdout@),
        !success ==> (r matches Err(e) && e@ == command_failed(views(args@), stderr@)),
{
    match command_output(args, success, stdout, stderr) {
        Ok(out) => {
            let c = chars_of(out.as_str());
            let (a, b) = trim_span(&c, 0, c.len());
            assert(c@.subrange(0, c@.len() as int) =~= c@);
            if a == b {
                Ok(None)
            } else {
                Ok(Some(out))
            }
        },
        Err(e) => Err(e),
    }
}

/// A string with surrounding whitespace removed.
pub fn trimmed(s: &str) -> (r: String)
    ensures
        r@ == trim(s@),
{
    let c = chars_of(s);
    let (a, b) = trim_span(&c, 0, c.len());
    assert(c@.subrange(0, c@.len() as int) =~= c@);
    let mut out: Vec<char> = Vec::new();
    push_span(&mut out, &c, a, b);
    string_from_chars(&out)
}

/// The branches named by a `but branch list` output: one per non-blank line,
/// named by the trimmed line, knowing nothing else of it.
pub fn parse_branch_list(output: &str) -> (r: Vec<BranchInfo>)
    ensures
        r@.len() == branch_names(lines(output@)).len(),
        forall|i: int|
            0 <= i < r@.len() ==> plain_branch(
                #[trigger] r@[i],
                branch_names(lines(output@))[i],
                None,
            ),
{
    let c = chars_of(output);
    let spans = line_spans(&c);
    let ghost ls = span_texts(c@, spans@);
    let mut out: Vec<BranchInfo> = Vec::new();
    let mut k: usize = 0;
    while k < spans.len()
        invariant
            k <= spans@.len(),
            spans_within(c@.len(), spans@),
            ls == span_texts(c@, spans@),
            out@.len() == branch_names(ls.take(k as int)).len(),
            forall|i: int|
                0 <= i < out@.len() ==> plain_branch(
                    #[trigger] out@[i],
                    branch_names(ls.take(k as int))[i],
                    None,
                ),
        decreases spans@.len() - k,
    {
        let (lo, hi) = spans[k];
        assert(spans@[k as int].0 <= spans@[k as int].1 <= c@.len());
        assert(ls[k as int] == c@.subrange(lo as int, hi as int));
        assert(ls.take(k + 1).drop_last() =~= ls.take(k as int));
        assert(ls.take(k + 1).last() == ls[k as int]);
        let (a, b) = trim_span(&c, lo, hi);
        let ghost prev = branch_names(ls.take(k as int));
        if a < b {
            let mut name: Vec<char> = Vec::new();
            push_span(&mut name, &c, a, b);
            out.push(BranchInfo { name: string_from_chars(&name), id: None, upstream: None, stacked_on: None });
            assert(branch_names(ls.take(k + 1)) == prev.push(trim(ls[k as int])));
            assert forall|i: int| 0 <= i < out@.len() implies plain_branch(
                #[trigger] out@[i],
                branch_names(ls.take(k + 1))[i],
                None,
            ) by {
                if i < prev.len() {
                    assert(branch_names(ls.take(k + 1))[i] == prev[i]);
                }
            }
        } else {
            assert(branch_names(ls.take(k + 1)) =~= prev);
        }
        k = k + 1;
    }
    assert(ls.take(spans@.len() as int) =~= ls);
    out
}

impl GitButlerCli {
    /// The project the commands run in.
    pub closed spec fn project_spec(&self) -> Seq<char> {
        self.project_path@
    }

    pub fn new(project_path: &str) -> (r: Self)
        ensures
            r.project_spec() == project_path@,
    {
        GitButlerCli { project_path: project_path.to_string() }
    }

    /// The directory the commands run in.
    pub fn project_path(&self) -> (r: &str)
        ensures
            r@ == self.project_spec(),
    {
        self.project_path.as_str()
    }

    /// The arguments that create a branch: `branch create <name>`.
    pub fn create_branch_args(name: &str) -> (r: Vec<String>)
        ensures
            views(r@) == seq!["branch"@, "create"@, name@],
    {
        let mut v: Vec<String> = Vec::new();
        v.push("branch".to_string());
        v.push("create".to_string());
        v.push(name.to_string());
        assert(views(v@) =~= seq!["branch"@, "create"@, name@]);
        v
    }

    /// The arguments that create a branch stacked on another:
    /// `branch create --set-stack <parent> <name>`.
    pub fn create_stacked_branch_args(name: &str, parent: &str) -> (r: Vec<String>)
        ensures
            views(r@) == seq!["branch"@, "create"@, "--set-stack"@, parent@, name@],
    {
        let mut v: Vec<String> = Vec::new();
        v.push("branch".to_string());
        v.push("create".to_string());
        v.push("--set-stack".to_string());
        v.push(parent.to_string());
        v.push(name.to_string());
        assert(views(v@) =~= seq!["branch"@, "create"@, "--set-stack"@, parent@, name@]);
        v
    }

    /// The branch a successful `create_branch` reports.
    pub fn created_branch(name: &str, stacked_on: Option<&str>) -> (r: BranchInfo)
        ensures
            plain_branch(
                r,
                name@,
                match stacked_on {
                    Some(p) => Some(p@),
                    None => None,
                },
            ),
    {
        BranchInfo {
            name: name.to_string(),
            id: None,
            upstream: None,
            stacked_on: match stacked_on {
                Some(p) => Some(p.to_string()),
                None => None,
            },
        }
    }

    /// The arguments that list the branches: `branch list`.
    pub fn list_branches_args() -> (r: Vec<String>)
        ensures
            views(r@) == seq!["branch"@, "list"@],
    {
        let mut v: Vec<String> = Vec::new();
        v.push("branch".to_string());
        v.push("list".to_string());
        assert(views(v@) =~= seq!["branch"@, "list"@]);
        v
    }

    /// The arguments that commit files to a branch:
    /// `commit -m <message> --branch <branch> <files...>`.
    pub fn commit_args(message: &str, branch: &str, files: &Vec<String>) -> (r: Vec<String>)
        ensures
            views(r@) == seq!["commit"@, "-m"@, message@, "--branch"@, branch@] + views(files@),
    {
        let mut v: Vec<String> = Vec::new();
        v.push("commit".to_string());
        v.push("-m".to_string());
        v.push(message.to_string());
        v.push("--branch".to_string());
        v.push(branch.to_string());
        let ghost head = seq!["commit"@, "-m"@, message@, "--branch"@, branch@];
        assert(views(v@) =~= head + views(files@.take(0)));
        let mut k: usize = 0;
        while k < files.len()
            invariant
                k <= files@.len(),
                head == seq!["commit"@, "-m"@, message@, "--branch"@, branch@],
                views(v@) == head + views(files@.take(k as int)),
            decreases files@.len() - k,
        {
            let ghost before = v@;
            v.push(files[k].clone());
            assert(views(v@) =~= views(before).push(files@[k as int]@));
            assert(views(files@.take(k + 1)) =~= views(files@.take(k as int)).push(
                files@[k as int]@,
            ));
            k = k + 1;
        }
        assert(files@.take(files@.len() as int) =~= files@);
        v
    }

    /// The commit a successful `commit` reports: the trimmed output is its id.
    pub fn commit_info(message: &str, output: &str) -> (r: CommitInfo)
        ensures
            r.id@ == trim(output@),
            r.message@ == message@,
    {
        CommitInfo { id: trimmed(output), message: message.to_string() }
    }

    /// The arguments that push a branch: `branch push <branch>`.
    pub fn push_args(branch: &str) -> (r: Vec<String>)
        ensures
            views(r@) == seq!["branch"@, "push"@, branch@],
    {
        let mut v: Vec<String> = Vec::new();
        v.push("branch".to_string());
        v.push("push".to_string());
        v.push(branch.to_string());
        assert(views(v@) =~= seq!["branch"@, "push"@, branch@]);
        v
    }

    /// The workspace status a `branch list` output describes.
    pub fn status_from_output(output: &str) -> (r: WorkspaceStatus)
        ensures
            r.branches@.len() == branch_names(lines(output@)).len(),
            forall|i: int|
                0 <= i < r.branches@.len() ==> plain_branch(
                    #[trigger] r.branches@[i],
                    branch_names(lines(output@))[i],
                    None,
                ),
    {
        WorkspaceStatus { branches: parse_branch_list(output) }
    }
}

} // verus!
