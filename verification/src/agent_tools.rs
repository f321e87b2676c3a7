//! The logic of the server's tools that agents call: keeping file access
//! inside an agent's copy, searching file contents, and the lines the tools
//! report.

use vstd::prelude::*;
use vstd::string::StringExecFns;
use crate::paths::{
    components, dot_dot, is_absolute, is_within, law_descending_path_within, path_join,
    path_joined, within,
};
use crate::text::{
    chars_of, contains_seq, decimal, decimal_chars, line_spans, lines, push_all, push_span,
    span_contains, span_texts, spans_within, string_from_chars,
};
use crate::types::{Agent, BranchInfo, DiffKind, FileDiff, ToolMetadata, WasiTarget};
use crate::cowfs::CowLayer;
use crate::gitbutler::GitButlerCli;
use crate::executor::views;

verus! {

broadcast use vstd::string::group_string_axioms;

/// A path under an agent's working directory: `rel` joined to it, allowed
/// only when the result, with its `"."` and `".."` components resolved,
/// still lies in the working directory. So an absolute path elsewhere is
/// refused, and so is a relative one that climbs out (`"../x"`); a relative
/// path that only goes down is always allowed.
pub fn resolve_in_working_dir(working_dir: &str, rel: &str) -> (r: Option<String>)
    ensures
        match r {
            Some(p) => p@ == path_joined(working_dir@, rel@) && within(p@, working_dir@),
            None => !within(path_joined(working_dir@, rel@), working_dir@),
        },
        !is_absolute(rel@) && working_dir@.len() > 0 && working_dir@.last() != '/' && (forall|
            i: int,
        |
            0 <= i < components(rel@).len() ==> components(rel@)[i] != dot_dot()) ==> r is Some,
{
    proof {
        if !is_absolute(rel@) && working_dir@.len() > 0 && working_dir@.last() != '/' && (forall|
            i: int,
        |
            0 <= i < components(rel@).len() ==> components(rel@)[i] != dot_dot()) {
            law_descending_path_within(working_dir@, rel@);
        }
    }
    let joined = path_join(working_dir, rel);
    if is_within(joined.as_str(), working_dir) {
        Some(joined)
    } else {
        None
    }
}

/// The directory an optional relative path names under an agent's working
/// directory: the working directory itself when there is none.
pub fn resolve_dir_in_working_dir(working_dir: &str, rel: Option<&str>) -> (r: Option<String>)
    ensures
        rel is None ==> (r matches Some(p) && p@ == working_dir@),
        rel matches Some(x) ==> match r {
            Some(p) => p@ == path_joined(working_dir@, x@) && within(p@, working_dir@),
            None => !within(path_joined(working_dir@, x@), working_dir@),
        },
{
    match rel {
        Some(x) => resolve_in_working_dir(working_dir, x),
        None => {
            Some(working_dir.to_string())
        },
    }
}

/// A search hit: `<rel>:<line number>: <line>`.
pub open spec fn hit_line(rel: Seq<char>, number: nat, line: Seq<char>) -> Seq<char> {
    rel + ":"@ + decimal(number) + ": "@ + line
}

/// The hits among lines `ls` (numbered from 1) that contain `pattern`.
pub open spec fn search_spec(rel: Seq<char>, ls: Seq<Seq<char>>, pattern: Seq<char>) -> Seq<
    Seq<char>,
>
    decreases ls.len(),
{
    if ls.len() == 0 {
        Seq::empty()
    } else {
        search_spec(rel, ls.drop_last(), pattern) + if contains_seq(ls.last(), pattern) {
            seq![hit_line(rel, ls.len(), ls.last())]
        } else {
            Seq::<Seq<char>>::empty()
        }
    }
}

/// The lines of a file's content that contain `pattern`, each reported as
/// `<rel>:<line number>: <line>`.
pub fn search_lines(rel: &str, content: &str, pattern: &str) -> (r: Vec<String>)
    ensures
        views(r@) == search_spec(rel@, lines(content@), pattern@),
{
    let c = chars_of(content);
    let p = chars_of(pattern);
    let relc = chars_of(rel);
    let colon = chars_of(":");
    let sep = chars_of(": ");
    let spans = line_spans(&c);
    let ghost ls = span_texts(c@, spans@);
    let mut out: Vec<String> = Vec::new();
    let mut k: usize = 0;
    while k < spans.len()
        invariant
            k <= spans@.len(),
            spans@.len() <= c@.len(),
            spans_within(c@.len(), spans@),
            ls == span_texts(c@, spans@),
            ls == lines(content@),
            p@ == pattern@,
            relc@ == rel@,
            colon@ == ":"@,
            sep@ == ": "@,
            views(out@) == search_spec(rel@, ls.take(k as int), pattern@),
        decreases spans@.len() - k,
    {
        let (lo, hi) = spans[k];
        assert(spans@[k as int].0 <= spans@[k as int].1 <= c@.len());
        assert(ls[k as int] == c@.subrange(lo as int, hi as int));
        assert(ls.take(k + 1).drop_last() =~= ls.take(k as int));
        assert(ls.take(k + 1).last() == ls[k as int]);
        let ghost before = out@;
        if span_contains(&c, lo, hi, &p) {
            let mut line: Vec<char> = Vec::new();
            push_all(&mut line, &relc);
            push_all(&mut line, &colon);
            let num = decimal_chars(k + 1);
            push_all(&mut line, &num);
            push_all(&mut line, &sep);
            push_span(&mut line, &c, lo, hi);
            out.push(string_from_chars(&line));
            assert(views(out@) =~= views(before).push(
                hit_line(rel@, (k + 1) as nat, ls[k as int]),
            ));
        }
        k = k + 1;
    }
    assert(ls.take(spans@.len() as int) =~= ls);
    out
}

/// The report line of a branch: `  <name>`, with ` (stacked on <parent>)`
/// when it is stacked.
pub fn branch_line(b: &BranchInfo) -> (r: String)
    ensures
        r@ == "  "@ + b.name@ + match b.stacked_on {
            Some(p) => " (stacked on "@ + p@ + ")"@,
            None => Seq::<char>::empty(),
        },
{
    let mut s = "  ".to_string();
    s.append(b.name.as_str());
    match &b.stacked_on {
        Some(p) => {
            s.append(" (stacked on ");
            s.append(p.as_str());
            s.append(")");
        },
        None => {},
    }
    s
}

/// The name of a target as the tool list shows it.
pub open spec fn target_name(t: WasiTarget) -> Seq<char> {
    match t {
        WasiTarget::Preview1 => "preview1"@,
        WasiTarget::Preview2 => "preview2"@,
    }
}

/// The summary of a tool: `<name> v<version> - <description> [<target>]`.
pub fn tool_summary(meta: &ToolMetadata) -> (r: String)
    ensures
        r@ == meta.name@ + " v"@ + meta.version@ + " - "@ + meta.description@ + " ["@
            + target_name(meta.wasi_target) + "]"@,
{
    let mut s = meta.name.clone();
    s.append(" v");
    s.append(meta.version.as_str());
    s.append(" - ");
    s.append(meta.description.as_str());
    s.append(" [");
    match meta.wasi_target {
        WasiTarget::Preview1 => s.append("preview1"),
        WasiTarget::Preview2 => s.append("preview2"),
    }
    s.append("]");
    s
}

/// The paths of a list of changes, in order.
pub fn changed_paths(diffs: &Vec<FileDiff>) -> (r: Vec<String>)
    ensures
        views(r@) == diffs@.map_values(|d: FileDiff| d.path@),
{
    let mut out: Vec<String> = Vec::new();
    let mut k: usize = 0;
    while k < diffs.len()
        invariant
            k <= diffs@.len(),
            views(out@) == diffs@.take(k as int).map_values(|d: FileDiff| d.path@),
        decreases diffs@.len() - k,
    {
        let ghost before = out@;
        out.push(diffs[k].path.clone());
        assert(views(out@) =~= views(before).push(diffs@[k as int].path@));
        assert(diffs@.take(k + 1).map_values(|d: FileDiff| d.path@) =~= diffs@.take(
            k as int,
        ).map_values(|d: FileDiff| d.path@).push(diffs@[k as int].path@));
        k = k + 1;
    }
    assert(diffs@.take(diffs@.len() as int) =~= diffs@);
    out
}

/// One file a commit brings from an agent's copy into the project's
/// workspace: the file at `from` copied over `to`, or `to` removed.
#[derive(Debug)]
pub struct FileSync {
    pub from: String,
    pub to: String,
    pub remove: bool,
}

/// A file sync as plain values.
pub open spec fn sync_view(s: FileSync) -> (Seq<char>, Seq<char>, bool) {
    (s.from@, s.to@, s.remove)
}

/// The sync a change asks for: the file at the change's path in the copy
/// goes to the same path in the project, or is removed there when the copy
/// deleted it.
pub open spec fn sync_for(copy: Seq<char>, base: Seq<char>, d: FileDiff) -> (
    Seq<char>,
    Seq<char>,
    bool,
) {
    (path_joined(copy, d.path@), path_joined(base, d.path@), d.kind == DiffKind::Deleted)
}

/// What committing an agent's changes comes to.
#[derive(Debug)]
pub enum CommitPlan {
    /// The copy does not differ from the project: no command runs.
    NothingToCommit,
    /// Bring each changed file into the project's workspace, then run `but`
    /// with these arguments, which commit exactly those files to the
    /// agent's branch.
    Commit { sync: Vec<FileSync>, args: Vec<String> },
}

/// Plan the commit of an agent's changes (`diffs`, as its layer's diff
/// reports them) to the agent's own branch: nothing when there are none;
/// otherwise every changed file brought from the agent's copy into the
/// project (a deleted one removed there), and a `but commit` of those paths
/// with `--branch` naming the agent's branch.
pub fn plan_commit(agent: &Agent, layer: &CowLayer, message: &str, diffs: &Vec<FileDiff>) -> (r:
    CommitPlan)
    ensures
        (diffs@.len() == 0) == (r is NothingToCommit),
        r matches CommitPlan::Commit { sync, args } ==> {
            &&& sync@.map_values(|s: FileSync| sync_view(s)) == diffs@.map_values(
                |d: FileDiff| sync_for(layer.agent_path_spec(), layer.base_spec(), d),
            )
            &&& views(args@) == seq!["commit"@, "-m"@, message@, "--branch"@, agent.branch_name@]
                + diffs@.map_values(|d: FileDiff| d.path@)
            &&& sync@.len() == diffs@.len()
            &&& forall|i: int|
                0 <= i < sync@.len() ==> (#[trigger] sync@[i]).remove == (diffs@[i].kind
                    == DiffKind::Deleted) && sync@[i].from@ == path_joined(
                    layer.agent_path_spec(),
                    diffs@[i].path@,
                ) && sync@[i].to@ == path_joined(layer.base_spec(), diffs@[i].path@)
        },
{
    if diffs.len() == 0 {
        return CommitPlan::NothingToCommit;
    }
    let copy = layer.working_dir();
    let base = layer.base_path();
    let ghost want = diffs@.map_values(|d: FileDiff| sync_for(copy@, base@, d));
    let mut sync: Vec<FileSync> = Vec::new();
    let mut k: usize = 0;
    while k < diffs.len()
        invariant
            k <= diffs@.len(),
            want == diffs@.map_values(|d: FileDiff| sync_for(copy@, base@, d)),
            sync@.map_values(|s: FileSync| sync_view(s)) == want.take(k as int),
        decreases diffs@.len() - k,
    {
        let d = &diffs[k];
        let remove = match d.kind {
            DiffKind::Deleted => true,
            _ => false,
        };
        let ghost before = sync@;
        sync.push(FileSync { from: path_join(copy, d.path.as_str()), to: path_join(base, d.path.as_str()), remove });
        assert(sync@.map_values(|s: FileSync| sync_view(s)) =~= before.map_values(
            |s: FileSync| sync_view(s),
        ).push(want[k as int]));
        assert(want.take(k + 1) =~= want.take(k as int).push(want[k as int]));
        k = k + 1;
    }
    assert(want.take(diffs@.len() as int) =~= want);
    assert forall|i: int| 0 <= i < sync@.len() implies (#[trigger] sync@[i]).remove == (
    diffs@[i].kind == DiffKind::Deleted) && sync@[i].from@ == path_joined(copy@, diffs@[i].path@)
        && sync@[i].to@ == path_joined(base@, diffs@[i].path@) by {
        assert(sync@.map_values(|s: FileSync| sync_view(s))[i] == want[i]);
    }
    let paths = changed_paths(diffs);
    let args = GitButlerCli::commit_args(message, agent.branch_name.as_str(), &paths);
    CommitPlan::Commit { sync, args }
}

/// Only deletions are removals: the sync of a change copies the file from the
/// agent's copy to the same path in the project, unless the change is a
/// deletion, which removes it there. An added or modified file is always
/// copied.
pub proof fn law_only_deletions_remove(copy: Seq<char>, base: Seq<char>, d: FileDiff)
    ensures
        sync_for(copy, base, d).2 <==> d.kind == DiffKind::Deleted,
        d.kind == DiffKind::Added || d.kind == DiffKind::Modified ==> !sync_for(copy, base, d).2,
        sync_for(copy, base, d).0 == path_joined(copy, d.path@),
        sync_for(copy, base, d).1 == path_joined(base, d.path@),
{
}

} // verus!
