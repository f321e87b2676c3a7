//! The copy-on-write layer of an agent: where its copy of the project lives,
//! which entries the copy takes, and how the copy differs from the base.

use vstd::prelude::*;
use crate::paths::{is_within, path_join, path_joined, within};
use crate::text::chars_of;
use crate::types::{AgentId, DiffKind, ErrorView, FileDiff, McAgentError};

verus! {

/// A copy-on-write layer for an agent: the project it copies and the
/// directory holding the agent's copy.
#[derive(Debug)]
pub struct CowLayer {
    base_path: String,
    agent_path: String,
    agent_id: AgentId,
}

/// A file of the agent's copy, by its path relative to the copy's root,
/// with its content and the content of the base file at the same relative
/// path (none when the base has nothing there).
#[derive(Debug)]
pub struct AgentFile {
    pub path: String,
    pub content: Vec<u8>,
    pub base_content: Option<Vec<u8>>,
}

/// A file of the base project, by its relative path, and whether the
/// agent's copy has something at that path.
#[derive(Debug)]
pub struct BaseFile {
    pub path: String,
    pub in_agent: bool,
}

/// The change one agent file records, if any: added when the base has
/// nothing at its path, modified when the contents differ.
pub open spec fn agent_change(f: AgentFile) -> Option<(Seq<char>, DiffKind)> {
    match f.base_content {
        None => Some((f.path@, DiffKind::Added)),
        Some(b) => if b@ != f.content@ {
            Some((f.path@, DiffKind::Modified))
        } else {
            None
        },
    }
}

/// The change one base file records: deleted when the copy lacks it.
pub open spec fn base_change(f: BaseFile) -> Option<(Seq<char>, DiffKind)> {
    if f.in_agent {
        None
    } else {
        Some((f.path@, DiffKind::Deleted))
    }
}

/// The changes of the agent files, in order.
pub open spec fn agent_changes(files: Seq<AgentFile>) -> Seq<(Seq<char>, DiffKind)>
    decreases files.len(),
{
    if files.len() == 0 {
        Seq::empty()
    } else {
        agent_changes(files.drop_last()) + match agent_change(files.last()) {
            Some(c) => seq![c],
            None => Seq::empty(),
        }
    }
}

/// The changes of the base files, in order.
pub open spec fn base_changes(files: Seq<BaseFile>) -> Seq<(Seq<char>, DiffKind)>
    decreases files.len(),
{
    if files.len() == 0 {
        Seq::empty()
    } else {
        base_changes(files.drop_last()) + match base_change(files.last()) {
            Some(c) => seq![c],
            None => Seq::empty(),
        }
    }
}

/// The views of a list of diffs.
pub open spec fn diff_views(v: Seq<FileDiff>) -> Seq<(Seq<char>, DiffKind)> {
    v.map_values(|d: FileDiff| (d.path@, d.kind))
}

/// Whether copying the project for an agent takes the entry at `path`: the
/// copy is a clone of the whole project, hidden entries included, but for
/// the directory that holds the agents' copies (which would otherwise be
/// copied into itself) and everything in it.
pub fn copy_includes(path: &str, agents_dir: &str) -> (b: bool)
    ensures
        b == !within(path@, agents_dir@),
{
    !is_within(path, agents_dir)
}

/// An entry is hidden when its name starts with `'.'`.
pub open spec fn hidden(name: Seq<char>) -> bool {
    name.len() > 0 && name[0] == '.'
}

/// Whether a directory entry name is hidden (such entries, and all below
/// them, are left out of diffs).
pub fn is_hidden(name: &str) -> (b: bool)
    ensures
        b == hidden(name@),
{
    let c = chars_of(name);
    c.len() > 0 && c[0] == '.'
}

proof fn lemma_agent_changes_empty(files: Seq<AgentFile>)
    ensures
        agent_changes(files).len() == 0 <==> forall|i: int|
            0 <= i < files.len() ==> agent_change(#[trigger] files[i]) is None,
    decreases files.len(),
{
    if files.len() > 0 {
        lemma_agent_changes_empty(files.drop_last());
        assert forall|i: int| 0 <= i < files.len() - 1 implies #[trigger] files.drop_last()[i]
            == files[i] by {}
        if agent_changes(files).len() == 0 {
            assert forall|i: int| 0 <= i < files.len() implies agent_change(
                #[trigger] files[i],
            ) is None by {
                if i < files.len() - 1 {
                    assert(files.drop_last()[i] == files[i]);
                }
            }
        }
    }
}

proof fn lemma_base_changes_empty(files: Seq<BaseFile>)
    ensures
        base_changes(files).len() == 0 <==> forall|i: int|
            0 <= i < files.len() ==> (#[trigger] files[i]).in_agent,
    decreases files.len(),
{
    if files.len() > 0 {
        lemma_base_changes_empty(files.drop_last());
        assert forall|i: int| 0 <= i < files.len() - 1 implies #[trigger] files.drop_last()[i]
            == files[i] by {}
        if base_changes(files).len() == 0 {
            assert forall|i: int| 0 <= i < files.len() implies (#[trigger] files[i]).in_agent by {
                if i < files.len() - 1 {
                    assert(files.drop_last()[i] == files[i]);
                }
            }
        }
    }
}

/// Whether two byte strings are equal.
fn bytes_equal(a: &Vec<u8>, b: &Vec<u8>) -> (r: bool)
    ensures
        r == (a@ == b@),
{
    if a.len() != b.len() {
        return false;
    }
    let mut i: usize = 0;
    while i < a.len()
        invariant
            a@.len() == b@.len(),
            i <= a@.len(),
            forall|k: int| 0 <= k < i ==> a@[k] == b@[k],
        decreases a@.len() - i,
    {
        if a[i] != b[i] {
            return false;
        }
        i = i + 1;
    }
    assert(a@ =~= b@);
    true
}

impl CowLayer {
    /// The project the layer copies.
    pub closed spec fn base_spec(&self) -> Seq<char> {
        self.base_path@
    }

    /// The directory holding the agent's copy.
    pub closed spec fn agent_path_spec(&self) -> Seq<char> {
        self.agent_path@
    }

    /// The agent the layer belongs to.
    pub closed spec fn agent_id_spec(&self) -> Seq<char> {
        self.agent_id@
    }

    /// The directory an agent's copy goes to.
    pub fn agent_path_for(agents_dir: &str, agent_id: &AgentId) -> (r: String)
        ensures
            r@ == path_joined(agents_dir@, agent_id@),
    {
        path_join(agents_dir, agent_id.as_str())
    }

    /// Create a new COW layer for an agent, whose copy goes to
    /// `agents_dir/<agent_id>`. An agent whose directory already exists is
    /// refused; otherwise the caller copies the project there.
    pub fn create(base_path: &str, agents_dir: &str, agent_id: &AgentId, agent_path_exists: bool) -> (r:
        Result<CowLayer, McAgentError>)
        ensures
            agent_path_exists ==> (r matches Err(e) && e@ == ErrorView::AgentAlreadyExists(
                agent_id@,
            )),
            !agent_path_exists ==> (r matches Ok(l) && l.base_spec() == base_path@
                && l.agent_path_spec() == path_joined(agents_dir@, agent_id@) && l.agent_id_spec()
                == agent_id@),
    {
        if agent_path_exists {
            return Err(McAgentError::AgentAlreadyExists(agent_id.duplicate()));
        }
        Ok(
            CowLayer {
                base_path: base_path.to_string(),
                agent_path: Self::agent_path_for(agents_dir, agent_id),
                agent_id: agent_id.duplicate(),
            },
        )
    }

    /// Returns the path to the agent's isolated working directory.
    pub fn working_dir(&self) -> (r: &str)
        ensures
            r@ == self.agent_path_spec(),
    {
        self.agent_path.as_str()
    }

    /// Returns the base project path.
    pub fn base_path(&self) -> (r: &str)
        ensures
            r@ == self.base_spec(),
    {
        self.base_path.as_str()
    }

    /// Returns the agent the layer belongs to.
    pub fn agent_id(&self) -> (r: &AgentId)
        ensures
            r@ == self.agent_id_spec(),
    {
        &self.agent_id
    }

    /// The diff between the agent's copy and the base: the agent's files
    /// that are added or modified, in order, then the base files the copy
    /// deleted, in order. It is empty exactly when every agent file has an
    /// equal base file and every base file is still in the copy.
    pub fn diff(&self, agent_files: &Vec<AgentFile>, base_files: &Vec<BaseFile>) -> (r: Vec<
        FileDiff,
    >)
        ensures
            diff_views(r@) == agent_changes(agent_files@) + base_changes(base_files@),
            r@.len() == 0 <==> (forall|i: int|
                0 <= i < agent_files@.len() ==> ((#[trigger] agent_files@[i]).base_content matches Some(
                    b,
                ) && b@ == agent_files@[i].content@)) && (forall|i: int|
                0 <= i < base_files@.len() ==> (#[trigger] base_files@[i]).in_agent),
    {
        let mut out: Vec<FileDiff> = Vec::new();
        let mut k: usize = 0;
        while k < agent_files.len()
            invariant
                k <= agent_files@.len(),
                diff_views(out@) == agent_changes(agent_files@.take(k as int)),
            decreases agent_files@.len() - k,
        {
            let f = &agent_files[k];
            let ghost before = out@;
            assert(agent_files@.take(k + 1).drop_last() =~= agent_files@.take(k as int));
            assert(agent_files@.take(k + 1).last() == agent_files@[k as int]);
            match &f.base_content {
                None => {
                    out.push(FileDiff { path: f.path.clone(), kind: DiffKind::Added });
                    assert(diff_views(out@) =~= diff_views(before).push((f.path@, DiffKind::Added)));
                },
                Some(b) => {
                    if !bytes_equal(b, &f.content) {
                        out.push(FileDiff { path: f.path.clone(), kind: DiffKind::Modified });
                        assert(diff_views(out@) =~= diff_views(before).push(
                            (f.path@, DiffKind::Modified),
                        ));
                    }
                },
            }
            assert(diff_views(out@) =~= agent_changes(agent_files@.take(k + 1)));
            k = k + 1;
        }
        assert(agent_files@.take(agent_files@.len() as int) =~= agent_files@);
        let ghost agent_part = diff_views(out@);
        let mut j: usize = 0;
        assert(base_files@.take(0) =~= Seq::<BaseFile>::empty());
        assert(agent_part + base_changes(base_files@.take(0)) =~= agent_part);
        while j < base_files.len()
            invariant
                j <= base_files@.len(),
                agent_part == agent_changes(agent_files@),
                diff_views(out@) == agent_part + base_changes(base_files@.take(j as int)),
            decreases base_files@.len() - j,
        {
            let f = &base_files[j];
            let ghost before = out@;
            assert(base_files@.take(j + 1).drop_last() =~= base_files@.take(j as int));
            assert(base_files@.take(j + 1).last() == base_files@[j as int]);
            if !f.in_agent {
                out.push(FileDiff { path: f.path.clone(), kind: DiffKind::Deleted });
                assert(diff_views(out@) =~= diff_views(before).push((f.path@, DiffKind::Deleted)));
            }
            assert(diff_views(out@) =~= agent_part + base_changes(base_files@.take(j + 1)));
            j = j + 1;
        }
        assert(base_files@.take(base_files@.len() as int) =~= base_files@);
        proof {
            lemma_agent_changes_empty(agent_files@);
            lemma_base_changes_empty(base_files@);
        }
        out
    }
}

/// What one file of the copy records: added when the base has nothing at its
/// path, modified when both have it with different contents, nothing when
/// the contents are equal. A file of the copy is never reported deleted,
/// however its contents changed.
pub proof fn law_agent_file_change(f: AgentFile)
    ensures
        f.base_content is None ==> agent_change(f) == Some((f.path@, DiffKind::Added)),
        f.base_content matches Some(b) && b@ != f.content@ ==> agent_change(f) == Some(
            (f.path@, DiffKind::Modified),
        ),
        f.base_content matches Some(b) && b@ == f.content@ ==> agent_change(f) is None,
        agent_change(f) matches Some(c) ==> c.0 == f.path@ && c.1 != DiffKind::Deleted,
{
}

/// Deletions come only from base files the copy no longer has: every change
/// of the copy's files is an addition or a modification of one of them, and
/// every change of the base files is the deletion of one the copy lacks.
pub proof fn law_deleted_only_from_base(agent_files: Seq<AgentFile>, base_files: Seq<BaseFile>)
    ensures
        forall|i: int|
            0 <= i < agent_changes(agent_files).len() ==> (#[trigger] agent_changes(
                agent_files,
            )[i]).1 != DiffKind::Deleted,
        forall|i: int|
            0 <= i < base_changes(base_files).len() ==> (#[trigger] base_changes(base_files)[i]).1
                == DiffKind::Deleted && exists|j: int|
                0 <= j < base_files.len() && !base_files[j].in_agent && base_files[j].path@
                    == base_changes(base_files)[i].0,
    decreases agent_files.len() + base_files.len(),
{
    if agent_files.len() > 0 {
        law_deleted_only_from_base(agent_files.drop_last(), base_files);
        law_agent_file_change(agent_files.last());
    }
    if base_files.len() > 0 {
        law_deleted_only_from_base(agent_files, base_files.drop_last());
        let prev = base_changes(base_files.drop_last());
        assert forall|i: int| 0 <= i < base_changes(base_files).len() implies (#[trigger] base_changes(
            base_files,
        )[i]).1 == DiffKind::Deleted && exists|j: int|
            0 <= j < base_files.len() && !base_files[j].in_agent && base_files[j].path@
                == base_changes(base_files)[i].0 by {
            if i < prev.len() {
                assert(base_changes(base_files)[i] == prev[i]);
                let j = choose|j: int|
                    0 <= j < base_files.drop_last().len() && !base_files.drop_last()[j].in_agent
                        && base_files.drop_last()[j].path@ == prev[i].0;
                assert(base_files[j] == base_files.drop_last()[j]);
            } else {
                let j = base_files.len() - 1;
                assert(base_files[j] == base_files.last());
            }
        }
    }
}

} // verus!
