//! The server's state: the project, its agents and their copy-on-write
//! layers, the GitButler CLI and the tool runner. Agents are kept in a table
//! keyed by their id, which the operations below read and change.

use vstd::prelude::*;
use vstd::string::StringExecFns;
use vstd::pervasive::VecAdditionalExecFns;
use crate::cowfs::CowLayer;
use crate::gitbutler::GitButlerCli;
use crate::paths::{path_join, path_joined};
use crate::runtime::WasiToolRunner;
use crate::text::{chars_of, span_eq};
use crate::types::{
    Agent, AgentConfig, AgentConfigView, AgentId, AgentState, AgentView, ErrorView, McAgentError,
};

verus! {

broadcast use vstd::string::group_string_axioms;

/// Shared state of the MCP server.
#[derive(Debug)]
pub struct ServerState {
    project_root: String,
    agents_dir: String,
    agents: Vec<Agent>,
    cow_layers: Vec<CowLayer>,
    gitbutler: GitButlerCli,
    wasi_runner: WasiToolRunner,
}

/// The agent table a list of agents describes: each agent under its id, a
/// later agent replacing an earlier one with the same id.
pub open spec fn table_of(agents: Seq<Agent>) -> Map<Seq<char>, AgentView>
    decreases agents.len(),
{
    if agents.len() == 0 {
        Map::empty()
    } else {
        table_of(agents.drop_last()).insert(agents.last().id@, agents.last()@)
    }
}

/// No two agents share an id.
pub open spec fn unique_ids(agents: Seq<Agent>) -> bool {
    forall|i: int, j: int| 0 <= i < j < agents.len() ==> agents[i].id@ != agents[j].id@
}

/// The branch an agent works on: the one its configuration asks for, else
/// `agent/<id>`.
pub open spec fn branch_for(requested: Option<Seq<char>>, id: Seq<char>) -> Seq<char> {
    match requested {
        Some(b) => b,
        None => "agent/"@ + id,
    }
}

/// The agent that creation makes from a configuration.
pub open spec fn new_agent(agents_dir: Seq<char>, config: AgentConfigView, id: Seq<char>) -> AgentView {
    AgentView {
        id,
        config,
        state: AgentState::Created,
        working_dir: path_joined(agents_dir, id),
        branch_name: branch_for(config.branch_name, id),
    }
}

/// Creating an agent: refused when its directory already exists, else the
/// new agent enters the table under its id.
pub open spec fn create_spec(
    table: Map<Seq<char>, AgentView>,
    agents_dir: Seq<char>,
    config: AgentConfigView,
    id: Seq<char>,
    dir_exists: bool,
) -> (Map<Seq<char>, AgentView>, Result<AgentView, ErrorView>) {
    if dir_exists {
        (table, Err(ErrorView::AgentAlreadyExists(id)))
    } else {
        let a = new_agent(agents_dir, config, id);
        (table.insert(id, a), Ok(a))
    }
}

/// Looking an agent up by id.
pub open spec fn get_spec(table: Map<Seq<char>, AgentView>, id: Seq<char>) -> Result<
    AgentView,
    ErrorView,
> {
    if table.dom().contains(id) {
        Ok(table[id])
    } else {
        Err(ErrorView::AgentNotFound(id))
    }
}

/// Destroying an agent: it leaves the table; an unknown id is an error.
pub open spec fn destroy_spec(table: Map<Seq<char>, AgentView>, id: Seq<char>) -> (
    Map<Seq<char>, AgentView>,
    Result<(), ErrorView>,
) {
    if table.dom().contains(id) {
        (table.remove(id), Ok(()))
    } else {
        (table, Err(ErrorView::AgentNotFound(id)))
    }
}

/// The view of an operation's outcome, without its value.
pub open spec fn unit_view<T>(r: Result<T, McAgentError>) -> Result<(), ErrorView> {
    match r {
        Ok(_) => Ok(()),
        Err(e) => Err(e@),
    }
}

/// The view of an operation's agent outcome.
pub open spec fn agent_result_view(r: Result<Agent, McAgentError>) -> Result<AgentView, ErrorView> {
    match r {
        Ok(a) => Ok(a@),
        Err(e) => Err(e@),
    }
}

proof fn lemma_table_contains(agents: Seq<Agent>, k: Seq<char>)
    ensures
        table_of(agents).dom().contains(k) <==> exists|i: int|
            0 <= i < agents.len() && (#[trigger] agents[i]).id@ == k,
    decreases agents.len(),
{
    if agents.len() > 0 {
        let rest = agents.drop_last();
        lemma_table_contains(rest, k);
        if table_of(agents).dom().contains(k) && agents.last().id@ != k {
            let i = choose|i: int| 0 <= i < rest.len() && (#[trigger] rest[i]).id@ == k;
            assert(agents[i] == rest[i]);
        }
        if exists|i: int| 0 <= i < agents.len() && (#[trigger] agents[i]).id@ == k {
            let i = choose|i: int| 0 <= i < agents.len() && (#[trigger] agents[i]).id@ == k;
            if i < agents.len() - 1 {
                assert(rest[i] == agents[i]);
            }
        }
    }
}

proof fn lemma_table_value(agents: Seq<Agent>, i: int)
    requires
        unique_ids(agents),
        0 <= i < agents.len(),
    ensures
        table_of(agents).dom().contains(agents[i].id@),
        table_of(agents)[agents[i].id@] == agents[i]@,
    decreases agents.len(),
{
    let rest = agents.drop_last();
    if i < agents.len() - 1 {
        assert(rest[i] == agents[i]);
        lemma_table_value(rest, i);
    }
}

proof fn lemma_table_update(agents: Seq<Agent>, i: int, a: Agent)
    requires
        unique_ids(agents),
        0 <= i < agents.len(),
        a.id@ == agents[i].id@,
    ensures
        table_of(agents.update(i, a)) == table_of(agents).insert(a.id@, a@),
    decreases agents.len(),
{
    let rest = agents.drop_last();
    if i == agents.len() - 1 {
        assert(agents.update(i, a).drop_last() =~= rest);
        assert(table_of(agents.update(i, a)) =~= table_of(agents).insert(a.id@, a@));
    } else {
        assert(agents.update(i, a).drop_last() =~= rest.update(i, a));
        assert(rest[i] == agents[i]);
        lemma_table_update(rest, i, a);
        assert(agents.last().id@ != a.id@);
        assert(table_of(agents.update(i, a)) =~= table_of(agents).insert(a.id@, a@));
    }
}

proof fn lemma_table_remove(agents: Seq<Agent>, i: int)
    requires
        unique_ids(agents),
        0 <= i < agents.len(),
    ensures
        table_of(agents.remove(i)) == table_of(agents).remove(agents[i].id@),
    decreases agents.len(),
{
    let rest = agents.drop_last();
    let k = agents[i].id@;
    if i == agents.len() - 1 {
        assert(agents.remove(i) =~= rest);
        lemma_table_contains(rest, k);
        assert(!table_of(rest).dom().contains(k)) by {
            if table_of(rest).dom().contains(k) {
                let j = choose|j: int| 0 <= j < rest.len() && (#[trigger] rest[j]).id@ == k;
                assert(agents[j] == rest[j]);
            }
        }
        assert(table_of(agents.remove(i)) =~= table_of(agents).remove(k));
    } else {
        assert(agents.remove(i).drop_last() =~= rest.remove(i));
        assert(agents.remove(i).last() == agents.last());
        assert(rest[i] == agents[i]);
        lemma_table_remove(rest, i);
        assert(agents.last().id@ != k);
        assert(table_of(agents.remove(i)) =~= table_of(agents).remove(k));
    }
}

impl ServerState {
    /// The state is consistent: agent ids are unique, and the layers are
    /// the agents' own, in the same order, each copying the project into
    /// the agent's working directory.
    pub closed spec fn wf(&self) -> bool {
        &&& unique_ids(self.agents@)
        &&& self.cow_layers@.len() == self.agents@.len()
        &&& forall|i: int|
            0 <= i < self.agents@.len() ==> {
                &&& (#[trigger] self.cow_layers@[i]).agent_id_spec() == self.agents@[i].id@
                &&& self.cow_layers@[i].agent_path_spec() == self.agents@[i].working_dir@
                &&& self.cow_layers@[i].base_spec() == self.project_root@
            }
    }

    /// The agents, by id.
    pub closed spec fn table(&self) -> Map<Seq<char>, AgentView> {
        table_of(self.agents@)
    }

    /// The project root.
    pub closed spec fn root_spec(&self) -> Seq<char> {
        self.project_root@
    }

    /// The directory holding the agents' copies.
    pub closed spec fn agents_dir_spec(&self) -> Seq<char> {
        self.agents_dir@
    }

    /// The GitButler CLI and tool runner the state was made with.
    pub closed spec fn services(&self) -> (GitButlerCli, WasiToolRunner) {
        (self.gitbutler, self.wasi_runner)
    }

    /// Fresh state for a project: no agents; agent copies under
    /// `<root>/.mcagent/agents`, tool sources under `<root>/.mcagent/tools`.
    pub fn new(project_root: &str) -> (r: Self)
        ensures
            r.wf(),
            r.table() == Map::<Seq<char>, AgentView>::empty(),
            r.root_spec() == project_root@,
            r.agents_dir_spec() == path_joined(path_joined(project_root@, ".mcagent"@), "agents"@),
            r.services().0.project_spec() == project_root@,
            r.services().1.project_root_spec() == project_root@,
            r.services().1.tools_dir_spec() == path_joined(
                path_joined(project_root@, ".mcagent"@),
                "tools"@,
            ),
    {
        let base = path_join(project_root, ".mcagent");
        let agents_dir = path_join(base.as_str(), "agents");
        let tools_dir = path_join(base.as_str(), "tools");
        let gitbutler = GitButlerCli::new(project_root);
        let wasi_runner = WasiToolRunner::new(project_root, tools_dir.as_str());
        let r = ServerState {
            project_root: project_root.to_string(),
            agents_dir,
            agents: Vec::new(),
            cow_layers: Vec::new(),
            gitbutler,
            wasi_runner,
        };
        assert(r.table() =~= Map::<Seq<char>, AgentView>::empty());
        r
    }

    /// The project root.
    pub fn project_root(&self) -> (r: &str)
        ensures
            r@ == self.root_spec(),
    {
        self.project_root.as_str()
    }

    /// The directory holding the agents' copies.
    pub fn agents_dir(&self) -> (r: &str)
        ensures
            r@ == self.agents_dir_spec(),
    {
        self.agents_dir.as_str()
    }

    /// The GitButler CLI.
    pub fn gitbutler(&self) -> (r: &GitButlerCli)
        ensures
            *r == self.services().0,
    {
        &self.gitbutler
    }

    /// The tool runner.
    pub fn wasi_runner(&self) -> (r: &WasiToolRunner)
        ensures
            *r == self.services().1,
    {
        &self.wasi_runner
    }

    /// All agents, each under its own id in the table.
    pub fn agents(&self) -> (r: &Vec<Agent>)
        requires
            self.wf(),
        ensures
            r@.len() == self.table().len(),
            forall|i: int|
                0 <= i < r@.len() ==> self.table().dom().contains((#[trigger] r@[i]).id@)
                    && self.table()[r@[i].id@] == r@[i]@,
            forall|k: Seq<char>|
                self.table().dom().contains(k) ==> exists|i: int|
                    0 <= i < r@.len() && (#[trigger] r@[i]).id@ == k,
    {
        proof {
            assert forall|i: int| 0 <= i < self.agents@.len() implies self.table().dom().contains(
                (#[trigger] self.agents@[i]).id@,
            ) && self.table()[self.agents@[i].id@] == self.agents@[i]@ by {
                lemma_table_value(self.agents@, i);
            }
            assert forall|k: Seq<char>| self.table().dom().contains(k) implies exists|i: int|
                0 <= i < self.agents@.len() && (#[trigger] self.agents@[i]).id@ == k by {
                lemma_table_contains(self.agents@, k);
            }
            lemma_table_len(self.agents@);
        }
        &self.agents
    }

    /// The position of the agent with the given id.
    fn find_agent(&self, agent_id: &str) -> (r: Option<usize>)
        ensures
            match r {
                Some(i) => i < self.agents@.len() && self.agents@[i as int].id@ == agent_id@,
                None => forall|i: int|
                    0 <= i < self.agents@.len() ==> (#[trigger] self.agents@[i]).id@ != agent_id@,
            },
    {
        let key = chars_of(agent_id);
        let mut i: usize = 0;
        while i < self.agents.len()
            invariant
                i <= self.agents@.len(),
                key@ == agent_id@,
                forall|j: int| 0 <= j < i ==> (#[trigger] self.agents@[j]).id@ != agent_id@,
            decreases self.agents@.len() - i,
        {
            let c = chars_of(self.agents[i].id.as_str());
            if span_eq(&c, 0, c.len(), &key) {
                assert(c@.subrange(0, c@.len() as int) =~= c@);
                return Some(i);
            }
            assert(c@.subrange(0, c@.len() as int) =~= c@);
            i = i + 1;
        }
        None
    }

    /// The directory an agent's copy goes to: `<agents_dir>/<id>`.
    pub fn agent_path_for(&self, agent_id: &AgentId) -> (r: String)
        ensures
            r@ == path_joined(self.agents_dir_spec(), agent_id@),
    {
        CowLayer::agent_path_for(self.agents_dir.as_str(), agent_id)
    }

    /// Create an agent with the given id. Refused (and nothing changes) when
    /// the agent's directory already exists; otherwise the caller has copied
    /// the project there, and the agent enters the table with its layer, on
    /// the branch its configuration asks for or `agent/<id>`.
    pub fn create_agent(&mut self, config: AgentConfig, agent_id: AgentId, agent_dir_exists: bool) -> (r:
        Result<Agent, McAgentError>)
        requires
            old(self).wf(),
        ensures
            final(self).wf(),
            (final(self).table(), agent_result_view(r)) == create_spec(
                old(self).table(),
                old(self).agents_dir_spec(),
                config@,
                agent_id@,
                agent_dir_exists,
            ),
            final(self).root_spec() == old(self).root_spec(),
            final(self).agents_dir_spec() == old(self).agents_dir_spec(),
            final(self).services() == old(self).services(),
    {
        let layer = match CowLayer::create(
            self.project_root.as_str(),
            self.agents_dir.as_str(),
            &agent_id,
            agent_dir_exists,
        ) {
            Ok(l) => l,
            Err(e) => return Err(e),
        };
        let branch_name = match &config.branch_name {
            Some(b) => b.clone(),
            None => {
                let mut s = "agent/".to_string();
                s.append(agent_id.as_str());
                s
            },
        };
        let working_dir = layer.working_dir().to_string();
        let agent = Agent {
            id: agent_id.duplicate(),
            config,
            state: AgentState::Created,
            working_dir,
            branch_name,
        };
        let result = agent.duplicate();
        let ghost old_agents = self.agents@;
        let ghost old_layers = self.cow_layers@;
        match self.find_agent(agent_id.as_str()) {
            Some(i) => {
                self.agents.set(i, agent);
                self.cow_layers.set(i, layer);
                proof {
                    lemma_table_update(old_agents, i as int, self.agents@[i as int]);
                    assert(self.agents@ == old_agents.update(i as int, self.agents@[i as int]));
                    assert forall|p: int, q: int| 0 <= p < q < self.agents@.len() implies
                        self.agents@[p].id@ != self.agents@[q].id@ by {
                        assert(old_agents[p].id@ != old_agents[q].id@);
                    }
                    assert forall|j: int| 0 <= j < self.agents@.len() implies {
                        &&& (#[trigger] self.cow_layers@[j]).agent_id_spec() == self.agents@[j].id@
                        &&& self.cow_layers@[j].agent_path_spec() == self.agents@[j].working_dir@
                        &&& self.cow_layers@[j].base_spec() == self.project_root@
                    } by {
                        if j != i {
                            assert(self.cow_layers@[j] == old_layers[j]);
                        }
                    }
                }
            },
            None => {
                self.agents.push(agent);
                self.cow_layers.push(layer);
                proof {
                    assert(self.agents@.drop_last() =~= old_agents);
                    assert forall|p: int, q: int| 0 <= p < q < self.agents@.len() implies
                        self.agents@[p].id@ != self.agents@[q].id@ by {
                        if q < old_agents.len() {
                            assert(old_agents[p].id@ != old_agents[q].id@);
                        } else {
                            assert(old_agents[p].id@ != agent_id@);
                        }
                    }
                    assert forall|j: int| 0 <= j < self.agents@.len() implies {
                        &&& (#[trigger] self.cow_layers@[j]).agent_id_spec() == self.agents@[j].id@
                        &&& self.cow_layers@[j].agent_path_spec() == self.agents@[j].working_dir@
                        &&& self.cow_layers@[j].base_spec() == self.project_root@
                    } by {
                        if j < old_agents.len() {
                            assert(self.cow_layers@[j] == old_layers[j]);
                            assert(self.agents@[j] == old_agents[j]);
                        }
                    }
                }
            },
        }
        Ok(result)
    }

    /// The agent with the given id.
    pub fn get_agent(&self, agent_id: &str) -> (r: Result<&Agent, McAgentError>)
        requires
            self.wf(),
        ensures
            match r {
                Ok(a) => get_spec(self.table(), agent_id@) == Ok::<AgentView, ErrorView>(a@),
                Err(e) => get_spec(self.table(), agent_id@) == Err::<AgentView, ErrorView>(e@),
            },
    {
        match self.find_agent(agent_id) {
            Some(i) => {
                proof {
                    lemma_table_value(self.agents@, i as int);
                }
                Ok(&self.agents[i])
            },
            None => {
                proof {
                    lemma_table_contains(self.agents@, agent_id@);
                }
                Err(McAgentError::AgentNotFound(AgentId::from_text(agent_id)))
            },
        }
    }

    /// The copy-on-write layer of the agent with the given id.
    pub fn cow_layer(&self, agent_id: &str) -> (r: Option<&CowLayer>)
        requires
            self.wf(),
        ensures
            match r {
                Some(l) => self.table().dom().contains(agent_id@) && l.agent_id_spec()
                    == agent_id@ && l.agent_path_spec() == self.table()[agent_id@].working_dir
                    && l.base_spec() == self.root_spec(),
                None => !self.table().dom().contains(agent_id@),
            },
    {
        match self.find_agent(agent_id) {
            Some(i) => {
                proof {
                    lemma_table_value(self.agents@, i as int);
                }
                Some(&self.cow_layers[i])
            },
            None => {
                proof {
                    lemma_table_contains(self.agents@, agent_id@);
                }
                None
            },
        }
    }

    /// Destroy the agent with the given id: it leaves the table and its
    /// layer is handed back for its copy to be removed. An unknown id is an
    /// error and changes nothing.
    pub fn destroy_agent(&mut self, agent_id: &str) -> (r: Result<CowLayer, McAgentError>)
        requires
            old(self).wf(),
        ensures
            final(self).wf(),
            (final(self).table(), unit_view(r)) == destroy_spec(old(self).table(), agent_id@),
            r matches Ok(l) ==> l.agent_id_spec() == agent_id@ && l.agent_path_spec() == old(
                self,
            ).table()[agent_id@].working_dir && l.base_spec() == old(self).root_spec(),
            final(self).root_spec() == old(self).root_spec(),
            final(self).agents_dir_spec() == old(self).agents_dir_spec(),
            final(self).services() == old(self).services(),
    {
        match self.find_agent(agent_id) {
            Some(i) => {
                let ghost old_agents = self.agents@;
                let ghost old_layers = self.cow_layers@;
                proof {
                    lemma_table_value(old_agents, i as int);
                    lemma_table_remove(old_agents, i as int);
                }
                self.agents.remove(i);
                let layer = self.cow_layers.remove(i);
                proof {
                    assert forall|p: int, q: int| 0 <= p < q < self.agents@.len() implies
                        self.agents@[p].id@ != self.agents@[q].id@ by {
                        let p0 = if p < i { p } else { p + 1 };
                        let q0 = if q < i { q } else { q + 1 };
                        assert(self.agents@[p] == old_agents[p0]);
                        assert(self.agents@[q] == old_agents[q0]);
                    }
                    assert forall|j: int| 0 <= j < self.agents@.len() implies {
                        &&& (#[trigger] self.cow_layers@[j]).agent_id_spec() == self.agents@[j].id@
                        &&& self.cow_layers@[j].agent_path_spec() == self.agents@[j].working_dir@
                        &&& self.cow_layers@[j].base_spec() == self.project_root@
                    } by {
                        let j0 = if j < i { j } else { j + 1 };
                        assert(self.agents@[j] == old_agents[j0]);
                        assert(self.cow_layers@[j] == old_layers[j0]);
                    }
                }
                Ok(layer)
            },
            None => {
                proof {
                    lemma_table_contains(self.agents@, agent_id@);
                }
                Err(McAgentError::AgentNotFound(AgentId::from_text(agent_id)))
            },
        }
    }
}

proof fn lemma_table_len(agents: Seq<Agent>)
    requires
        unique_ids(agents),
    ensures
        table_of(agents).len() == agents.len(),
        table_of(agents).dom().finite(),
    decreases agents.len(),
{
    if agents.len() > 0 {
        let rest = agents.drop_last();
        assert(unique_ids(rest)) by {
            assert forall|i: int, j: int| 0 <= i < j < rest.len() implies rest[i].id@
                != rest[j].id@ by {
                assert(rest[i] == agents[i] && rest[j] == agents[j]);
            }
        }
        lemma_table_len(rest);
        lemma_table_contains(rest, agents.last().id@);
        assert(!table_of(rest).dom().contains(agents.last().id@)) by {
            if table_of(rest).dom().contains(agents.last().id@) {
                let j = choose|j: int|
                    0 <= j < rest.len() && (#[trigger] rest[j]).id@ == agents.last().id@;
                assert(agents[j] == rest[j]);
            }
        }
    }
}

// ---------------------------------------------------------------------
// Laws of the agent table
// ---------------------------------------------------------------------

/// An agent that was created is found by its id, as it was created.
pub proof fn law_get_after_create(
    table: Map<Seq<char>, AgentView>,
    agents_dir: Seq<char>,
    config: AgentConfigView,
    id: Seq<char>,
)
    ensures
        ({
            let (after, r) = create_spec(table, agents_dir, config, id, false);
            r == Ok::<AgentView, ErrorView>(new_agent(agents_dir, config, id)) && get_spec(after, id)
                == r
        }),
{
}

/// Creation only touches the new agent's entry: every other agent is
/// looked up as before.
pub proof fn law_create_keeps_others(
    table: Map<Seq<char>, AgentView>,
    agents_dir: Seq<char>,
    config: AgentConfigView,
    id: Seq<char>,
    dir_exists: bool,
    other: Seq<char>,
)
    requires
        other != id,
    ensures
        get_spec(create_spec(table, agents_dir, config, id, dir_exists).0, other) == get_spec(
            table,
            other,
        ),
{
}

/// An agent whose directory already exists is refused and the table is
/// unchanged.
pub proof fn law_create_existing_dir_refused(
    table: Map<Seq<char>, AgentView>,
    agents_dir: Seq<char>,
    config: AgentConfigView,
    id: Seq<char>,
)
    ensures
        create_spec(table, agents_dir, config, id, true) == (table, Err::<AgentView, ErrorView>(
            ErrorView::AgentAlreadyExists(id),
        )),
{
}

/// A destroyed agent is no longer found.
pub proof fn law_get_after_destroy(table: Map<Seq<char>, AgentView>, id: Seq<char>)
    ensures
        get_spec(destroy_spec(table, id).0, id) == Err::<AgentView, ErrorView>(
            ErrorView::AgentNotFound(id),
        ),
{
}

/// Destroying an unknown agent is refused and changes nothing.
pub proof fn law_destroy_unknown(table: Map<Seq<char>, AgentView>, id: Seq<char>)
    requires
        !table.dom().contains(id),
    ensures
        destroy_spec(table, id) == (table, Err::<(), ErrorView>(ErrorView::AgentNotFound(id))),
{
}

/// Creating a new agent and then destroying it gives back the table as it was.
pub proof fn law_create_then_destroy(
    table: Map<Seq<char>, AgentView>,
    agents_dir: Seq<char>,
    config: AgentConfigView,
    id: Seq<char>,
)
    requires
        !table.dom().contains(id),
    ensures
        destroy_spec(create_spec(table, agents_dir, config, id, false).0, id) == (table, Ok::<
            (),
            ErrorView,
        >(())),
{
    assert(table.insert(id, new_agent(agents_dir, config, id)).remove(id) =~= table);
}

} // verus!
