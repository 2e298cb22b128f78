//! The live dashboard model: agent statuses, event and bus logs, and the
//! traces shown by the debugger. The process-wide instance lives with the
//! embedding program; these functions define every change made to it.
use vstd::prelude::*;
use vstd::string::*;
use crate::trace::AgentTrace;
use crate::text::str_eq;

verus! {

pub struct DashboardState {
    pub is_running: bool,
    pub agents: Vec<AgentStatus>,
    pub logs: Vec<String>,
    pub db_memories: Vec<String>,
    pub message_bus_log: Vec<String>,
    pub traces: Vec<AgentTrace>,
    pub paused: bool,
    pub debug_step: Option<usize>,
}

pub struct AgentStatus {
    pub name: String,
    pub goal: String,
    pub status: String,
    pub step: u32,
    pub memory_kb: usize,
    pub threads: usize,
}

impl AgentStatus {
    pub fn copy(&self) -> (r: Self)
        ensures
            r == *self,
    {
        AgentStatus {
            name: self.name.clone(),
            goal: self.goal.clone(),
            status: self.status.clone(),
            step: self.step,
            memory_kb: self.memory_kb,
            threads: self.threads,
        }
    }
}

/// No two agents on the dashboard share a name.
pub open spec fn unique_names(agents: Seq<AgentStatus>) -> bool {
    forall|i: int, j: int|
        0 <= i < j < agents.len() ==> (#[trigger] agents[i]).name@ != (#[trigger] agents[j]).name@
}

/// The dashboard as a run starts: running, not paused, everything empty.
pub open spec fn is_initial(s: DashboardState) -> bool {
    &&& s.is_running
    &&& !s.paused
    &&& s.debug_step is None
    &&& s.agents@.len() == 0
    &&& s.logs@.len() == 0
    &&& s.db_memories@.len() == 0
    &&& s.message_bus_log@.len() == 0
    &&& s.traces@.len() == 0
}

/// The initial dashboard state.
pub fn state() -> (s: DashboardState)
    ensures
        is_initial(s),
{
    DashboardState {
        is_running: true,
        agents: Vec::new(),
        logs: Vec::new(),
        db_memories: Vec::new(),
        message_bus_log: Vec::new(),
        traces: Vec::new(),
        paused: false,
        debug_step: None,
    }
}

/// Everything but the named field is left as it was.
pub open spec fn same_except_logs(a: DashboardState, b: DashboardState) -> bool {
    &&& a.is_running == b.is_running
    &&& a.agents == b.agents
    &&& a.db_memories == b.db_memories
    &&& a.message_bus_log == b.message_bus_log
    &&& a.traces == b.traces
    &&& a.paused == b.paused
    &&& a.debug_step == b.debug_step
}

pub open spec fn same_except_bus_log(a: DashboardState, b: DashboardState) -> bool {
    &&& a.is_running == b.is_running
    &&& a.agents == b.agents
    &&& a.logs == b.logs
    &&& a.db_memories == b.db_memories
    &&& a.traces == b.traces
    &&& a.paused == b.paused
    &&& a.debug_step == b.debug_step
}

pub open spec fn same_except_traces(a: DashboardState, b: DashboardState) -> bool {
    &&& a.is_running == b.is_running
    &&& a.agents == b.agents
    &&& a.logs == b.logs
    &&& a.db_memories == b.db_memories
    &&& a.message_bus_log == b.message_bus_log
    &&& a.paused == b.paused
    &&& a.debug_step == b.debug_step
}

pub open spec fn same_except_agents(a: DashboardState, b: DashboardState) -> bool {
    &&& a.is_running == b.is_running
    &&& a.logs == b.logs
    &&& a.db_memories == b.db_memories
    &&& a.message_bus_log == b.message_bus_log
    &&& a.traces == b.traces
    &&& a.paused == b.paused
    &&& a.debug_step == b.debug_step
}

/// Appends an event to the log.
pub fn log_event(state: &mut DashboardState, msg: String)
    ensures
        final(state).logs@ == old(state).logs@.push(msg),
        same_except_logs(*final(state), *old(state)),
{
    state.logs.push(msg);
}

/// Appends a routed bus message to the bus log.
pub fn log_bus_message(state: &mut DashboardState, msg: String)
    ensures
        final(state).message_bus_log@ == old(state).message_bus_log@.push(msg),
        same_except_bus_log(*final(state), *old(state)),
{
    state.message_bus_log.push(msg);
}

/// Appends a trace record.
pub fn add_trace(state: &mut DashboardState, trace: AgentTrace)
    ensures
        final(state).traces@ == old(state).traces@.push(trace),
        same_except_traces(*final(state), *old(state)),
{
    state.traces.push(trace);
}

/// The position of the first agent called `name`.
pub open spec fn agent_index(agents: Seq<AgentStatus>, name: Seq<char>) -> Option<int> {
    if exists|i: int| 0 <= i < agents.len() && (#[trigger] agents[i]).name@ == name {
        Some(
            choose|i: int|
                0 <= i < agents.len() && (#[trigger] agents[i]).name@ == name && forall|j: int|
                    0 <= j < i ==> (#[trigger] agents[j]).name@ != name,
        )
    } else {
        None
    }
}

/// `agent_index` finds the first agent of that name.
pub proof fn lemma_agent_index(agents: Seq<AgentStatus>, name: Seq<char>)
    ensures
        agent_index(agents, name) matches Some(i) ==> 0 <= i < agents.len() && agents[i].name@
            == name && forall|j: int| 0 <= j < i ==> (#[trigger] agents[j]).name@ != name,
        agent_index(agents, name) is None ==> forall|j: int|
            0 <= j < agents.len() ==> (#[trigger] agents[j]).name@ != name,
{
    if exists|i: int| 0 <= i < agents.len() && (#[trigger] agents[i]).name@ == name {
        let k = choose|i: int| 0 <= i < agents.len() && (#[trigger] agents[i]).name@ == name;
        lemma_first_agent(agents, name, k);
    }
}

proof fn lemma_first_agent(agents: Seq<AgentStatus>, name: Seq<char>, k: int)
    requires
        0 <= k < agents.len(),
        agents[k].name@ == name,
    ensures
        exists|i: int|
            0 <= i < agents.len() && (#[trigger] agents[i]).name@ == name && forall|j: int|
                0 <= j < i ==> (#[trigger] agents[j]).name@ != name,
    decreases k,
{
    if exists|j: int| 0 <= j < k && (#[trigger] agents[j]).name@ == name {
        let j = choose|j: int| 0 <= j < k && (#[trigger] agents[j]).name@ == name;
        lemma_first_agent(agents, name, j);
    } else {
        assert(forall|j: int| 0 <= j < k ==> (#[trigger] agents[j]).name@ != name);
    }
}

/// `a` is `b` with status, step and memory replaced.
pub open spec fn updated_status(a: AgentStatus, b: AgentStatus, status: Seq<char>, step: u32, memory_kb: usize) -> bool {
    &&& a.name == b.name
    &&& a.goal == b.goal
    &&& a.threads == b.threads
    &&& a.status@ == status
    &&& a.step == step
    &&& a.memory_kb == memory_kb
}

/// A freshly listed agent.
pub open spec fn new_status(a: AgentStatus, name: Seq<char>, status: Seq<char>, step: u32, memory_kb: usize) -> bool {
    &&& a.name@ == name
    &&& a.goal@ == Seq::<char>::empty()
    &&& a.status@ == status
    &&& a.step == step
    &&& a.memory_kb == memory_kb
    &&& a.threads == 1
}

/// `after` is the agent list `before` once agent `name` is recorded with
/// `status`, `step` and `memory_kb`: the first listed agent of that name is
/// updated in place, an agent not yet listed is appended, and every other
/// agent stays as it was.
#[verifier::opaque]
pub open spec fn agents_updated(
    before: Seq<AgentStatus>,
    after: Seq<AgentStatus>,
    name: Seq<char>,
    status: Seq<char>,
    step: u32,
    memory_kb: usize,
) -> bool {
    match agent_index(before, name) {
        Some(i) => {
            &&& after.len() == before.len()
            &&& updated_status(after[i], before[i], status, step, memory_kb)
            &&& forall|j: int| 0 <= j < before.len() && j != i ==> after[j] == before[j]
        },
        None => {
            &&& after.len() == before.len() + 1
            &&& forall|j: int| 0 <= j < before.len() ==> after[j] == before[j]
            &&& new_status(after.last(), name, status, step, memory_kb)
        },
    }
}

/// Records the status of agent `name`: the first listed agent of that name
/// is updated in place; an agent not yet listed is appended with an empty
/// goal and one thread.
pub fn update_agent(state: &mut DashboardState, name: &str, status: &str, step: u32, memory_kb: usize)
    ensures
        same_except_agents(*final(state), *old(state)),
        agents_updated(old(state).agents@, final(state).agents@, name@, status@, step, memory_kb),
{
    proof {
        reveal(agents_updated);
    }
    let ghost old_agents = state.agents@;
    let ghost st0 = *state;
    let mut i: usize = 0;
    while i < state.agents.len()
        invariant
            *state == st0,
            st0 == *old(state),
            st0.agents@ == old_agents,
            i <= old_agents.len(),
            forall|j: int| 0 <= j < i ==> (#[trigger] old_agents[j]).name@ != name@,
        decreases old_agents.len() - i,
    {
        if str_eq(state.agents[i].name.as_str(), name) {
            proof {
                let w = choose|w: int|
                    0 <= w < old_agents.len() && (#[trigger] old_agents[w]).name@ == name@ && forall|
                        j: int,
                    | 0 <= j < w ==> (#[trigger] old_agents[j]).name@ != name@;
                assert(old_agents[i as int].name@ == name@);
                if w < i {
                } else if w > i {
                }
                assert(agent_index(old_agents, name@) == Some(i as int));
            }
            let old_entry = state.agents.remove(i);
            let entry = AgentStatus {
                name: old_entry.name,
                goal: old_entry.goal,
                status: String::from_str(status),
                step,
                memory_kb,
                threads: old_entry.threads,
            };
            state.agents.insert(i, entry);
            assert(state.agents@ =~= old_agents.update(i as int, entry));
            proof {
                reveal(agents_updated);
            }
            return;
        }
        i = i + 1;
    }
    state.agents.push(
        AgentStatus {
            name: String::from_str(name),
            goal: String::new(),
            status: String::from_str(status),
            step,
            memory_kb,
            threads: 1,
        },
    );
}

/// Recording a status keeps agent names unique on the dashboard.
pub proof fn law_update_agent_keeps_names_unique(
    before: Seq<AgentStatus>,
    after: Seq<AgentStatus>,
    name: Seq<char>,
    status: Seq<char>,
    step: u32,
    memory_kb: usize,
)
    requires
        unique_names(before),
        agents_updated(before, after, name, status, step, memory_kb),
    ensures
        unique_names(after),
        exists|i: int| 0 <= i < after.len() && (#[trigger] after[i]).name@ == name,
{
    reveal(agents_updated);
    match agent_index(before, name) {
        Some(i) => {
            let w = choose|w: int|
                0 <= w < before.len() && (#[trigger] before[w]).name@ == name && forall|j: int|
                    0 <= j < w ==> (#[trigger] before[j]).name@ != name;
            assert(after[i].name@ == name);
            assert forall|a: int, b: int|
                0 <= a < b < after.len() implies (#[trigger] after[a]).name@ != (#[trigger] after[b]).name@ by {
                assert(after[a].name == before[a].name);
                assert(after[b].name == before[b].name);
            }
        },
        None => {
            let n = before.len();
            assert(after[n as int].name@ == name);
            assert forall|a: int, b: int|
                0 <= a < b < after.len() implies (#[trigger] after[a]).name@ != (#[trigger] after[b]).name@ by {
                if b == n {
                    assert(after[a] == before[a]);
                    assert(!(before[a].name@ == name));
                } else {
                    assert(after[a] == before[a]);
                    assert(after[b] == before[b]);
                }
            }
        },
    }
}

} // verus!
