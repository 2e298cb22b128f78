//! The distributed message bus: the protocol spoken between the fleet
//! orchestrator and remote agent nodes, the server's per-connection
//! decisions, and the node's side of the conversation.
use vstd::prelude::*;
use vstd::string::*;
use crate::json::{
    JsonValue, get_member_text, json_parse, json_render, member, member_text, parse_json,
    render_json, take_member,
};
use crate::manifest::{AgentManifest, AgentSpec, copy_strings, is_member_manifest};
use crate::orchestrator::{MessageBus, bus_recv, bus_send};
use crate::text::str_eq;

verus! {

/// A message on the bus, one JSON object per line tagged by `"type"`.
pub enum BusMessage {
    Register { name: String, token: Option<String> },
    Init { goal: String, tools: Vec<String>, manifest: AgentManifest },
    Send { target: String, msg: String },
    Recv,
    Msg { content: Option<String> },
    Ack,
    Exit { status: String, summary: String },
}

// ───────────────────────── the node's socket slot ─────────────────────────

/// The connection a remote node forwards its bus syscalls through; empty
/// when the agent runs locally.
pub struct NodeSocket<S> {
    pub socket: Option<S>,
}

/// No connection yet.
pub fn empty_node_socket<S>() -> (r: NodeSocket<S>)
    ensures
        r.socket is None,
{
    NodeSocket { socket: None }
}

/// Installs the connection.
pub fn set_node_socket<S>(slot: &mut NodeSocket<S>, stream: S)
    ensures
        final(slot).socket == Some(stream),
{
    slot.socket = Some(stream);
}

/// Removes and returns the connection.
pub fn take_node_socket<S>(slot: &mut NodeSocket<S>) -> (r: Option<S>)
    ensures
        r == old(slot).socket,
        final(slot).socket is None,
{
    let r = slot.socket.take();
    r
}

/// Whether the agent runs as a remote node.
pub fn is_node_mode<S>(slot: &NodeSocket<S>) -> (r: bool)
    ensures
        r == slot.socket is Some,
{
    slot.socket.is_some()
}

// ───────────────────────── the orchestrator's side ─────────────────────────

/// What the orchestrator keeps across connections.
pub struct ServerState {
    pub queues: MessageBus,
    /// Agents that reported their exit, with their summaries.
    pub finished_agents: Vec<(String, String)>,
}

/// Names are unique among finished agents.
pub open spec fn unique_finished(f: Seq<(String, String)>) -> bool {
    forall|i: int, j: int| 0 <= i < j < f.len() ==> (#[trigger] f[i]).0@ != (#[trigger] f[j]).0@
}

/// The summary reported by agent `name`, if it finished.
pub open spec fn finished_summary(f: Seq<(String, String)>, name: Seq<char>) -> Option<Seq<char>> {
    if exists|i: int| 0 <= i < f.len() && (#[trigger] f[i]).0@ == name {
        Some(f[choose|i: int| 0 <= i < f.len() && (#[trigger] f[i]).0@ == name].1@)
    } else {
        None
    }
}

impl ServerState {
    pub open spec fn wf(&self) -> bool {
        &&& self.queues.wf()
        &&& unique_finished(self.finished_agents@)
    }

    /// A server with no messages and no finished agents.
    pub fn new() -> (r: Self)
        ensures
            r.wf(),
            r.queues@ == Map::<Seq<char>, Seq<Seq<char>>>::empty(),
            r.finished_agents@.len() == 0,
    {
        ServerState { queues: MessageBus::new(), finished_agents: Vec::new() }
    }

    fn record_exit(&mut self, name: &str, summary: String)
        requires
            old(self).wf(),
        ensures
            final(self).wf(),
            final(self).queues == old(self).queues,
            finished_summary(final(self).finished_agents@, name@) == Some(summary@),
            forall|n: Seq<char>|
                n != name@ ==> finished_summary(final(self).finished_agents@, n)
                    == finished_summary(old(self).finished_agents@, n),
    {
        let ghost f0 = self.finished_agents@;
        let ghost st0 = *self;
        let mut i: usize = 0;
        while i < self.finished_agents.len()
            invariant
                *self == st0,
                st0 == *old(self),
                st0.wf(),
                self.finished_agents@ == f0,
                i <= f0.len(),
                forall|k: int| 0 <= k < i ==> (#[trigger] f0[k]).0@ != name@,
            decreases f0.len() - i,
        {
            if str_eq(self.finished_agents[i].0.as_str(), name) {
                let entry = (String::from_str(name), summary);
                self.finished_agents.remove(i);
                self.finished_agents.insert(i, entry);
                proof {
                    let f1 = self.finished_agents@;
                    assert(f1 =~= f0.update(i as int, entry));
                    assert(unique_finished(f1)) by {
                        assert forall|a: int, b: int|
                            0 <= a < b < f1.len() implies (#[trigger] f1[a]).0@ != (#[trigger] f1[b]).0@ by {
                            assert(f0[i as int].0@ == name@);
                            if a == i {
                                assert(f0[a].0@ != f0[b].0@);
                            } else if b == i {
                                assert(f0[a].0@ != f0[b].0@);
                            } else {
                            }
                        }
                    }
                    assert(f1[i as int].0@ == name@);
                    let c = choose|k: int| 0 <= k < f1.len() && (#[trigger] f1[k]).0@ == name@;
                    assert(c == i) by {
                        if c != i {
                            if c < i {
                                assert(f1[c].0@ != f1[i as int].0@);
                            } else {
                                assert(f1[i as int].0@ != f1[c].0@);
                            }
                        }
                    }
                    assert forall|n: Seq<char>|
                        n != name@ implies finished_summary(f1, n) == finished_summary(f0, n) by {
                        if exists|k: int| 0 <= k < f1.len() && (#[trigger] f1[k]).0@ == n {
                            let k1 = choose|k: int| 0 <= k < f1.len() && (#[trigger] f1[k]).0@ == n;
                            assert(f0[k1].0@ == n);
                            let k0 = choose|k: int| 0 <= k < f0.len() && (#[trigger] f0[k]).0@ == n;
                            assert(k0 == k1) by {
                                if k0 < k1 {
                                    assert(f0[k0].0@ != f0[k1].0@);
                                } else if k0 > k1 {
                                    assert(f0[k1].0@ != f0[k0].0@);
                                }
                            }
                        }
                        if exists|k: int| 0 <= k < f0.len() && (#[trigger] f0[k]).0@ == n {
                            let k0 = choose|k: int| 0 <= k < f0.len() && (#[trigger] f0[k]).0@ == n;
                            assert(f1[k0].0@ == n);
                        }
                    }
                }
                return;
            }
            i = i + 1;
        }
        let entry = (String::from_str(name), summary);
        self.finished_agents.push(entry);
        proof {
            let f1 = self.finished_agents@;
            let n0 = f0.len();
            assert(f1[n0 as int].0@ == name@);
            assert(unique_finished(f1)) by {
                assert forall|a: int, b: int|
                    0 <= a < b < f1.len() implies (#[trigger] f1[a]).0@ != (#[trigger] f1[b]).0@ by {
                    if b == n0 {
                        assert(f1[a] == f0[a]);
                    } else {
                        assert(f1[a] == f0[a]);
                        assert(f1[b] == f0[b]);
                    }
                }
            }
            let c = choose|k: int| 0 <= k < f1.len() && (#[trigger] f1[k]).0@ == name@;
            assert(c == n0) by {
                if c < n0 {
                    assert(f1[c] == f0[c]);
                }
            }
            assert forall|n: Seq<char>|
                n != name@ implies finished_summary(f1, n) == finished_summary(f0, n) by {
                if exists|k: int| 0 <= k < f1.len() && (#[trigger] f1[k]).0@ == n {
                    let k1 = choose|k: int| 0 <= k < f1.len() && (#[trigger] f1[k]).0@ == n;
                    assert(k1 < n0);
                    assert(f0[k1].0@ == n);
                    let k0 = choose|k: int| 0 <= k < f0.len() && (#[trigger] f0[k]).0@ == n;
                    assert(k0 == k1) by {
                        if k0 < k1 {
                            assert(f0[k0].0@ != f0[k1].0@);
                        } else if k0 > k1 {
                            assert(f0[k1].0@ != f0[k0].0@);
                        }
                    }
                    assert(f1[k1] == f0[k1]);
                }
                if exists|k: int| 0 <= k < f0.len() && (#[trigger] f0[k]).0@ == n {
                    let k0 = choose|k: int| 0 <= k < f0.len() && (#[trigger] f0[k]).0@ == n;
                    assert(f1[k0] == f0[k0]);
                    assert(f1[k0].0@ == n);
                }
            }
        }
    }

    /// Whether every expected agent has reported its exit.
    pub fn all_finished(&self, expected: &Vec<String>) -> (r: bool)
        ensures
            r == forall|i: int|
                0 <= i < expected@.len() ==> finished_summary(
                    self.finished_agents@,
                    (#[trigger] expected@[i])@,
                ) is Some,
    {
        let mut i: usize = 0;
        while i < expected.len()
            invariant
                i <= expected@.len(),
                forall|k: int|
                    0 <= k < i ==> finished_summary(
                        self.finished_agents@,
                        (#[trigger] expected@[k])@,
                    ) is Some,
            decreases expected@.len() - i,
        {
            let mut found = false;
            let mut j: usize = 0;
            while j < self.finished_agents.len()
                invariant
                    i < expected@.len(),
                    j <= self.finished_agents@.len(),
                    !found ==> forall|k: int|
                        0 <= k < j ==> (#[trigger] self.finished_agents@[k]).0@ != expected@[i as int]@,
                    found ==> exists|k: int|
                        0 <= k < self.finished_agents@.len() && (#[trigger] self.finished_agents@[k]).0@
                            == expected@[i as int]@,
                decreases self.finished_agents@.len() - j,
            {
                if str_eq(self.finished_agents[j].0.as_str(), expected[i].as_str()) {
                    found = true;
                }
                j = j + 1;
            }
            if !found {
                proof {
                    assert(finished_summary(self.finished_agents@, expected@[i as int]@) is None);
                }
                return false;
            }
            i = i + 1;
        }
        true
    }
}

/// Why a node's connection is refused.
pub enum Refusal {
    /// The first message was not a registration.
    NotRegister,
    /// The fleet token is missing or wrong.
    BadToken { agent_name: String },
    /// The agent is not a member of the fleet.
    UnknownAgent { agent_name: String },
}

/// The outcome of a node's registration.
pub enum Registration {
    /// The node may run agent `agent_name`; `init` is sent to it.
    Accepted { agent_name: String, init: BusMessage },
    /// The connection is closed, after `reply` when there is one.
    Refused { reason: Refusal, reply: Option<BusMessage> },
}

/// Whether the presented token satisfies the fleet's token requirement.
pub open spec fn token_ok(expected: Option<String>, presented: Option<String>) -> bool {
    match expected {
        None => true,
        Some(e) => match presented {
            Some(t) => t@ == e@,
            None => false,
        },
    }
}

pub fn check_token(expected: &Option<String>, presented: &Option<String>) -> (r: bool)
    ensures
        r == token_ok(*expected, *presented),
{
    match expected {
        None => true,
        Some(e) => match presented {
            Some(t) => str_eq(t.as_str(), e.as_str()),
            None => false,
        },
    }
}

/// The text of the reply sent to a node whose token is refused.
pub open spec fn unauthorized_summary() -> Seq<char> {
    "[Security] Unauthorized connection: invalid or missing fleet token"@
}

/// Every expected agent has a specification in the fleet manifest.
pub open spec fn fleet_covers(manifest: AgentManifest, expected: Seq<String>) -> bool {
    &&& manifest.agents is Some
    &&& forall|i: int|
        0 <= i < expected.len() ==> exists|k: int|
            0 <= k < manifest.agents->0@.len() && (#[trigger] manifest.agents->0@[k]).name@ == (
            #[trigger] expected[i])@
}

/// The init message for a member: its goal, its tools, and its manifest
/// with the fleet list removed.
pub open spec fn is_init_for(init: BusMessage, manifest: AgentManifest, spec: AgentSpec) -> bool {
    match init {
        BusMessage::Init { goal, tools, manifest: m } => {
            &&& goal == spec.goal
            &&& tools@ == spec.tools@
            &&& m.agents is None
            &&& is_member_manifest(
                AgentManifest { agents: manifest.agents, ..m },
                manifest,
                spec,
            )
        },
        _ => false,
    }
}

/// The first fleet member called `name`.
pub open spec fn member_spec(manifest: AgentManifest, name: Seq<char>) -> AgentSpec {
    let specs = manifest.agents->0@;
    specs[choose|k: int|
        0 <= k < specs.len() && (#[trigger] specs[k]).name@ == name && forall|j: int|
            0 <= j < k ==> (#[trigger] specs[j]).name@ != name]
}

/// Decides a node's registration: the first message must register, the
/// token must satisfy the fleet's requirement (a refused token is answered
/// with an `Exit` marked `failed`), and the agent must be a fleet member.
#[verifier::loop_isolation(false)]
pub fn register_node(
    first: BusMessage,
    manifest: &AgentManifest,
    expected_agents: &Vec<String>,
    expected_token: &Option<String>,
) -> (r: Registration)
    requires
        fleet_covers(*manifest, expected_agents@),
    ensures
        match first {
            BusMessage::Register { name, token } => {
                if !token_ok(*expected_token, token) {
                    r matches Registration::Refused { reason: Refusal::BadToken { agent_name }, reply: Some(BusMessage::Exit { status, summary }) }
                        && agent_name@ == name@ && status@ == "failed"@ && summary@ == unauthorized_summary()
                } else if !(exists|i: int| 0 <= i < expected_agents@.len() && (#[trigger] expected_agents@[i])@ == name@) {
                    r matches Registration::Refused { reason: Refusal::UnknownAgent { agent_name }, reply: None }
                        && agent_name@ == name@
                } else {
                    r matches Registration::Accepted { agent_name, init } && agent_name@ == name@
                        && is_init_for(init, *manifest, member_spec(*manifest, name@))
                }
            },
            _ => r matches Registration::Refused { reason: Refusal::NotRegister, reply: None },
        },
{
    let (name, token) = match first {
        BusMessage::Register { name, token } => (name, token),
        _ => {
            return Registration::Refused { reason: Refusal::NotRegister, reply: None };
        },
    };
    if !check_token(expected_token, &token) {
        return Registration::Refused {
            reason: Refusal::BadToken { agent_name: name },
            reply: Some(
                BusMessage::Exit {
                    status: String::from_str("failed"),
                    summary: String::from_str(
                        "[Security] Unauthorized connection: invalid or missing fleet token",
                    ),
                },
            ),
        };
    }
    let mut listed = false;
    let mut i: usize = 0;
    while i < expected_agents.len()
        invariant
            i <= expected_agents@.len(),
            listed == exists|k: int| 0 <= k < i && (#[trigger] expected_agents@[k])@ == name@,
        decreases expected_agents@.len() - i,
    {
        if str_eq(expected_agents[i].as_str(), name.as_str()) {
            listed = true;
        }
        i = i + 1;
    }
    if !listed {
        return Registration::Refused { reason: Refusal::UnknownAgent { agent_name: name }, reply: None };
    }
    let specs = match &manifest.agents {
        Some(a) => a,
        None => {
            return Registration::Refused { reason: Refusal::UnknownAgent { agent_name: name }, reply: None };
        },
    };
    proof {
        let w = choose|k: int| 0 <= k < expected_agents@.len() && (#[trigger] expected_agents@[k])@ == name@;
        assert(exists|k: int|
            0 <= k < specs@.len() && (#[trigger] specs@[k]).name@ == expected_agents@[w]@);
    }
    let mut k: usize = 0;
    while k < specs.len()
        invariant
            manifest.agents == Some(*specs),
            k <= specs@.len(),
            forall|j: int| 0 <= j < k ==> (#[trigger] specs@[j]).name@ != name@,
            exists|j: int| 0 <= j < specs@.len() && (#[trigger] specs@[j]).name@ == name@,
        decreases specs@.len() - k,
    {
        if str_eq(specs[k].name.as_str(), name.as_str()) {
            let spec = &specs[k];
            proof {
                let w = choose|j: int|
                    0 <= j < specs@.len() && (#[trigger] specs@[j]).name@ == name@ && forall|m: int|
                        0 <= m < j ==> (#[trigger] specs@[m]).name@ != name@;
                assert(specs@[k as int].name@ == name@);
                if w < k {
                } else if w > k {
                }
                assert(member_spec(*manifest, name@) == *spec);
            }
            let full = manifest.member_manifest(spec);
            let ghost full_v = full;
            let mut agent_manifest = full;
            agent_manifest.agents = None;
            assert(AgentManifest { agents: manifest.agents, ..agent_manifest } == AgentManifest {
                agents: manifest.agents,
                ..full_v
            });
            let init = BusMessage::Init {
                goal: spec.goal.clone(),
                tools: copy_strings(&spec.tools),
                manifest: agent_manifest,
            };
            assert(is_init_for(init, *manifest, *spec));
            return Registration::Accepted { agent_name: name, init };
        }
        k = k + 1;
    }
    Registration::Refused { reason: Refusal::UnknownAgent { agent_name: name }, reply: None }
}

/// What the orchestrator does with a message from a registered node.
pub enum NodeReply {
    /// Answer the node.
    Reply(BusMessage),
    /// The node exited: stop serving it.
    Finish,
    /// Not a request a node may make: log it and go on.
    Ignore,
}

/// Serves one message from node `agent_name`: `Send` queues the message and
/// is acknowledged, `Recv` is answered with the node's next message, `Exit`
/// records the node's summary and ends the connection.
pub fn serve_node_message(state: &mut ServerState, agent_name: &str, msg: BusMessage) -> (r: NodeReply)
    requires
        old(state).wf(),
    ensures
        final(state).wf(),
        match msg {
            BusMessage::Send { target, msg: m } => {
                &&& r matches NodeReply::Reply(BusMessage::Ack)
                &&& final(state).queues@ == bus_send(old(state).queues@, target@, m@)
                &&& final(state).finished_agents == old(state).finished_agents
            },
            BusMessage::Recv => {
                let (got, after) = bus_recv(old(state).queues@, agent_name@);
                &&& r matches NodeReply::Reply(BusMessage::Msg { content })
                &&& (match content {
                    Some(c) => Some(c@),
                    None => None,
                }) == got
                &&& final(state).queues@ == after
                &&& final(state).finished_agents == old(state).finished_agents
            },
            BusMessage::Exit { status, summary } => {
                &&& r matches NodeReply::Finish
                &&& final(state).queues@ == old(state).queues@
                &&& finished_summary(final(state).finished_agents@, agent_name@) == Some(summary@)
                &&& forall|n: Seq<char>|
                    n != agent_name@ ==> finished_summary(final(state).finished_agents@, n)
                        == finished_summary(old(state).finished_agents@, n)
            },
            _ => {
                &&& r matches NodeReply::Ignore
                &&& final(state).queues@ == old(state).queues@
                &&& final(state).finished_agents == old(state).finished_agents
            },
        },
{
    match msg {
        BusMessage::Send { target, msg } => {
            state.queues.send(target.as_str(), msg);
            NodeReply::Reply(BusMessage::Ack)
        },
        BusMessage::Recv => {
            let content = state.queues.recv(agent_name);
            NodeReply::Reply(BusMessage::Msg { content })
        },
        BusMessage::Exit { status, summary } => {
            state.record_exit(agent_name, summary);
            NodeReply::Finish
        },
        _ => NodeReply::Ignore,
    }
}

/// A message sent by one node is delivered to its target's next `Recv`
/// when nothing else is pending for the target.
pub proof fn law_relay_delivers(m: Map<Seq<char>, Seq<Seq<char>>>, target: Seq<char>, msg: Seq<char>)
    requires
        crate::orchestrator::inbox_of(m, target).len() == 0,
    ensures
        bus_recv(bus_send(m, target, msg), target).0 == Some(msg),
{
    crate::orchestrator::law_fifo(m, target, msg);
}

// ───────────────────────── the node's side ─────────────────────────

/// The node's registration message.
pub fn registration_message(agent_name: &str, token: Option<String>) -> (r: BusMessage)
    ensures
        r matches BusMessage::Register { name, token: t } && name@ == agent_name@ && t == token,
{
    BusMessage::Register { name: String::from_str(agent_name), token }
}

/// Why a node could not start.
pub enum NodeStartError {
    /// The orchestrator refused the registration.
    Rejected { summary: String, status: String },
    /// The orchestrator answered with something other than `Init`.
    NoInit,
}

/// The goal, tools and manifest the orchestrator assigned, or why none was.
pub fn accept_init(reply: BusMessage) -> (r: Result<(String, Vec<String>, AgentManifest), NodeStartError>)
    ensures
        match reply {
            BusMessage::Init { goal, tools, manifest } => r == Ok::<_, NodeStartError>((goal, tools, manifest)),
            BusMessage::Exit { status, summary } => r matches Err(NodeStartError::Rejected { summary: s, status: t })
                && s == summary && t == status,
            _ => r matches Err(NodeStartError::NoInit),
        },
{
    match reply {
        BusMessage::Init { goal, tools, manifest } => Ok((goal, tools, manifest)),
        BusMessage::Exit { status, summary } => Err(NodeStartError::Rejected { summary, status }),
        _ => Err(NodeStartError::NoInit),
    }
}

/// The text of a start error.
pub open spec fn start_error_text(e: NodeStartError) -> Seq<char> {
    match e {
        NodeStartError::Rejected { summary, status } => "Server rejected registration: "@ + summary@
            + " (Status: "@ + status@ + ")"@,
        NodeStartError::NoInit => "Server did not respond with Init"@,
    }
}

impl NodeStartError {
    pub fn message(&self) -> (r: String)
        ensures
            r@ == start_error_text(*self),
    {
        match self {
            NodeStartError::Rejected { summary, status } => {
                let mut r = String::from_str("Server rejected registration: ");
                r.append(summary.as_str());
                r.append(" (Status: ");
                r.append(status.as_str());
                r.append(")");
                r
            },
            NodeStartError::NoInit => String::from_str("Server did not respond with Init"),
        }
    }
}

/// The exit report a node sends when its run ends; the summary is the
/// quoted outcome.
pub fn exit_message(succeeded: bool) -> (r: BusMessage)
    ensures
        r matches BusMessage::Exit { status, summary } && (succeeded ==> status@ == "success"@
            && summary@ == "\"Execution completed cleanly\""@) && (!succeeded ==> status@
            == "failed"@ && summary@ == "\"Execution failed\""@),
{
    if succeeded {
        BusMessage::Exit {
            status: String::from_str("success"),
            summary: String::from_str("\"Execution completed cleanly\""),
        }
    } else {
        BusMessage::Exit {
            status: String::from_str("failed"),
            summary: String::from_str("\"Execution failed\""),
        }
    }
}

// ───────────────────────── bus syscalls forwarded by a node ─────────────────────────

/// `v` is the JSON string `t`, or null when there is no text.
pub open spec fn text_or_null(v: JsonValue, t: Option<Seq<char>>) -> bool {
    match t {
        Some(x) => v matches JsonValue::Str(s) && s@ == x,
        None => v == JsonValue::Null,
    }
}

/// The request a node sends for bus syscall `method`: the method as
/// `type`, with the `target` and `msg` texts of `params` (or null); members
/// in `serde_json`'s order.
pub open spec fn is_bus_request(doc: JsonValue, method: Seq<char>, params: JsonValue) -> bool {
    &&& doc matches JsonValue::Object(f)
    &&& f@.len() == 3
    &&& f@[0].0@ == "msg"@ && text_or_null(f@[0].1, member_text(params, "msg"@))
    &&& f@[1].0@ == "target"@ && text_or_null(f@[1].1, member_text(params, "target"@))
    &&& f@[2].0@ == "type"@ && text_or_null(f@[2].1, Some(method))
}

fn json_text_or_null(t: Option<&String>) -> (r: JsonValue)
    ensures
        text_or_null(
            r,
            match t {
                Some(s) => Some(s@),
                None => None,
            },
        ),
{
    match t {
        Some(s) => JsonValue::Str(s.clone()),
        None => JsonValue::Null,
    }
}

/// The JSON line of the request for bus syscall `method`.
pub fn bus_request(method: &str, params: &JsonValue) -> (r: String)
    ensures
        exists|doc: JsonValue| r@ == json_render(doc) && is_bus_request(doc, method@, *params),
{
    let mut fields: Vec<(String, JsonValue)> = Vec::new();
    fields.push((String::from_str("msg"), json_text_or_null(get_member_text(params, "msg"))));
    fields.push((String::from_str("target"), json_text_or_null(get_member_text(params, "target"))));
    fields.push((String::from_str("type"), JsonValue::Str(String::from_str(method))));
    let doc = JsonValue::Object(fields);
    let r = render_json(&doc);
    assert(is_bus_request(doc, method@, *params));
    r
}

/// Why a forwarded bus syscall failed.
pub enum BusCallError {
    /// The orchestrator's answer was not JSON.
    BadResponse,
}

/// The value of a forwarded bus syscall, read from the orchestrator's answer
/// line: for `recv`, the answer's `content` (null when absent); for any other
/// method, the text `"OK"`.
pub fn bus_call_result(method: &str, answer: &str) -> (r: Result<JsonValue, BusCallError>)
    ensures
        json_parse(answer@) is None ==> r is Err,
        json_parse(answer@) matches Some(v) ==> {
            &&& r is Ok
            &&& method@ == "recv"@ ==> r->Ok_0 == (match member(v, "content"@) {
                Some(c) => c,
                None => JsonValue::Null,
            })
            &&& method@ != "recv"@ ==> (r->Ok_0 matches JsonValue::Str(s) && s@ == "OK"@)
        },
{
    let v = match parse_json(answer) {
        Some(v) => v,
        None => return Err(BusCallError::BadResponse),
    };
    if str_eq(method, "recv") {
        match take_member(v, "content") {
            Some(c) => Ok(c),
            None => Ok(JsonValue::Null),
        }
    } else {
        Ok(JsonValue::Str(String::from_str("OK")))
    }
}

} // verus!
