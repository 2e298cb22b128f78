//! The bridge to a packaged JavaScript agent. The agent's process prints one
//! JSON-RPC request per line; the host carries out the call it names and
//! answers with one line. These functions read the requests, decide what
//! each call does under the manifest, keep the trace and write the answers.
use vstd::prelude::*;
use vstd::string::*;
use core::time::Duration;
use crate::dashboard::DashboardState;
use crate::json::{
    JsonValue, as_text, element, get_element, get_member, get_member_text, get_text, json_parse,
    json_render, member, member_text, parse_json, render_json, take_member,
};
use crate::manifest::{AgentManifest, agent_name_of};
use crate::sandbox::{check_fs_read_permission, check_fs_write_permission, record_trace, rules_allow, trace_recorded};
use crate::text::{chars_of, str_eq, trim, trim_bounds};
use crate::trace::{AgentTrace, js_result_column, js_trace_result};

verus! {

// ───────────────────────── reading a line ─────────────────────────

/// One line printed by the agent's process.
pub enum JsLine {
    /// Only white space: skipped.
    Blank,
    /// Not JSON: the agent's own log output.
    Log,
    /// A request, as the JSON document read from the line.
    Request(JsonValue),
}

pub fn read_js_line(line: &str) -> (r: JsLine)
    ensures
        trim(line@).len() == 0 ==> r is Blank,
        trim(line@).len() != 0 && json_parse(line@) is None ==> r is Log,
        trim(line@).len() != 0 && json_parse(line@) is Some ==> r == JsLine::Request(
            json_parse(line@)->0,
        ),
{
    let cs = chars_of(line);
    let (a, b) = trim_bounds(cs.as_slice());
    if a == b {
        return JsLine::Blank;
    }
    match parse_json(line) {
        Some(v) => JsLine::Request(v),
        None => JsLine::Log,
    }
}

// ───────────────────────── reading a request ─────────────────────────

/// The request's method, `""` when it names none.
pub open spec fn js_method(doc: JsonValue) -> Seq<char> {
    match member_text(doc, "method"@) {
        Some(m) => m,
        None => Seq::empty(),
    }
}

/// Parameter `i` of the request, when `params` is an array holding a value there.
pub open spec fn js_param_value(doc: JsonValue, i: int) -> Option<JsonValue> {
    match member(doc, "params"@) {
        Some(p) => element(p, i),
        None => None,
    }
}

/// Parameter `i` as text, `default` when it is missing or not a string.
pub open spec fn js_param(doc: JsonValue, i: int, default: Seq<char>) -> Seq<char> {
    match js_param_value(doc, i) {
        Some(v) => match as_text(v) {
            Some(t) => t,
            None => default,
        },
        None => default,
    }
}

/// Parameter `key` when `params` is an object, parameter `i` when it is an
/// array.
pub open spec fn js_named_value(doc: JsonValue, i: int, key: Seq<char>) -> Option<JsonValue> {
    match member(doc, "params"@) {
        Some(p) => match p {
            JsonValue::Object(_) => member(p, key),
            _ => element(p, i),
        },
        None => None,
    }
}

/// Parameter `key` (object form) or `i` (array form) as text, `default`
/// when it is missing or not a string.
pub open spec fn js_named(doc: JsonValue, i: int, key: Seq<char>, default: Seq<char>) -> Seq<char> {
    match js_named_value(doc, i, key) {
        Some(v) => match as_text(v) {
            Some(t) => t,
            None => default,
        },
        None => default,
    }
}

fn named_value<'a>(doc: &'a JsonValue, i: usize, key: &str) -> (r: Option<&'a JsonValue>)
    ensures
        r matches Some(v) ==> js_named_value(*doc, i as int, key@) == Some(*v),
        r is None ==> js_named_value(*doc, i as int, key@) is None,
{
    match get_member(doc, "params") {
        Some(p) => match p {
            JsonValue::Object(_) => get_member(p, key),
            _ => get_element(p, i),
        },
        None => None,
    }
}

fn named_text(doc: &JsonValue, i: usize, key: &str, default: &str) -> (r: String)
    ensures
        r@ == js_named(*doc, i as int, key@, default@),
{
    match named_value(doc, i, key) {
        Some(v) => match get_text(v) {
            Some(t) => t.clone(),
            None => String::from_str(default),
        },
        None => String::from_str(default),
    }
}

fn param_value(doc: &JsonValue, i: usize) -> (r: Option<&JsonValue>)
    ensures
        r matches Some(v) ==> js_param_value(*doc, i as int) == Some(*v),
        r is None ==> js_param_value(*doc, i as int) is None,
{
    match get_member(doc, "params") {
        Some(p) => get_element(p, i),
        None => None,
    }
}

fn param_text(doc: &JsonValue, i: usize, default: &str) -> (r: String)
    ensures
        r@ == js_param(*doc, i as int, default@),
{
    match param_value(doc, i) {
        Some(v) => match get_text(v) {
            Some(t) => t.clone(),
            None => String::from_str(default),
        },
        None => String::from_str(default),
    }
}

// ───────────────────────── deciding a call ─────────────────────────

/// What a request asks of the host.
pub enum JsCall {
    FsRead { path: String, allowed: bool },
    FsWrite { path: String, content: String, allowed: bool },
    LlmInfer { prompt: String },
    Goal { goal: String },
    /// The manifest's tools, joined by commas.
    Tools { tools: String },
    Done { summary: String },
    WebGet { url: String, allowed: bool },
    AgentSend { target: String, msg: String },
    /// A bus call made while no message bus is loaded.
    NoBus,
    AgentRecv { name: String },
    McpCall { server: String, tool: String, arguments: String },
    Unknown { method: String },
}

/// A call with its texts as character sequences.
pub enum JsCallView {
    FsRead(Seq<char>, bool),
    FsWrite(Seq<char>, Seq<char>, bool),
    LlmInfer(Seq<char>),
    Goal(Seq<char>),
    Tools(Seq<char>),
    Done(Seq<char>),
    WebGet(Seq<char>, bool),
    AgentSend(Seq<char>, Seq<char>),
    NoBus,
    AgentRecv(Seq<char>),
    McpCall(Seq<char>, Seq<char>, Seq<char>),
    Unknown(Seq<char>),
}

impl JsCall {
    pub open spec fn view(&self) -> JsCallView {
        match self {
            JsCall::FsRead { path, allowed } => JsCallView::FsRead(path@, *allowed),
            JsCall::FsWrite { path, content, allowed } => JsCallView::FsWrite(
                path@,
                content@,
                *allowed,
            ),
            JsCall::LlmInfer { prompt } => JsCallView::LlmInfer(prompt@),
            JsCall::Goal { goal } => JsCallView::Goal(goal@),
            JsCall::Tools { tools } => JsCallView::Tools(tools@),
            JsCall::Done { summary } => JsCallView::Done(summary@),
            JsCall::WebGet { url, allowed } => JsCallView::WebGet(url@, *allowed),
            JsCall::AgentSend { target, msg } => JsCallView::AgentSend(target@, msg@),
            JsCall::NoBus => JsCallView::NoBus,
            JsCall::AgentRecv { name } => JsCallView::AgentRecv(name@),
            JsCall::McpCall { server, tool, arguments } => JsCallView::McpCall(
                server@,
                tool@,
                arguments@,
            ),
            JsCall::Unknown { method } => JsCallView::Unknown(method@),
        }
    }
}

pub open spec fn opt_text(t: Option<String>) -> Seq<char> {
    match t {
        Some(s) => s@,
        None => Seq::empty(),
    }
}

/// Texts joined by commas.
pub open spec fn comma_joined(ts: Seq<Seq<char>>) -> Seq<char>
    decreases ts.len(),
{
    if ts.len() == 0 {
        Seq::empty()
    } else if ts.len() == 1 {
        ts[0]
    } else {
        comma_joined(ts.drop_last()) + ","@ + ts.last()
    }
}

/// The manifest's tool list as the agent reads it: the names joined by
/// commas, empty when the manifest lists none.
pub open spec fn tools_text(tools: Option<Vec<String>>) -> Seq<char> {
    match tools {
        Some(v) => comma_joined(v@.map_values(|s: String| s@)),
        None => Seq::empty(),
    }
}

/// The call a request makes: file access is checked against the manifest's
/// rules, network access against its network flag; bus calls need a loaded
/// bus; the MCP arguments are handed on as JSON text (`null` when missing).
/// `agent_send` and `mcp_call` take their parameters either by name, when
/// `params` is an object, or by position, when it is an array.
pub open spec fn js_call_of(doc: JsonValue, manifest: AgentManifest, bus_loaded: bool) -> JsCallView {
    let m = js_method(doc);
    if m == "fs_read"@ {
        let p = js_param(doc, 0, ""@);
        JsCallView::FsRead(p, rules_allow(manifest.permissions.fs_read, p))
    } else if m == "fs_write"@ {
        let p = js_param(doc, 0, ""@);
        JsCallView::FsWrite(p, js_param(doc, 1, ""@), rules_allow(manifest.permissions.fs_write, p))
    } else if m == "llm_infer"@ {
        JsCallView::LlmInfer(js_param(doc, 0, ""@))
    } else if m == "get_manifest_goal"@ {
        JsCallView::Goal(opt_text(manifest.goal))
    } else if m == "get_manifest_tools"@ {
        JsCallView::Tools(tools_text(manifest.tools))
    } else if m == "done"@ {
        JsCallView::Done(js_param(doc, 0, "Done"@))
    } else if m == "web_get"@ {
        JsCallView::WebGet(js_param(doc, 0, ""@), manifest.permissions.network)
    } else if m == "agent_send"@ {
        if bus_loaded {
            JsCallView::AgentSend(js_named(doc, 0, "target"@, ""@), js_named(doc, 1, "msg"@, ""@))
        } else {
            JsCallView::NoBus
        }
    } else if m == "agent_recv"@ {
        JsCallView::AgentRecv(opt_text(manifest.name))
    } else if m == "mcp_call"@ {
        JsCallView::McpCall(
            js_named(doc, 0, "server"@, ""@),
            js_named(doc, 1, "tool"@, ""@),
            json_render(
                match js_named_value(doc, 2, "arguments"@) {
                    Some(a) => a,
                    None => JsonValue::Null,
                },
            ),
        )
    } else {
        JsCallView::Unknown(m)
    }
}

/// The manifest's tools joined by commas, as `get_manifest_tools` answers.
pub fn manifest_tools_text(tools: &Option<Vec<String>>) -> (r: String)
    ensures
        r@ == tools_text(*tools),
{
    let mut out = String::new();
    match tools {
        None => {},
        Some(v) => {
            let ghost names = v@.map_values(|s: String| s@);
            let mut i: usize = 0;
            while i < v.len()
                invariant
                    i <= v@.len(),
                    names == v@.map_values(|s: String| s@),
                    out@ == comma_joined(names.take(i as int)),
                decreases v@.len() - i,
            {
                assert(names.take(i + 1).drop_last() =~= names.take(i as int));
                if i > 0 {
                    out.append(",");
                }
                out.append(v[i].as_str());
                i = i + 1;
            }
            assert(names.take(v@.len() as int) =~= names);
        },
    }
    out
}

fn opt_string(t: &Option<String>) -> (r: String)
    ensures
        r@ == opt_text(*t),
{
    match t {
        Some(s) => s.clone(),
        None => String::new(),
    }
}

/// Decides what a request asks of the host.
pub fn plan_js_call(doc: &JsonValue, manifest: &AgentManifest, bus_loaded: bool) -> (r: JsCall)
    ensures
        r@ == js_call_of(*doc, *manifest, bus_loaded),
{
    let method = match get_member_text(doc, "method") {
        Some(m) => m.clone(),
        None => String::new(),
    };
    let m = method.as_str();
    if str_eq(m, "fs_read") {
        let path = param_text(doc, 0, "");
        let allowed = check_fs_read_permission(path.as_str(), manifest);
        JsCall::FsRead { path, allowed }
    } else if str_eq(m, "fs_write") {
        let path = param_text(doc, 0, "");
        let content = param_text(doc, 1, "");
        let allowed = check_fs_write_permission(path.as_str(), manifest);
        JsCall::FsWrite { path, content, allowed }
    } else if str_eq(m, "llm_infer") {
        JsCall::LlmInfer { prompt: param_text(doc, 0, "") }
    } else if str_eq(m, "get_manifest_goal") {
        JsCall::Goal { goal: opt_string(&manifest.goal) }
    } else if str_eq(m, "get_manifest_tools") {
        JsCall::Tools { tools: manifest_tools_text(&manifest.tools) }
    } else if str_eq(m, "done") {
        JsCall::Done { summary: param_text(doc, 0, "Done") }
    } else if str_eq(m, "web_get") {
        JsCall::WebGet { url: param_text(doc, 0, ""), allowed: manifest.permissions.network }
    } else if str_eq(m, "agent_send") {
        if bus_loaded {
            JsCall::AgentSend {
                target: named_text(doc, 0, "target", ""),
                msg: named_text(doc, 1, "msg", ""),
            }
        } else {
            JsCall::NoBus
        }
    } else if str_eq(m, "agent_recv") {
        JsCall::AgentRecv { name: opt_string(&manifest.name) }
    } else if str_eq(m, "mcp_call") {
        let server = named_text(doc, 0, "server", "");
        let tool = named_text(doc, 1, "tool", "");
        let arguments = match named_value(doc, 2, "arguments") {
            Some(a) => render_json(a),
            None => render_json(&JsonValue::Null),
        };
        JsCall::McpCall { server, tool, arguments }
    } else {
        JsCall::Unknown { method }
    }
}

// ───────────────────────── answers of host calls ─────────────────────────

/// The answer to `llm_infer`: the model's text, the inference error, or a
/// note that no model is loaded.
pub open spec fn js_infer_answer(outcome: Option<Result<Seq<char>, Seq<char>>>) -> Seq<char> {
    match outcome {
        None => "LLM engine not loaded"@,
        Some(Ok(t)) => t,
        Some(Err(e)) => "LLM inference error: "@ + e,
    }
}

pub fn js_infer_response(outcome: Option<Result<String, String>>) -> (r: String)
    ensures
        r@ == js_infer_answer(
            match outcome {
                None => None,
                Some(Ok(t)) => Some(Ok(t@)),
                Some(Err(e)) => Some(Err(e@)),
            },
        ),
{
    match outcome {
        None => String::from_str("LLM engine not loaded"),
        Some(Ok(t)) => t,
        Some(Err(e)) => {
            let mut r = String::from_str("LLM inference error: ");
            r.append(e.as_str());
            r
        },
    }
}

/// The answer to `agent_recv`: the next message, a note that the inbox is
/// empty, or that no bus is loaded.
pub open spec fn js_recv_answer(bus_loaded: bool, received: Option<Seq<char>>) -> Seq<char> {
    if !bus_loaded {
        "Error: MessageBus not loaded."@
    } else {
        match received {
            Some(m) => m,
            None => "[No messages in queue]"@,
        }
    }
}

pub fn js_recv_response(bus_loaded: bool, received: Option<String>) -> (r: String)
    ensures
        r@ == js_recv_answer(
            bus_loaded,
            match received {
                Some(m) => Some(m@),
                None => None,
            },
        ),
{
    if !bus_loaded {
        String::from_str("Error: MessageBus not loaded.")
    } else {
        match received {
            Some(m) => m,
            None => String::from_str("[No messages in queue]"),
        }
    }
}

/// The answer to `mcp_call`: the tool's text, the error, or a note that no
/// server of that name runs.
pub open spec fn js_mcp_answer(outcome: Option<Result<Seq<char>, Seq<char>>>) -> Seq<char> {
    match outcome {
        None => "Error: MCP Server not found."@,
        Some(Ok(t)) => t,
        Some(Err(e)) => "MCP Error: "@ + e,
    }
}

pub fn js_mcp_response(outcome: Option<Result<String, String>>) -> (r: String)
    ensures
        r@ == js_mcp_answer(
            match outcome {
                None => None,
                Some(Ok(t)) => Some(Ok(t@)),
                Some(Err(e)) => Some(Err(e@)),
            },
        ),
{
    match outcome {
        None => String::from_str("Error: MCP Server not found."),
        Some(Ok(t)) => t,
        Some(Err(e)) => {
            let mut r = String::from_str("MCP Error: ");
            r.append(e.as_str());
            r
        },
    }
}

// ───────────────────────── completing a call ─────────────────────────

/// The trace a call leaves, as `(action, args, result)`; `answer` is what
/// the host call produced. Reading the goal or the tools, refused bus calls and unknown
/// methods leave none.
pub open spec fn js_trace_of(call: JsCallView, answer: Seq<char>) -> Option<(Seq<char>, Seq<char>, Seq<char>)> {
    match call {
        JsCallView::FsRead(p, _) => Some(("fs_read"@, p, answer)),
        JsCallView::FsWrite(p, _, _) => Some(("fs_write"@, p, answer)),
        JsCallView::LlmInfer(p) => Some(("llm_infer"@, p, answer)),
        JsCallView::Goal(_) => None,
        JsCallView::Tools(_) => None,
        JsCallView::Done(s) => Some(("done"@, s, "Finished"@)),
        JsCallView::WebGet(u, _) => Some(("web_get"@, u, answer)),
        JsCallView::AgentSend(t, _) => Some(("agent_send"@, t, "Message sent"@)),
        JsCallView::NoBus => None,
        JsCallView::AgentRecv(n) => Some(("agent_recv"@, n, answer)),
        JsCallView::McpCall(_, t, _) => Some(("mcp_call"@, t, answer)),
        JsCallView::Unknown(_) => None,
    }
}

/// The text returned to the agent as the request's result.
pub open spec fn js_result_of(call: JsCallView, answer: Seq<char>) -> Seq<char> {
    match call {
        JsCallView::Goal(g) => g,
        JsCallView::Tools(t) => t,
        JsCallView::Done(_) => "Done"@,
        JsCallView::AgentSend(_, _) => "Message sent successfully."@,
        JsCallView::NoBus => "Error: MessageBus not loaded."@,
        JsCallView::Unknown(m) => "Error: Unknown method '"@ + m + "'"@,
        _ => answer,
    }
}

/// `t` is the trace of a JavaScript call: no token count, the result
/// column shortened as traces show it.
pub open spec fn is_js_trace(
    t: AgentTrace,
    step: u32,
    action: Seq<char>,
    args: Seq<char>,
    result: Seq<char>,
    latency: Duration,
) -> bool {
    &&& t.step == step
    &&& t.action@ == action
    &&& t.args@ == args
    &&& t.tokens@ == "-"@
    &&& t.latency == latency
    &&& t.result@ == js_result_column(result)
}

/// The traces of a bridge so far: numbered from 1 in the order they were made.
pub struct JsBridge {
    step: u32,
    traces: Vec<AgentTrace>,
}

impl JsBridge {
    pub closed spec fn wf(&self) -> bool {
        &&& self.step as nat == self.traces@.len()
        &&& forall|i: int| 0 <= i < self.traces@.len() ==> (#[trigger] self.traces@[i]).step == i + 1
    }

    /// The traces recorded so far.
    pub closed spec fn trace_log(&self) -> Seq<AgentTrace> {
        self.traces@
    }

    pub fn new() -> (r: Self)
        ensures
            r.wf(),
            r.trace_log().len() == 0,
    {
        JsBridge { step: 0, traces: Vec::new() }
    }

    /// The number of traced calls so far.
    pub fn step(&self) -> (r: u32)
        requires
            self.wf(),
        ensures
            r as nat == self.trace_log().len(),
    {
        self.step
    }

    pub fn traces(&self) -> (r: &Vec<AgentTrace>)
        ensures
            r@ == self.trace_log(),
    {
        &self.traces
    }

    /// Whether the host may carry out `call` with a budget of `max_steps`
    /// traced calls: calls that leave no trace are always admitted, others
    /// only while fewer than `max_steps` calls have been traced.
    pub fn admits(&self, call: &JsCall, max_steps: u32) -> (r: bool)
        requires
            self.wf(),
        ensures
            r == (js_trace_of(call@, Seq::empty()) is None || self.trace_log().len() < max_steps),
    {
        let traced = match call {
            JsCall::Goal { .. } | JsCall::Tools { .. } | JsCall::NoBus | JsCall::Unknown { .. } => false,
            _ => true,
        };
        !traced || self.step < max_steps
    }

    /// Completes a call once the host has done its part (`answer` is what
    /// the host call produced; calls that need no host work ignore it).
    /// Returns the result text for the agent and whether the agent is done.
    pub fn complete(
        &mut self,
        dash: &mut DashboardState,
        agent: &Option<String>,
        call: &JsCall,
        answer: &str,
        latency: Duration,
    ) -> (r: (String, bool))
        requires
            old(self).wf(),
            js_trace_of(call@, answer@) is Some ==> old(self).trace_log().len() < u32::MAX,
        ensures
            final(self).wf(),
            r.0@ == js_result_of(call@, answer@),
            r.1 == (call is Done),
            match js_trace_of(call@, answer@) {
                None => final(self).trace_log() == old(self).trace_log() && *final(dash) == *old(
                    dash,
                ),
                Some(t) => {
                    let n = old(self).trace_log().len();
                    let trace = final(self).trace_log()[n as int];
                    &&& final(self).trace_log() == old(self).trace_log().push(trace)
                    &&& is_js_trace(trace, (n + 1) as u32, t.0, t.1, t.2, latency)
                    &&& trace_recorded(
                        *old(dash),
                        *final(dash),
                        agent_name_of(*agent),
                        "JS-FFI"@,
                        1024,
                        trace,
                    )
                },
            },
    {
        let ghost view = call@;
        let (traced, result): (Option<(String, String, String)>, String) = match call {
            JsCall::FsRead { path, .. } => (
                Some((String::from_str("fs_read"), path.clone(), String::from_str(answer))),
                String::from_str(answer),
            ),
            JsCall::FsWrite { path, .. } => (
                Some((String::from_str("fs_write"), path.clone(), String::from_str(answer))),
                String::from_str(answer),
            ),
            JsCall::LlmInfer { prompt } => (
                Some((String::from_str("llm_infer"), prompt.clone(), String::from_str(answer))),
                String::from_str(answer),
            ),
            JsCall::Goal { goal } => (None, goal.clone()),
            JsCall::Tools { tools } => (None, tools.clone()),
            JsCall::Done { summary } => (
                Some((String::from_str("done"), summary.clone(), String::from_str("Finished"))),
                String::from_str("Done"),
            ),
            JsCall::WebGet { url, .. } => (
                Some((String::from_str("web_get"), url.clone(), String::from_str(answer))),
                String::from_str(answer),
            ),
            JsCall::AgentSend { target, .. } => (
                Some(
                    (
                        String::from_str("agent_send"),
                        target.clone(),
                        String::from_str("Message sent"),
                    ),
                ),
                String::from_str("Message sent successfully."),
            ),
            JsCall::NoBus => (None, String::from_str("Error: MessageBus not loaded.")),
            JsCall::AgentRecv { name } => (
                Some((String::from_str("agent_recv"), name.clone(), String::from_str(answer))),
                String::from_str(answer),
            ),
            JsCall::McpCall { tool, .. } => (
                Some((String::from_str("mcp_call"), tool.clone(), String::from_str(answer))),
                String::from_str(answer),
            ),
            JsCall::Unknown { method } => {
                let mut t = String::from_str("Error: Unknown method '");
                t.append(method.as_str());
                t.append("'");
                (None, t)
            },
        };
        let done = match call {
            JsCall::Done { .. } => true,
            _ => false,
        };
        match traced {
            None => {
                assert(js_trace_of(view, answer@) is None);
            },
            Some((action, args, res)) => {
                let step = self.step + 1;
                let trace = AgentTrace {
                    step,
                    action,
                    args,
                    tokens: String::from_str("-"),
                    latency,
                    result: js_trace_result(res.as_str()),
                };
                let name = match agent {
                    Some(n) => n.clone(),
                    None => String::from_str("nanos-agent"),
                };
                let ghost before = self.traces@;
                record_trace(dash, &mut self.traces, name.as_str(), "JS-FFI", 1024, trace);
                self.step = step;
                proof {
                    assert(self.traces@[before.len() as int] == trace);
                    assert forall|i: int| 0 <= i < self.traces@.len() implies (
                    #[trigger] self.traces@[i]).step == i + 1 by {
                        if i < before.len() {
                            assert(self.traces@[i] == before[i]);
                        }
                    }
                }
            },
        }
        (result, done)
    }
}

/// The bridge numbers its traces 1, 2, 3, ... in the order the calls were
/// made, and its step counter is the number of traced calls.
pub proof fn law_js_steps_number_traces(b: &JsBridge)
    requires
        b.wf(),
    ensures
        forall|i: int| 0 <= i < b.trace_log().len() ==> (#[trigger] b.trace_log()[i]).step == i + 1,
{
}

/// `doc` answers a request: `result` as a JSON string under the request's
/// `id`, in a JSON-RPC 2.0 envelope (members in `serde_json`'s order).
pub open spec fn is_js_response(doc: JsonValue, result: Seq<char>, id: JsonValue) -> bool {
    &&& doc matches JsonValue::Object(f)
    &&& f@.len() == 3
    &&& f@[0].0@ == "id"@ && f@[0].1 == id
    &&& f@[1].0@ == "jsonrpc"@ && (f@[1].1 matches JsonValue::Str(s) && s@ == "2.0"@)
    &&& f@[2].0@ == "result"@ && (f@[2].1 matches JsonValue::Str(s) && s@ == result)
}

/// The id a request is answered under: its `id`, null when it has none.
pub open spec fn js_request_id(request: JsonValue) -> JsonValue {
    match member(request, "id"@) {
        Some(i) => i,
        None => JsonValue::Null,
    }
}

/// The line that answers `request` with `result`.
pub fn js_response_line(result: String, request: JsonValue) -> (r: String)
    ensures
        exists|doc: JsonValue| r@ == json_render(doc) && is_js_response(doc, result@, js_request_id(request)),
{
    let id = match take_member(request, "id") {
        Some(i) => i,
        None => JsonValue::Null,
    };
    let ghost rv = result@;
    let mut fields: Vec<(String, JsonValue)> = Vec::new();
    fields.push((String::from_str("id"), id));
    fields.push((String::from_str("jsonrpc"), JsonValue::Str(String::from_str("2.0"))));
    fields.push((String::from_str("result"), JsonValue::Str(result)));
    let doc = JsonValue::Object(fields);
    let r = render_json(&doc);
    assert(is_js_response(doc, rv, js_request_id(request)));
    r
}

} // verus!
