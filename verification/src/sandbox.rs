//! The host side of the sandbox: capability checks on the agent's
//! syscalls, the answers the syscalls give, and the trace each one leaves.
use vstd::prelude::*;
use vstd::string::*;
use core::time::Duration;
use crate::dashboard::{DashboardState, add_trace, agents_updated, log_event, update_agent};
use crate::manifest::AgentManifest;
use crate::text::{
    byte_len, byte_prefix, char_boundary, chars_of, contains_seq, find_chars, find_seq,
    has_prefix, has_suffix, starts_with_chars, ends_with_chars, str_byte_len, str_byte_prefix,
    str_eq, sub_chars,
};
use crate::trace::{AgentTrace, clip, clip_ok, js_result_column, js_trace_result, short_args, size_column, size_field, token_column, token_field};

verus! {

// ───────────────────────── file capabilities ─────────────────────────

/// Whether one capability rule grants access to `path`: a rule ending in
/// `**` or `*` grants every path that starts with the text before the stars;
/// any other rule grants exactly the path it names.
pub open spec fn rule_allows(rule: Seq<char>, path: Seq<char>) -> bool {
    if has_suffix(rule, "**"@) {
        has_prefix(path, rule.take(rule.len() - 2))
    } else if has_suffix(rule, "*"@) {
        has_prefix(path, rule.take(rule.len() - 1))
    } else {
        path == rule
    }
}

/// Whether a rule list grants access to `path`; no list grants nothing.
pub open spec fn rules_allow(rules: Option<Vec<String>>, path: Seq<char>) -> bool {
    match rules {
        None => false,
        Some(rs) => exists|i: int| 0 <= i < rs@.len() && rule_allows((#[trigger] rs@[i])@, path),
    }
}

fn rule_allows_exec(rule: &str, path: &[char]) -> (r: bool)
    ensures
        r == rule_allows(rule@, path@),
{
    let rv = chars_of(rule);
    proof {
        reveal_strlit("**");
        reveal_strlit("*");
    }
    let stars = chars_of("**");
    let star = chars_of("*");
    let n = rv.len();
    if ends_with_chars(rv.as_slice(), stars.as_slice()) {
        let prefix = sub_chars(rv.as_slice(), 0, n - 2);
        assert(rv@.subrange(0, n - 2) =~= rv@.take(n - 2));
        starts_with_chars(path, prefix.as_slice())
    } else if ends_with_chars(rv.as_slice(), star.as_slice()) {
        let prefix = sub_chars(rv.as_slice(), 0, n - 1);
        assert(rv@.subrange(0, n - 1) =~= rv@.take(n - 1));
        starts_with_chars(path, prefix.as_slice())
    } else {
        crate::text::chars_eq(path, rv.as_slice())
    }
}

fn rules_allow_exec(rules: &Option<Vec<String>>, path: &str) -> (r: bool)
    ensures
        r == rules_allow(*rules, path@),
{
    let pv = chars_of(path);
    match rules {
        None => false,
        Some(rs) => {
            let mut i: usize = 0;
            while i < rs.len()
                invariant
                    *rules == Some(*rs),
                    pv@ == path@,
                    i <= rs@.len(),
                    forall|k: int| 0 <= k < i ==> !rule_allows((#[trigger] rs@[k])@, path@),
                decreases rs@.len() - i,
            {
                if rule_allows_exec(rs[i].as_str(), pv.as_slice()) {
                    assert(rule_allows(rs@[i as int]@, path@));
                    assert((*rules)->0@[i as int] == rs@[i as int]);
                    return true;
                }
                i = i + 1;
            }
            false
        },
    }
}

/// Whether the manifest lets the agent read `path`.
pub fn check_fs_read_permission(path: &str, manifest: &AgentManifest) -> (r: bool)
    ensures
        r == rules_allow(manifest.permissions.fs_read, path@),
{
    rules_allow_exec(&manifest.permissions.fs_read, path)
}

/// Whether the manifest lets the agent write `path`.
pub fn check_fs_write_permission(path: &str, manifest: &AgentManifest) -> (r: bool)
    ensures
        r == rules_allow(manifest.permissions.fs_write, path@),
{
    rules_allow_exec(&manifest.permissions.fs_write, path)
}

/// Without a rule list, or with an empty one, no path is granted.
pub proof fn law_deny_by_default(rules: Option<Vec<String>>, path: Seq<char>)
    requires
        rules matches Some(rs) ==> rs@.len() == 0,
    ensures
        !rules_allow(rules, path),
{
}

/// A rule without a trailing star grants exactly the path it names.
pub proof fn law_exact_rule(rule: Seq<char>, path: Seq<char>)
    requires
        !has_suffix(rule, "*"@),
    ensures
        rule_allows(rule, path) <==> path == rule,
{
    reveal_strlit("*");
    reveal_strlit("**");
    if has_suffix(rule, "**"@) {
        assert(rule.skip(rule.len() - 1) =~= rule.skip(rule.len() - 2).skip(1));
        assert("**"@.skip(1) =~= "*"@);
    }
}

/// A star rule grants every path that extends the text before its stars.
pub proof fn law_star_rule_grants_extensions(rule: Seq<char>, path: Seq<char>)
    requires
        has_suffix(rule, "*"@),
    ensures
        has_suffix(rule, "**"@) ==> (rule_allows(rule, path) <==> has_prefix(path, rule.take(rule.len() - 2))),
        !has_suffix(rule, "**"@) ==> (rule_allows(rule, path) <==> has_prefix(path, rule.take(rule.len() - 1))),
{
}

/// Granting one more rule never withdraws access.
pub proof fn law_more_rules_grant_more(rs: Vec<String>, extra: Vec<String>, path: Seq<char>)
    requires
        forall|i: int| 0 <= i < rs@.len() ==> #[trigger] extra@.contains(rs@[i]),
        rules_allow(Some(rs), path),
    ensures
        rules_allow(Some(extra), path),
{
    let i = choose|i: int| 0 <= i < rs@.len() && rule_allows((#[trigger] rs@[i])@, path);
    assert(extra@.contains(rs@[i]));
    let j = choose|j: int| 0 <= j < extra@.len() && extra@[j] == rs@[i];
    assert(0 <= j < extra@.len());
    assert(rule_allows(extra@[j]@, path));
    let opt = Some(extra);
    assert(opt->0@[j] == extra@[j]);
}

// ───────────────────────── syscall answers ─────────────────────────

/// How many bytes of an answer fit the guest's buffer of `out_max` bytes.
pub open spec fn copy_len(answer_len: nat, out_max: i32) -> nat {
    if answer_len <= (out_max as usize) as nat {
        answer_len
    } else {
        (out_max as usize) as nat
    }
}

pub fn copy_length(answer: &str, out_max: i32) -> (r: usize)
    ensures
        r as nat == copy_len(byte_len(answer@), out_max),
{
    let n = str_byte_len(answer);
    let m = out_max as usize;
    if n <= m {
        n
    } else {
        m
    }
}

pub open spec fn permission_denied() -> Seq<char> {
    "[Security] PERMISSION_DENIED"@
}

/// The answer to `fs_read`: the file's contents when reading is granted and
/// succeeds, the error otherwise.
pub open spec fn fs_read_answer(allowed: bool, read: Result<Seq<char>, Seq<char>>) -> Seq<char> {
    if !allowed {
        permission_denied()
    } else {
        match read {
            Ok(c) => c,
            Err(e) => "Error reading file: "@ + e,
        }
    }
}

pub fn fs_read_response(allowed: bool, read: Result<String, String>) -> (r: String)
    ensures
        r@ == fs_read_answer(
            allowed,
            match read {
                Ok(c) => Ok(c@),
                Err(e) => Err(e@),
            },
        ),
{
    if !allowed {
        String::from_str("[Security] PERMISSION_DENIED")
    } else {
        match read {
            Ok(c) => c,
            Err(e) => {
                let mut r = String::from_str("Error reading file: ");
                r.append(e.as_str());
                r
            },
        }
    }
}

/// The answer to `fs_write`.
pub open spec fn fs_write_answer(allowed: bool, written: Result<(), Seq<char>>) -> Seq<char> {
    if !allowed {
        permission_denied()
    } else {
        match written {
            Ok(()) => "Successfully wrote to file."@,
            Err(e) => "Failed to write file: "@ + e,
        }
    }
}

pub fn fs_write_response(allowed: bool, written: Result<(), String>) -> (r: String)
    ensures
        r@ == fs_write_answer(
            allowed,
            match written {
                Ok(()) => Ok(()),
                Err(e) => Err(e@),
            },
        ),
{
    if !allowed {
        String::from_str("[Security] PERMISSION_DENIED")
    } else {
        match written {
            Ok(()) => String::from_str("Successfully wrote to file."),
            Err(e) => {
                let mut r = String::from_str("Failed to write file: ");
                r.append(e.as_str());
                r
            },
        }
    }
}

/// The trace result of `fs_write`: `OK` when the write succeeded.
pub open spec fn write_result_column(answer: Seq<char>) -> Seq<char> {
    if has_prefix(answer, "Successfully"@) {
        "OK"@
    } else {
        "Failed"@
    }
}

pub fn write_result_field(answer: &str) -> (r: String)
    ensures
        r@ == write_result_column(answer@),
{
    let a = chars_of(answer);
    let p = chars_of("Successfully");
    if starts_with_chars(a.as_slice(), p.as_slice()) {
        String::from_str("OK")
    } else {
        String::from_str("Failed")
    }
}

/// The outcome of an HTTP GET.
pub enum Fetch {
    Body(String),
    Undecodable,
    Failed(String),
}

/// The answer to `web_get`: refused unless the manifest grants network access.
pub open spec fn web_get_answer(network: bool, fetch: Fetch) -> Seq<char> {
    if !network {
        "[Security] NETWORK_DISABLED_IN_MANIFEST"@
    } else {
        match fetch {
            Fetch::Body(b) => b@,
            Fetch::Undecodable => "Failed to decode response"@,
            Fetch::Failed(e) => "HTTP Request failed: "@ + e@,
        }
    }
}

pub fn web_get_response(network: bool, fetch: Fetch) -> (r: String)
    ensures
        r@ == web_get_answer(network, fetch),
{
    if !network {
        String::from_str("[Security] NETWORK_DISABLED_IN_MANIFEST")
    } else {
        match fetch {
            Fetch::Body(b) => b,
            Fetch::Undecodable => String::from_str("Failed to decode response"),
            Fetch::Failed(e) => {
                let mut r = String::from_str("HTTP Request failed: ");
                r.append(e.as_str());
                r
            },
        }
    }
}

/// The answer to `llm_infer`: the model's text, or the inference error.
pub open spec fn infer_answer(outcome: Result<Seq<char>, Seq<char>>) -> Seq<char> {
    match outcome {
        Ok(t) => t,
        Err(e) => "LLM Inference Error: "@ + e,
    }
}

pub fn infer_response(outcome: Result<String, String>) -> (r: String)
    ensures
        r@ == infer_answer(
            match outcome {
                Ok(t) => Ok(t@),
                Err(e) => Err(e@),
            },
        ),
{
    match outcome {
        Ok(t) => t,
        Err(e) => {
            let mut r = String::from_str("LLM Inference Error: ");
            r.append(e.as_str());
            r
        },
    }
}

/// The trace result of `llm_infer`: whether the reply mentions an action.
pub open spec fn infer_result_column(answer: Seq<char>) -> Seq<char> {
    if contains_seq(answer, "action"@) {
        "JSON OK"@
    } else {
        "Text"@
    }
}

pub fn infer_result_field(answer: &str) -> (r: String)
    ensures
        r@ == infer_result_column(answer@),
{
    let a = chars_of(answer);
    let p = chars_of("action");
    match find_chars(a.as_slice(), p.as_slice()) {
        Some(_) => {
            proof {
                crate::text::lemma_find_seq(a@, p@);
            }
            String::from_str("JSON OK")
        },
        None => {
            proof {
                crate::text::lemma_find_seq(a@, p@);
            }
            String::from_str("Text")
        },
    }
}

/// The answer to `mcp_call`.
pub enum McpOutcome {
    /// No server of that name runs.
    NoServer,
    /// The tool answered.
    Answered(String),
    /// The call failed, described as given.
    Failed(String),
}

pub open spec fn mcp_answer(server: Seq<char>, outcome: McpOutcome) -> Seq<char> {
    match outcome {
        McpOutcome::NoServer => "MCP Error: Server '"@ + server + "' not running"@,
        McpOutcome::Answered(t) => t@,
        McpOutcome::Failed(e) => "MCP Error calling tool: "@ + e@,
    }
}

pub fn mcp_response(server: &str, outcome: McpOutcome) -> (r: String)
    ensures
        r@ == mcp_answer(server@, outcome),
{
    match outcome {
        McpOutcome::NoServer => {
            let mut r = String::from_str("MCP Error: Server '");
            r.append(server);
            r.append("' not running");
            r
        },
        McpOutcome::Answered(t) => t,
        McpOutcome::Failed(e) => {
            let mut r = String::from_str("MCP Error calling tool: ");
            r.append(e.as_str());
            r
        },
    }
}

/// The answer to `memory_recall`: the first stored memory that matches,
/// or a note that none does.
pub open spec fn recall_answer(found: Option<Seq<char>>) -> Seq<char> {
    match found {
        Some(m) => m,
        None => "No memory found."@,
    }
}

pub fn recall_response(found: Option<String>) -> (r: String)
    ensures
        r@ == recall_answer(
            match found {
                Some(m) => Some(m@),
                None => None,
            },
        ),
{
    match found {
        Some(m) => m,
        None => String::from_str("No memory found."),
    }
}

/// The SQL `LIKE` pattern matching memories that contain `query`.
pub fn like_pattern(query: &str) -> (r: String)
    ensures
        r@ == "%"@ + query@ + "%"@,
{
    let mut r = String::from_str("%");
    r.append(query);
    r.append("%");
    r
}

/// A host call a compiled agent made, with what its trace shows.
pub enum HostCall {
    FsRead { path: String },
    FsWrite { path: String },
    GetGoal,
    GetTools,
    WebGet { url: String },
    MemStore { content: String, stored: bool },
    MemRecall { query: String },
    LlmInfer { prompt_tokens: u32, gen_tokens: u32 },
    Mcp { server: String, tool: String, args: String },
    AgentSend { agent: String, target: String, sent: bool },
    AgentRecv { agent: String },
    EvalJs { code: String },
}

pub open spec fn ok_or_failed(ok: bool) -> Seq<char> {
    if ok {
        "OK"@
    } else {
        "Failed"@
    }
}

/// The `(action, args, tokens, result)` columns of a host call's trace;
/// `answer` is the text the call produced and `copied` the bytes of it
/// the guest received.
pub open spec fn host_trace_of(call: HostCall, answer: Seq<char>, copied: nat) -> (Seq<char>, Seq<char>, Seq<char>, Seq<char>) {
    match call {
        HostCall::FsRead { path } => ("fs_read"@, path@, "-"@, size_column(copied)),
        HostCall::FsWrite { path } => ("fs_write"@, path@, "-"@, write_result_column(answer)),
        HostCall::GetGoal => ("get_goal"@, "-"@, "-"@, size_column(copied)),
        HostCall::GetTools => ("get_tools"@, "-"@, "-"@, size_column(copied)),
        HostCall::WebGet { url } => ("web_get"@, url@, "-"@, size_column(copied)),
        HostCall::MemStore { content, stored } => (
            "mem_store"@,
            clip(content@, 30, 27),
            "-"@,
            ok_or_failed(stored),
        ),
        HostCall::MemRecall { query } => ("mem_recall"@, query@, "-"@, size_column(copied)),
        HostCall::LlmInfer { prompt_tokens, gen_tokens } => (
            "llm_infer"@,
            "(prompt)"@,
            token_column(prompt_tokens as nat, gen_tokens as nat),
            infer_result_column(answer),
        ),
        HostCall::Mcp { server, tool, args } => (
            "mcp:"@ + tool@,
            server@ + ": "@ + args@,
            "-"@,
            size_column(copied),
        ),
        HostCall::AgentSend { agent, target, sent } => (
            "agent_send"@,
            agent@ + " -> "@ + target@,
            "-"@,
            ok_or_failed(sent),
        ),
        HostCall::AgentRecv { agent } => ("agent_recv"@, agent@, "-"@, size_column(copied)),
        HostCall::EvalJs { code } => ("eval_js"@, clip(code@, 30, 27), "-"@, size_column(copied)),
    }
}

/// The texts a host call's trace cuts must be cut on character boundaries.
pub open spec fn host_trace_ok(call: HostCall) -> bool {
    match call {
        HostCall::MemStore { content, .. } => clip_ok(content@, 30, 27),
        HostCall::EvalJs { code } => clip_ok(code@, 30, 27),
        _ => true,
    }
}

fn ok_or_failed_text(ok: bool) -> (r: String)
    ensures
        r@ == ok_or_failed(ok),
{
    if ok {
        String::from_str("OK")
    } else {
        String::from_str("Failed")
    }
}

/// The trace of a host call made as step `step`.
pub fn host_trace(step: u32, call: &HostCall, answer: &str, copied: usize, latency: Duration) -> (r: AgentTrace)
    requires
        host_trace_ok(*call),
    ensures
        r.step == step,
        r.latency == latency,
        (r.action@, r.args@, r.tokens@, r.result@) == host_trace_of(*call, answer@, copied as nat),
{
    let dash = String::from_str("-");
    let (action, args, tokens, result) = match call {
        HostCall::FsRead { path } => (String::from_str("fs_read"), path.clone(), dash, size_field(copied)),
        HostCall::FsWrite { path } => (
            String::from_str("fs_write"),
            path.clone(),
            dash,
            write_result_field(answer),
        ),
        HostCall::GetGoal => (String::from_str("get_goal"), String::from_str("-"), dash, size_field(copied)),
        HostCall::GetTools => (String::from_str("get_tools"), String::from_str("-"), dash, size_field(copied)),
        HostCall::WebGet { url } => (String::from_str("web_get"), url.clone(), dash, size_field(copied)),
        HostCall::MemStore { content, stored } => (
            String::from_str("mem_store"),
            short_args(content.as_str()),
            dash,
            ok_or_failed_text(*stored),
        ),
        HostCall::MemRecall { query } => (
            String::from_str("mem_recall"),
            query.clone(),
            dash,
            size_field(copied),
        ),
        HostCall::LlmInfer { prompt_tokens, gen_tokens } => (
            String::from_str("llm_infer"),
            String::from_str("(prompt)"),
            token_field(*prompt_tokens, *gen_tokens),
            infer_result_field(answer),
        ),
        HostCall::Mcp { server, tool, args } => {
            let mut action = String::from_str("mcp:");
            action.append(tool.as_str());
            let mut a = server.clone();
            a.append(": ");
            a.append(args.as_str());
            (action, a, dash, size_field(copied))
        },
        HostCall::AgentSend { agent, target, sent } => {
            let mut a = agent.clone();
            a.append(" -> ");
            a.append(target.as_str());
            (String::from_str("agent_send"), a, dash, ok_or_failed_text(*sent))
        },
        HostCall::AgentRecv { agent } => (
            String::from_str("agent_recv"),
            agent.clone(),
            dash,
            size_field(copied),
        ),
        HostCall::EvalJs { code } => (
            String::from_str("eval_js"),
            short_args(code.as_str()),
            dash,
            size_field(copied),
        ),
    };
    AgentTrace { step, action, args, tokens, latency, result }
}

/// The step number of the next trace: one more than the traces recorded
/// (kept in a `u32`, wrapping).
pub fn next_step(traces: &Vec<AgentTrace>) -> (r: u32)
    ensures
        r as int == (traces@.len() + 1) % 0x1_0000_0000,
{
    let n = traces.len() as u64;
    let m = (n % 0x1_0000_0000) as u32;
    if m == u32::MAX {
        0
    } else {
        m + 1
    }
}

/// The dashboard after a syscall's trace is recorded: the trace is kept,
/// the call is logged as `[Agent <name>] <tag>: <action> -> <result>`, the
/// agent is listed as running at the trace's step with `memory_kb`, and
/// nothing else changes.
pub open spec fn trace_recorded(
    before: DashboardState,
    after: DashboardState,
    agent_name: Seq<char>,
    event_tag: Seq<char>,
    memory_kb: usize,
    trace: AgentTrace,
) -> bool {
    &&& agents_updated(before.agents@, after.agents@, agent_name, "RUNNING"@, trace.step, memory_kb)
    &&& after.traces@ == before.traces@.push(trace)
    &&& after.logs@.len() == before.logs@.len() + 1
    &&& after.logs@.take(before.logs@.len() as int) == before.logs@
    &&& after.logs@.last()@ == "[Agent "@ + agent_name + "] "@ + event_tag + ": "@ + trace.action@
        + " -> "@ + trace.result@
    &&& exists|i: int|
        0 <= i < after.agents@.len() && (#[trigger] after.agents@[i]).name@ == agent_name
            && after.agents@[i].step == trace.step
    &&& after.is_running == before.is_running
    &&& after.paused == before.paused
    &&& after.debug_step == before.debug_step
    &&& after.db_memories == before.db_memories
    &&& after.message_bus_log == before.message_bus_log
}

/// Records a syscall's trace: the dashboard shows the agent running at
/// this step, logs the call, and keeps the trace; the agent keeps it too.
pub fn record_trace(
    dash: &mut DashboardState,
    traces: &mut Vec<AgentTrace>,
    agent_name: &str,
    event_tag: &str,
    memory_kb: usize,
    trace: AgentTrace,
)
    ensures
        final(traces)@ == old(traces)@.push(trace),
        trace_recorded(*old(dash), *final(dash), agent_name@, event_tag@, memory_kb, trace),
{
    update_agent(dash, agent_name, "RUNNING", trace.step, memory_kb);
    proof {
        reveal(agents_updated);
        crate::dashboard::lemma_agent_index(old(dash).agents@, agent_name@);
        let a = dash.agents@;
        if let Some(i) = crate::dashboard::agent_index(old(dash).agents@, agent_name@) {
            assert(a[i].name == old(dash).agents@[i].name);
            assert(a[i].name@ == agent_name@ && a[i].step == trace.step);
        } else {
            assert(a[a.len() - 1].name@ == agent_name@ && a[a.len() - 1].step == trace.step);
        }
    }
    let ghost agents_now = dash.agents@;
    let mut msg = String::from_str("[Agent ");
    msg.append(agent_name);
    msg.append("] ");
    msg.append(event_tag);
    msg.append(": ");
    msg.append(trace.action.as_str());
    msg.append(" -> ");
    msg.append(trace.result.as_str());
    log_event(dash, msg);
    add_trace(dash, trace.copy());
    traces.push(trace);
    assert(dash.agents@ == agents_now);
    assert(dash.logs@.take(old(dash).logs@.len() as int) =~= old(dash).logs@);
}

// ───────────────────────── the JavaScript bundle ─────────────────────────

/// The marker that precedes a packaged JavaScript agent inside a module.
pub open spec fn bundle_marker() -> Seq<u8> {
    seq![110u8, 97, 110, 111, 115, 95, 106, 115, 95, 98, 117, 110, 100, 108, 101]
}

pub open spec fn marker_at(bytes: Seq<u8>, i: int) -> bool {
    0 <= i && i + 15 <= bytes.len() && bytes.subrange(i, i + 15) == bundle_marker()
}

/// Where the packaged JavaScript starts: just after the first marker.
pub open spec fn bundle_start(bytes: Seq<u8>) -> Option<int> {
    if exists|i: int| marker_at(bytes, i) {
        Some(
            (choose|i: int| marker_at(bytes, i) && forall|j: int| 0 <= j < i ==> !marker_at(bytes, j))
                + 15,
        )
    } else {
        None
    }
}

fn marker_at_exec(bytes: &[u8], i: usize) -> (r: bool)
    ensures
        r == marker_at(bytes@, i as int),
{
    let n = bytes.len();
    if i > n || n - i < 15 {
        return false;
    }
    let marker: [u8; 15] = [110, 97, 110, 111, 115, 95, 106, 115, 95, 98, 117, 110, 100, 108, 101];
    assert(marker@ =~= bundle_marker());
    let mut k: usize = 0;
    while k < 15
        invariant
            n == bytes@.len(),
            i + 15 <= n,
            k <= 15,
            marker@ == bundle_marker(),
            forall|m: int| 0 <= m < k ==> bytes@[i + m] == marker@[m],
        decreases 15 - k,
    {
        if bytes[i + k] != marker[k] {
            assert(bytes@.subrange(i as int, i + 15)[k as int] != bundle_marker()[k as int]);
            return false;
        }
        k = k + 1;
    }
    assert(bytes@.subrange(i as int, i + 15) =~= bundle_marker());
    true
}

/// Finds the JavaScript bundle packaged inside a module, if there is one.
pub fn find_js_bundle(bytes: &[u8]) -> (r: Option<usize>)
    ensures
        r matches Some(s) ==> bundle_start(bytes@) == Some(s as int) && s <= bytes@.len(),
        r is None ==> bundle_start(bytes@) is None,
{
    let n = bytes.len();
    let mut i: usize = 0;
    while i < n
        invariant
            n == bytes@.len(),
            i <= n,
            forall|j: int| 0 <= j < i ==> !marker_at(bytes@, j),
        decreases n - i,
    {
        if marker_at_exec(bytes, i) {
            proof {
                let w = choose|w: int|
                    marker_at(bytes@, w) && forall|j: int| 0 <= j < w ==> !marker_at(bytes@, j);
                if w < i {
                } else if w > i {
                }
            }
            return Some(i + 15);
        }
        i = i + 1;
    }
    assert forall|j: int| !marker_at(bytes@, j) by {}
    None
}

// ───────────────────────── eval_js ─────────────────────────

/// What a finished child process reported.
pub struct ProcessOutput {
    pub success: bool,
    pub code: Option<i32>,
    pub stdout: String,
    pub stderr: String,
}

pub open spec fn node_missing_answer() -> Seq<char> {
    "eval_js error: Node.js not found on host. Install Node.js >= 20 for sandboxed JS execution."@
}

pub fn node_missing_response() -> (r: String)
    ensures
        r@ == node_missing_answer(),
{
    String::from_str(
        "eval_js error: Node.js not found on host. Install Node.js >= 20 for sandboxed JS execution.",
    )
}

/// The first line of `s` (`str::lines().next()`): the text before the first
/// newline, without a trailing carriage return.
pub open spec fn first_line(s: Seq<char>) -> Option<Seq<char>> {
    if s.len() == 0 {
        None
    } else {
        let l = match find_seq(s, seq!['\n']) {
            Some(k) => s.take(k),
            None => s,
        };
        Some(if l.len() > 0 && l.last() == '\r' { l.drop_last() } else { l })
    }
}

fn first_line_exec(s: &str) -> (r: Option<String>)
    ensures
        match r {
            Some(x) => first_line(s@) == Some(x@),
            None => first_line(s@) is None,
        },
{
    let v = chars_of(s);
    if v.len() == 0 {
        return None;
    }
    let end = match crate::text::find_char_exec(v.as_slice(), '\n') {
        Some(k) => k,
        None => v.len(),
    };
    let l = sub_chars(v.as_slice(), 0, end);
    let ghost expect = match find_seq(v@, seq!['\n']) {
        Some(k) => v@.take(k),
        None => v@,
    };
    assert(l@ =~= expect);
    let n = l.len();
    if n > 0 && l[n - 1] == '\r' {
        let t = sub_chars(l.as_slice(), 0, n - 1);
        assert(t@ =~= l@.drop_last());
        Some(crate::text::string_of(t.as_slice()))
    } else {
        Some(crate::text::string_of(l.as_slice()))
    }
}

/// What the sandboxed script's run produced, before the size cap.
pub open spec fn eval_js_text(out: ProcessOutput) -> Seq<char> {
    if out.success {
        out.stdout@
    } else if out.code == Some(124i32) {
        "eval_js error: Execution timed out (5s limit exceeded)"@
    } else if contains_seq(out.stderr@, "ERR_ACCESS_DENIED"@) {
        "eval_js sandbox violation: "@ + match first_line(out.stderr@) {
            Some(l) => l,
            None => "Access denied"@,
        }
    } else {
        "JS Error: "@ + out.stderr@
    }
}

/// The answer to `eval_js`: the run's text, cut to 64 KiB with a note.
pub open spec fn eval_js_answer(out: ProcessOutput) -> Seq<char> {
    let t = eval_js_text(out);
    if byte_len(t) > 65536 {
        byte_prefix(t, 65536) + "\n[output truncated at 64KB]"@
    } else {
        t
    }
}

/// Whether the run's text can be cut at 64 KiB on a character boundary.
pub open spec fn eval_js_cut_ok(out: ProcessOutput) -> bool {
    byte_len(eval_js_text(out)) > 65536 ==> char_boundary(eval_js_text(out), 65536)
}

fn eval_js_text_exec(out: &ProcessOutput) -> (r: String)
    ensures
        r@ == eval_js_text(*out),
{
    if out.success {
        out.stdout.clone()
    } else if out.code == Some(124i32) {
        String::from_str("eval_js error: Execution timed out (5s limit exceeded)")
    } else {
        let e = chars_of(out.stderr.as_str());
        let pat = chars_of("ERR_ACCESS_DENIED");
        match find_chars(e.as_slice(), pat.as_slice()) {
            Some(_) => {
                proof {
                    crate::text::lemma_find_seq(e@, pat@);
                }
                let mut r = String::from_str("eval_js sandbox violation: ");
                match first_line_exec(out.stderr.as_str()) {
                    Some(l) => r.append(l.as_str()),
                    None => r.append("Access denied"),
                }
                r
            },
            None => {
                proof {
                    crate::text::lemma_find_seq(e@, pat@);
                }
                let mut r = String::from_str("JS Error: ");
                r.append(out.stderr.as_str());
                r
            },
        }
    }
}

/// The flag that turns on Node.js's permission model: `--permission` where
/// `node --permission --version` succeeds, the experimental flag elsewhere.
pub fn node_permission_flag(permission_supported: bool) -> (r: &'static str)
    ensures
        r@ == if permission_supported {
            "--permission"@
        } else {
            "--experimental-permission"@
        },
{
    if permission_supported {
        "--permission"
    } else {
        "--experimental-permission"
    }
}

/// The answer to `eval_js` from the time-limited run.
pub fn eval_js_response(out: &ProcessOutput) -> (r: String)
    requires
        eval_js_cut_ok(*out),
    ensures
        r@ == eval_js_answer(*out),
{
    let t = eval_js_text_exec(out);
    if str_byte_len(t.as_str()) > 65536 {
        let p = str_byte_prefix(t.as_str(), 65536);
        let mut r = String::from_str(p);
        r.append("\n[output truncated at 64KB]");
        r
    } else {
        t
    }
}

/// The answer to `eval_js` from the time-limited run, or `None` when the
/// 64 KiB cut would fall inside a character.
pub fn eval_js_response_checked(out: &ProcessOutput) -> (r: Option<String>)
    ensures
        r is Some <==> eval_js_cut_ok(*out),
        r matches Some(t) ==> t@ == eval_js_answer(*out),
{
    let t = eval_js_text_exec(out);
    if str_byte_len(t.as_str()) > 65536 && !t.as_str().is_char_boundary(65536) {
        return None;
    }
    Some(eval_js_response(out))
}

/// The answer to `eval_js` from the untimed fallback run.
pub open spec fn eval_js_fallback_answer(out: ProcessOutput) -> Seq<char> {
    if out.success {
        out.stdout@
    } else {
        "JS Error: "@ + out.stderr@
    }
}

pub fn eval_js_fallback_response(out: &ProcessOutput) -> (r: String)
    ensures
        r@ == eval_js_fallback_answer(*out),
{
    if out.success {
        out.stdout.clone()
    } else {
        let mut r = String::from_str("JS Error: ");
        r.append(out.stderr.as_str());
        r
    }
}

/// The answer to `eval_js` when neither run could be started.
pub fn eval_js_spawn_error(first: &str, fallback: &str) -> (r: String)
    ensures
        r@ == "eval_js spawn error: "@ + first@ + " (fallback: "@ + fallback@ + ")"@,
{
    let mut r = String::from_str("eval_js spawn error: ");
    r.append(first);
    r.append(" (fallback: ");
    r.append(fallback);
    r.append(")");
    r
}

// ───────────────────────── running the module ─────────────────────────

/// The module an agent runs: the manifest's binary, or the default build.
pub open spec fn wasm_path_of(manifest: AgentManifest) -> Seq<char> {
    match manifest.binary {
        Some(b) => b@,
        None => "nanos-core-agent/target/wasm32-unknown-unknown/debug/nanos_core_agent.wasm"@,
    }
}

pub fn wasm_path(manifest: &AgentManifest) -> (r: String)
    ensures
        r@ == wasm_path_of(*manifest),
{
    match &manifest.binary {
        Some(b) => b.clone(),
        None => String::from_str(
            "nanos-core-agent/target/wasm32-unknown-unknown/debug/nanos_core_agent.wasm",
        ),
    }
}

// ───────────────────────── the step budget ─────────────────────────

/// Whether the host carries out one more call for an agent that has made
/// `calls` traced calls so far: never once the agent has been stopped, and
/// never beyond `max_steps` calls in one run.
pub open spec fn call_admitted(calls: nat, max_steps: u32, stopped: bool) -> bool {
    !stopped && calls < max_steps
}

/// Decides whether the host carries out one more call (see `call_admitted`).
pub fn admit_call(calls: usize, max_steps: u32, stopped: bool) -> (r: bool)
    ensures
        r == call_admitted(calls as nat, max_steps, stopped),
{
    !stopped && (calls as u64) < (max_steps as u64)
}

/// A run whose calls are all admitted first makes at most `max_steps`
/// calls: admitting one more keeps the count within the budget.
pub proof fn law_admitted_calls_within_budget(calls: nat, max_steps: u32, stopped: bool)
    requires
        call_admitted(calls, max_steps, stopped),
    ensures
        calls + 1 <= max_steps,
{
}

/// What a refused call answers: that the agent was stopped, or that its
/// step budget is spent.
pub open spec fn refusal_message(stopped: bool) -> Seq<char> {
    if stopped {
        "Error: agent was stopped."@
    } else {
        "Error: max_steps limit reached."@
    }
}

pub fn refusal_text(stopped: bool) -> (r: String)
    ensures
        r@ == refusal_message(stopped),
{
    if stopped {
        String::from_str("Error: agent was stopped.")
    } else {
        String::from_str("Error: max_steps limit reached.")
    }
}

// ───────────────────────── waiting for a message ─────────────────────────

/// How often the host looks for a message before `agent_recv` gives up.
pub open spec fn recv_poll_limit() -> nat {
    100
}

/// Whether `agent_recv` looks for a message once more after `attempts`
/// empty looks.
pub fn recv_poll_again(attempts: u32) -> (r: bool)
    ensures
        r == (attempts < recv_poll_limit()),
{
    attempts < 100
}

/// The pause, in milliseconds, after each empty look.
pub fn recv_poll_interval_ms() -> (r: u64)
    ensures
        r == 100,
{
    100
}

/// How a run that trapped ends: a trap with no fuel left is the agent
/// running out of steps, and the run ends normally; any other trap is an
/// error.
pub fn trap_is_fuel_exhaustion(remaining_fuel: Option<u64>) -> (r: bool)
    ensures
        r == (match remaining_fuel {
            Some(f) => f == 0,
            None => true,
        }),
{
    match remaining_fuel {
        Some(f) => f == 0,
        None => true,
    }
}

/// Fuel consumed out of the budget.
pub fn fuel_used(budget: u64, remaining: u64) -> (r: u64)
    ensures
        r == if remaining <= budget {
            (budget - remaining) as u64
        } else {
            0
        },
{
    budget.saturating_sub(remaining)
}

} // verus!
