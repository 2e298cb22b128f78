//! The guest agent's reasoning loop: the ChatML system prompt, extraction of
//! the model's JSON tool call, the routing of a tool call to a host syscall,
//! and the conversation state between turns.
use vstd::prelude::*;
use vstd::string::*;
use crate::text::{
    byte_len, byte_prefix, char_boundary, chars_of, find_char, find_char_exec, str_byte_len,
    str_byte_prefix, str_eq, trim, trim_str, utf8_text,
};
use crate::json::{JsonValue, as_text, get_member, get_member_text, get_text, json_render, member, member_text, render_json};
use vstd::utf8::{decode_utf8, valid_utf8};

verus! {

// ───────────────────────── JSON object extraction ─────────────────────────

/// Scans `s` from index `i` for the brace that closes the object opened
/// before `i`, tracking string literals and backslash escapes inside them.
/// `depth` counts the open braces. The result is the index just past the
/// closing brace.
pub open spec fn scan_object(s: Seq<char>, i: int, depth: int, in_str: bool, esc: bool) -> Option<int>
    decreases s.len() - i,
{
    if i < 0 || i >= s.len() {
        None
    } else {
        let c = s[i];
        if esc {
            scan_object(s, i + 1, depth, in_str, false)
        } else if c == '\\' && in_str {
            scan_object(s, i + 1, depth, in_str, true)
        } else if c == '"' {
            scan_object(s, i + 1, depth, !in_str, false)
        } else if c == '{' && !in_str {
            scan_object(s, i + 1, depth + 1, in_str, false)
        } else if c == '}' && !in_str {
            if depth - 1 == 0 {
                Some(i + 1)
            } else {
                scan_object(s, i + 1, depth - 1, in_str, false)
            }
        } else {
            scan_object(s, i + 1, depth, in_str, false)
        }
    }
}

/// The brace depth reached while scanning never leaves the `i32` range.
pub open spec fn scan_fits(s: Seq<char>, i: int, depth: int, in_str: bool, esc: bool) -> bool
    decreases s.len() - i,
{
    if i < 0 || i >= s.len() {
        true
    } else {
        let c = s[i];
        if esc {
            scan_fits(s, i + 1, depth, in_str, false)
        } else if c == '\\' && in_str {
            scan_fits(s, i + 1, depth, in_str, true)
        } else if c == '"' {
            scan_fits(s, i + 1, depth, !in_str, false)
        } else if c == '{' && !in_str {
            depth + 1 <= i32::MAX && scan_fits(s, i + 1, depth + 1, in_str, false)
        } else if c == '}' && !in_str {
            depth - 1 == 0 || scan_fits(s, i + 1, depth - 1, in_str, false)
        } else {
            scan_fits(s, i + 1, depth, in_str, false)
        }
    }
}

/// The first balanced JSON object `{...}` in `t`: it starts at the first `{`
/// and ends at the brace that closes it, braces inside string literals not
/// counting.
pub open spec fn first_json_object(t: Seq<char>) -> Option<Seq<char>> {
    match find_char(t, '{') {
        None => None,
        Some(st) => match scan_object(t, st, 0, false, false) {
            Some(e) => Some(t.subrange(st, e)),
            None => None,
        },
    }
}

/// Scanning `t` for its first object keeps the brace depth within `i32`.
pub open spec fn json_scan_fits(t: Seq<char>) -> bool {
    match find_char(t, '{') {
        None => true,
        Some(st) => scan_fits(t, st, 0, false, false),
    }
}

proof fn lemma_scan_fits_bounded(s: Seq<char>, i: int, depth: int, in_str: bool, esc: bool)
    requires
        0 <= i,
        0 <= depth,
        depth + (s.len() - i) <= i32::MAX,
    ensures
        scan_fits(s, i, depth, in_str, esc),
    decreases s.len() - i,
{
    if i < s.len() {
        let c = s[i];
        if esc {
            lemma_scan_fits_bounded(s, i + 1, depth, in_str, false);
        } else if c == '\\' && in_str {
            lemma_scan_fits_bounded(s, i + 1, depth, in_str, true);
        } else if c == '"' {
            lemma_scan_fits_bounded(s, i + 1, depth, !in_str, false);
        } else if c == '{' && !in_str {
            lemma_scan_fits_bounded(s, i + 1, depth + 1, in_str, false);
        } else if c == '}' && !in_str {
            if depth - 1 != 0 && depth >= 1 {
                lemma_scan_fits_bounded(s, i + 1, depth - 1, in_str, false);
            } else if depth - 1 != 0 {
                assert(depth == 0);
                lemma_scan_fits_ge(s, i + 1, depth - 1, in_str, false);
            }
        } else {
            lemma_scan_fits_bounded(s, i + 1, depth, in_str, false);
        }
    }
}

proof fn lemma_scan_fits_ge(s: Seq<char>, i: int, depth: int, in_str: bool, esc: bool)
    requires
        0 <= i,
        depth + (s.len() - i) <= i32::MAX,
    ensures
        scan_fits(s, i, depth, in_str, esc),
    decreases s.len() - i,
{
    if i < s.len() {
        let c = s[i];
        if esc {
            lemma_scan_fits_ge(s, i + 1, depth, in_str, false);
        } else if c == '\\' && in_str {
            lemma_scan_fits_ge(s, i + 1, depth, in_str, true);
        } else if c == '"' {
            lemma_scan_fits_ge(s, i + 1, depth, !in_str, false);
        } else if c == '{' && !in_str {
            lemma_scan_fits_ge(s, i + 1, depth + 1, in_str, false);
        } else if c == '}' && !in_str {
            if depth - 1 != 0 {
                lemma_scan_fits_ge(s, i + 1, depth - 1, in_str, false);
            }
        } else {
            lemma_scan_fits_ge(s, i + 1, depth, in_str, false);
        }
    }
}

/// Any text shorter than `i32::MAX` characters can be scanned.
pub proof fn lemma_json_scan_fits_short(t: Seq<char>)
    requires
        t.len() <= i32::MAX,
    ensures
        json_scan_fits(t),
{
    crate::text::lemma_find_seq(t, seq!['{']);
    if let Some(st) = find_char(t, '{') {
        lemma_scan_fits_ge(t, st, 0, false, false);
    }
}

/// The lexical state after reading `t[start..i]` from left to right:
/// `(inside a string literal, the next character is escaped, brace depth)`.
/// A quote toggles string mode, a backslash inside a string escapes the next
/// character, and braces count only outside strings.
pub open spec fn lex_state(t: Seq<char>, start: int, i: int) -> (bool, bool, int)
    decreases i - start,
{
    if i <= start {
        (false, false, 0)
    } else {
        let (in_str, esc, depth) = lex_state(t, start, i - 1);
        let c = t[i - 1];
        if esc {
            (in_str, false, depth)
        } else if in_str && c == '\\' {
            (true, true, depth)
        } else if c == '"' {
            (!in_str, false, depth)
        } else if in_str {
            (true, false, depth)
        } else if c == '{' {
            (false, false, depth + 1)
        } else if c == '}' {
            (false, false, depth - 1)
        } else {
            (false, false, depth)
        }
    }
}

proof fn lemma_scan_follows_lex(t: Seq<char>, st: int, i: int)
    requires
        0 <= st < t.len(),
        t[st] == '{',
        st < i <= t.len(),
        forall|j: int| st < j <= i ==> (#[trigger] lex_state(t, st, j)).2 >= 1,
    ensures
        scan_object(t, st, 0, false, false) == scan_object(
            t,
            i,
            lex_state(t, st, i).2,
            lex_state(t, st, i).0,
            lex_state(t, st, i).1,
        ),
    decreases i - st,
{
    if i == st + 1 {
        assert(lex_state(t, st, st) == (false, false, 0int));
    } else {
        lemma_scan_follows_lex(t, st, i - 1);
        let p = lex_state(t, st, i - 1);
        assert(p.2 >= 1);
        assert(lex_state(t, st, i).2 >= 1);
    }
}

proof fn lemma_scan_closes(t: Seq<char>, st: int, i: int, e: int)
    requires
        0 <= st < t.len(),
        t[st] == '{',
        st < i <= t.len(),
        forall|j: int| st < j <= i ==> (#[trigger] lex_state(t, st, j)).2 >= 1,
        scan_object(t, st, 0, false, false) == Some(e),
    ensures
        i < e <= t.len(),
        t[e - 1] == '}',
        lex_state(t, st, e - 1) == (false, false, 1int),
        forall|j: int| st < j < e ==> (#[trigger] lex_state(t, st, j)).2 >= 1,
    decreases t.len() - i,
{
    lemma_scan_follows_lex(t, st, i);
    let p = lex_state(t, st, i);
    if i >= t.len() {
        assert(scan_object(t, i, p.2, p.0, p.1) is None);
    } else {
        let c = t[i];
        let q = lex_state(t, st, i + 1);
        if !p.1 && !(c == '\\' && p.0) && c != '"' && c == '}' && !p.0 && p.2 - 1 == 0 {
            assert(scan_object(t, i, p.2, p.0, p.1) == Some(i + 1));
            assert(e == i + 1);
        } else {
            assert(q.2 >= 1);
            assert forall|j: int| st < j <= i + 1 implies (#[trigger] lex_state(t, st, j)).2 >= 1 by {
                if j <= i {
                }
            }
            lemma_scan_closes(t, st, i + 1, e);
        }
    }
}

/// The object `extract_json` finds is the text from the first `{` to the
/// brace that closes it: that brace stands outside every string literal,
/// and before it the object never closes, so braces inside strings (and
/// escaped quotes) never end it.
pub proof fn law_extracted_object_closes_outside_strings(t: Seq<char>)
    ensures
        first_json_object(t) matches Some(o) ==> {
            let st = find_char(t, '{')->0;
            &&& 0 <= st && st + o.len() <= t.len()
            &&& t[st] == '{' && forall|k: int| 0 <= k < st ==> t[k] != '{'
            &&& o == t.subrange(st, st + o.len())
            &&& o.len() >= 2 && o[0] == '{' && o[o.len() - 1] == '}'
            &&& lex_state(t, st, st + o.len() - 1) == (false, false, 1int)
            &&& forall|j: int| st < j < st + o.len() ==> (#[trigger] lex_state(t, st, j)).2 >= 1
        },
{
    crate::text::lemma_find_seq(t, seq!['{']);
    if let Some(st) = find_char(t, '{') {
        if let Some(e) = scan_object(t, st, 0, false, false) {
            assert(t.subrange(st, st + 1) == seq!['{']);
            assert(t[st] == t.subrange(st, st + 1)[0]);
            assert(lex_state(t, st, st) == (false, false, 0int));
            assert(lex_state(t, st, st + 1).2 == 1);
            lemma_scan_closes(t, st, st + 1, e);
            let o = t.subrange(st, e);
            assert(o.len() == e - st);
            assert forall|k: int| 0 <= k < st implies t[k] != '{' by {
                if t[k] == '{' {
                    assert(t.subrange(k, k + 1) =~= seq!['{']);
                    assert(crate::text::occurs_at(t, seq!['{'], k));
                }
            }
        }
    }
}

/// Extracts the first balanced JSON object `{...}` from `text`, or `None`
/// when `text` has no `{` or the first object is never closed.
pub fn extract_json(text: &str) -> (r: Option<&str>)
    requires
        json_scan_fits(text@),
    ensures
        r is None <==> first_json_object(text@) is None,
        r matches Some(x) ==> first_json_object(text@) == Some(x@),
{
    let v = chars_of(text);
    let start = match find_char_exec(v.as_slice(), '{') {
        None => return None,
        Some(s) => s,
    };
    let n = v.len();
    let mut depth: i32 = 0;
    let mut in_string = false;
    let mut escape_next = false;
    let mut i = start;
    while i < n
        invariant
            v@ == text@,
            n == v@.len(),
            start <= i <= n,
            find_char(text@, '{') == Some(start as int),
            v@[start as int] == '{',
            (i == start && depth == 0 && !in_string && !escape_next) || (i > start && depth >= 1),
            scan_object(v@, start as int, 0, false, false) == scan_object(
                v@,
                i as int,
                depth as int,
                in_string,
                escape_next,
            ),
            scan_fits(v@, i as int, depth as int, in_string, escape_next),
        decreases n - i,
    {
        let c = v[i];
        if escape_next {
            escape_next = false;
        } else if c == '\\' && in_string {
            escape_next = true;
        } else if c == '"' {
            in_string = !in_string;
        } else if c == '{' && !in_string {
            depth = depth + 1;
        } else if c == '}' && !in_string {
            if depth - 1 == 0 {
                let r = text.substring_char(start, i + 1);
                return Some(r);
            }
            depth = depth - 1;
        }
        i = i + 1;
    }
    None
}

// ───────────────────────── the system prompt ─────────────────────────

pub open spec fn prompt_header() -> Seq<char> {
    "<|im_start|>system\nYou are a tool-calling AI agent. You MUST respond with exactly one raw JSON object per turn. No markdown, no explanation, no code fences, no backticks.\n\nAvailable tools:\n"@
}

pub open spec fn done_tool_line() -> Seq<char> {
    "- done: Task complete. Args = string (result summary).\n"@
}

pub open spec fn prompt_rules() -> Seq<char> {
    "\nIMPORTANT RULES:\n"@
        + "1. Respond with ONLY one JSON object containing 'action' and 'args'. No extra text.\n"@
        + "2. Once the goal is completed, call done.\n"@ + "\nExamples of correct format:\n"@
}

pub open spec fn prompt_footer() -> Seq<char> {
    "{\"action\": \"done\", \"args\": \"finished successfully\"}\n"@ + "<|im_end|>\n"@
}

/// The line describing tool `t` in the system prompt.
pub open spec fn tool_line(t: Seq<char>) -> Seq<char> {
    if t == "fs_read"@ {
        "- fs_read: Read a file. Args = string (the file path).\n"@
    } else if t == "fs_write"@ {
        "- fs_write: Write content to a file. Args = {\"path\": \"...\", \"content\": \"...\"}.\n"@
    } else if t == "web_get"@ {
        "- web_get: Fetch contents of a URL. Args = string (the URL).\n"@
    } else if t == "mcp_call"@ {
        "- mcp_call: Call an external MCP tool. Args = {\"server\": \"...\", \"tool\": \"...\", \"arguments\": {...}}.\n"@
    } else if t == "agent_send"@ {
        "- agent_send: Send a message to another agent. Args = {\"target\": \"...\", \"msg\": \"...\"}.\n"@
    } else if t == "agent_recv"@ {
        "- agent_recv: Receive the next message from your message queue. Args = null or empty object (no arguments needed).\n"@
    } else if t == "eval_js"@ {
        "- eval_js: Evaluate JavaScript code. Args = string (the code to run).\n"@
    } else if t == "done"@ {
        done_tool_line()
    } else {
        "- "@ + t + ": Execute tool "@ + t + ".\n"@
    }
}

/// The example call shown for tool `t`, if the prompt shows one.
pub open spec fn example_line(t: Seq<char>) -> Seq<char> {
    if t == "fs_read"@ {
        "{\"action\": \"fs_read\", \"args\": \"instruction.txt\"}\n"@
    } else if t == "fs_write"@ {
        "{\"action\": \"fs_write\", \"args\": {\"path\": \"output.txt\", \"content\": \"hello\"}}\n"@
    } else if t == "agent_send"@ {
        "{\"action\": \"agent_send\", \"args\": {\"target\": \"writer\", \"msg\": \"hello\"}}\n"@
    } else if t == "agent_recv"@ {
        "{\"action\": \"agent_recv\", \"args\": {}}\n"@
    } else {
        Seq::empty()
    }
}

pub open spec fn tool_lines(ts: Seq<Seq<char>>) -> Seq<char>
    decreases ts.len(),
{
    if ts.len() == 0 {
        Seq::empty()
    } else {
        tool_lines(ts.drop_last()) + tool_line(ts.last())
    }
}

pub open spec fn example_lines(ts: Seq<Seq<char>>) -> Seq<char>
    decreases ts.len(),
{
    if ts.len() == 0 {
        Seq::empty()
    } else {
        example_lines(ts.drop_last()) + example_line(ts.last())
    }
}

/// The views of a list of string slices.
pub open spec fn views(ts: Seq<&str>) -> Seq<Seq<char>> {
    ts.map_values(|t: &str| t@)
}

/// The ChatML system prompt for an agent allowed the given tools: one line
/// per tool in order, the `done` tool always listed, the rules, and an
/// example call per tool that has one.
pub open spec fn system_prompt(ts: Seq<Seq<char>>) -> Seq<char> {
    prompt_header() + tool_lines(ts) + (if ts.contains("done"@) {
        Seq::empty()
    } else {
        done_tool_line()
    }) + prompt_rules() + example_lines(ts) + prompt_footer()
}

fn append_tool_line(prompt: &mut String, tool: &str)
    ensures
        final(prompt)@ == old(prompt)@ + tool_line(tool@),
{
    if str_eq_lit(tool, "fs_read") {
        prompt.append("- fs_read: Read a file. Args = string (the file path).\n");
    } else if str_eq_lit(tool, "fs_write") {
        prompt.append(
            "- fs_write: Write content to a file. Args = {\"path\": \"...\", \"content\": \"...\"}.\n",
        );
    } else if str_eq_lit(tool, "web_get") {
        prompt.append("- web_get: Fetch contents of a URL. Args = string (the URL).\n");
    } else if str_eq_lit(tool, "mcp_call") {
        prompt.append(
            "- mcp_call: Call an external MCP tool. Args = {\"server\": \"...\", \"tool\": \"...\", \"arguments\": {...}}.\n",
        );
    } else if str_eq_lit(tool, "agent_send") {
        prompt.append(
            "- agent_send: Send a message to another agent. Args = {\"target\": \"...\", \"msg\": \"...\"}.\n",
        );
    } else if str_eq_lit(tool, "agent_recv") {
        prompt.append(
            "- agent_recv: Receive the next message from your message queue. Args = null or empty object (no arguments needed).\n",
        );
    } else if str_eq_lit(tool, "eval_js") {
        prompt.append("- eval_js: Evaluate JavaScript code. Args = string (the code to run).\n");
    } else if str_eq_lit(tool, "done") {
        prompt.append("- done: Task complete. Args = string (result summary).\n");
    } else {
        prompt.append("- ");
        prompt.append(tool);
        prompt.append(": Execute tool ");
        prompt.append(tool);
        prompt.append(".\n");
    }
}

fn append_example_line(prompt: &mut String, tool: &str)
    ensures
        final(prompt)@ == old(prompt)@ + example_line(tool@),
{
    if str_eq_lit(tool, "fs_read") {
        prompt.append("{\"action\": \"fs_read\", \"args\": \"instruction.txt\"}\n");
    } else if str_eq_lit(tool, "fs_write") {
        prompt.append(
            "{\"action\": \"fs_write\", \"args\": {\"path\": \"output.txt\", \"content\": \"hello\"}}\n",
        );
    } else if str_eq_lit(tool, "agent_send") {
        prompt.append(
            "{\"action\": \"agent_send\", \"args\": {\"target\": \"writer\", \"msg\": \"hello\"}}\n",
        );
    } else if str_eq_lit(tool, "agent_recv") {
        prompt.append("{\"action\": \"agent_recv\", \"args\": {}}\n");
    } else {
        assert(example_line(tool@) == Seq::<char>::empty());
        assert(prompt@ + Seq::<char>::empty() =~= prompt@);
    }
}

/// Whether `a` equals the literal `b`.
fn str_eq_lit(a: &str, b: &str) -> (r: bool)
    ensures
        r == (a@ == b@),
{
    crate::text::str_eq(a, b)
}

/// Builds the ChatML system prompt for an agent allowed `allowed_tools`.
pub fn build_system_prompt(allowed_tools: &[&str]) -> (prompt: String)
    ensures
        prompt@ == system_prompt(views(allowed_tools@)),
{
    let ghost ts = views(allowed_tools@);
    let mut prompt = String::from_str(
        "<|im_start|>system\nYou are a tool-calling AI agent. You MUST respond with exactly one raw JSON object per turn. No markdown, no explanation, no code fences, no backticks.\n\nAvailable tools:\n",
    );
    let n = allowed_tools.len();
    let mut i: usize = 0;
    let mut has_done = false;
    while i < n
        invariant
            n == allowed_tools@.len(),
            ts == views(allowed_tools@),
            i <= n,
            prompt@ == prompt_header() + tool_lines(ts.take(i as int)),
            has_done == ts.take(i as int).contains("done"@),
        decreases n - i,
    {
        let tool = allowed_tools[i];
        append_tool_line(&mut prompt, tool);
        let is_done = str_eq_lit(tool, "done");
        proof {
            let prev = ts.take(i as int);
            let next = ts.take(i + 1);
            assert(next.drop_last() =~= prev);
            assert(next.last() == tool@);
            assert(next =~= prev.push(tool@));
            if has_done {
                let k = choose|k: int| 0 <= k < prev.len() && prev[k] == "done"@;
                assert(next[k] == "done"@);
            }
            if is_done {
                assert(next[i as int] == "done"@);
            }
            if next.contains("done"@) {
                let k = choose|k: int| 0 <= k < next.len() && next[k] == "done"@;
                if k < i {
                    assert(prev[k] == "done"@);
                }
            }
        }
        has_done = has_done || is_done;
        i = i + 1;
    }
    assert(ts.take(n as int) =~= ts);
    if !has_done {
        prompt.append("- done: Task complete. Args = string (result summary).\n");
    } else {
        assert(prompt@ + Seq::<char>::empty() =~= prompt@);
    }
    prompt.append("\nIMPORTANT RULES:\n");
    prompt.append(
        "1. Respond with ONLY one JSON object containing 'action' and 'args'. No extra text.\n",
    );
    prompt.append("2. Once the goal is completed, call done.\n");
    prompt.append("\nExamples of correct format:\n");
    let ghost before_examples = prompt@;
    let mut j: usize = 0;
    while j < n
        invariant
            n == allowed_tools@.len(),
            ts == views(allowed_tools@),
            j <= n,
            prompt@ == before_examples + example_lines(ts.take(j as int)),
        decreases n - j,
    {
        let tool = allowed_tools[j];
        append_example_line(&mut prompt, tool);
        proof {
            assert(ts.take(j + 1).drop_last() =~= ts.take(j as int));
            assert(ts.take(j + 1).last() == tool@);
        }
        j = j + 1;
    }
    prompt.append("{\"action\": \"done\", \"args\": \"finished successfully\"}\n");
    prompt.append("<|im_end|>\n");
    proof {
        assert(ts.take(n as int) =~= ts);
        assert(prompt@ =~= system_prompt(ts));
    }
    prompt
}

// ───────────────────────── routing tool calls ─────────────────────────

/// A tool call as the model wrote it: `{"action": ..., "args": ...}`.
pub struct ToolCall {
    pub action: String,
    pub args: JsonValue,
}

/// The host syscall a tool call becomes, or the answer given without one.
pub enum ToolPlan {
    FsRead { path: String },
    FsWrite { path: String, content: String },
    WebGet { url: String },
    McpCall { server: String, tool: String, arguments: String },
    AgentSend { target: String, msg: String },
    AgentRecv,
    EvalJs { code: String },
    Answer { text: String },
}

pub open spec fn fs_read_plan(args: JsonValue) -> ToolPlanView {
    match as_text(args) {
        Some(p) => ToolPlanView::FsRead(p),
        None => ToolPlanView::Answer("[Error]: fs_read args must be a string (file path)."@),
    }
}

pub open spec fn fs_write_plan(args: JsonValue) -> ToolPlanView {
    match (member_text(args, "path"@), member_text(args, "content"@)) {
        (Some(p), Some(c)) => ToolPlanView::FsWrite(p, c),
        _ => ToolPlanView::Answer(
            "[Error]: fs_write args must be {\"path\": \"...\", \"content\": \"...\"}"@,
        ),
    }
}

pub open spec fn web_get_plan(args: JsonValue) -> ToolPlanView {
    match as_text(args) {
        Some(u) => ToolPlanView::WebGet(u),
        None => ToolPlanView::Answer("[Error]: web_get args must be a string (URL)."@),
    }
}

pub open spec fn mcp_call_plan(args: JsonValue) -> ToolPlanView {
    match (member_text(args, "server"@), member_text(args, "tool"@), member(args, "arguments"@)) {
        (Some(s), Some(t), Some(a)) => ToolPlanView::McpCall(s, t, json_render(a)),
        _ => ToolPlanView::Answer(
            "[Error]: mcp_call args must be {\"server\": \"...\", \"tool\": \"...\", \"arguments\": {...}}"@,
        ),
    }
}

pub open spec fn done_plan(args: JsonValue) -> ToolPlanView {
    match as_text(args) {
        Some(t) => ToolPlanView::Answer(t),
        None => ToolPlanView::Answer("No summary provided."@),
    }
}

pub open spec fn agent_send_plan(args: JsonValue) -> ToolPlanView {
    match (member_text(args, "target"@), member_text(args, "msg"@)) {
        (Some(t), Some(m)) => ToolPlanView::AgentSend(t, m),
        _ => ToolPlanView::Answer(
            "[Error]: agent_send args must be {\"target\": \"...\", \"msg\": \"...\"}"@,
        ),
    }
}

pub open spec fn eval_js_plan(args: JsonValue) -> ToolPlanView {
    match as_text(args) {
        Some(c) => ToolPlanView::EvalJs(c),
        None => ToolPlanView::Answer("[Error]: eval_js args must be a string (JS code)."@),
    }
}

/// The plan for a tool call: the syscall its action names, with arguments of
/// the shape that syscall needs, or an error answer describing that shape;
/// `done` answers with its summary; an unknown action is reported.
pub open spec fn tool_plan_of(action: Seq<char>, args: JsonValue) -> ToolPlanView {
    if action == "fs_read"@ {
        fs_read_plan(args)
    } else if action == "fs_write"@ {
        fs_write_plan(args)
    } else if action == "web_get"@ {
        web_get_plan(args)
    } else if action == "mcp_call"@ {
        mcp_call_plan(args)
    } else if action == "done"@ {
        done_plan(args)
    } else if action == "agent_send"@ {
        agent_send_plan(args)
    } else if action == "agent_recv"@ {
        ToolPlanView::AgentRecv
    } else if action == "eval_js"@ {
        eval_js_plan(args)
    } else {
        ToolPlanView::Answer("[Error]: Unknown action '"@ + action + "'."@)
    }
}

proof fn lemma_tool_names_differ()
    ensures
        "fs_write"@ != "fs_read"@,
        "web_get"@ != "fs_read"@ && "web_get"@ != "fs_write"@,
        "mcp_call"@ != "fs_read"@ && "mcp_call"@ != "fs_write"@ && "mcp_call"@ != "web_get"@,
        "agent_send"@ != "fs_read"@ && "agent_send"@ != "fs_write"@ && "agent_send"@ != "web_get"@
            && "agent_send"@ != "mcp_call"@ && "agent_send"@ != "done"@,
        "eval_js"@ != "fs_read"@ && "eval_js"@ != "fs_write"@ && "eval_js"@ != "web_get"@
            && "eval_js"@ != "mcp_call"@ && "eval_js"@ != "done"@ && "eval_js"@ != "agent_send"@
            && "eval_js"@ != "agent_recv"@,
{
    reveal_strlit("fs_read");
    reveal_strlit("fs_write");
    reveal_strlit("web_get");
    reveal_strlit("mcp_call");
    reveal_strlit("done");
    reveal_strlit("agent_send");
    reveal_strlit("agent_recv");
    reveal_strlit("eval_js");
    assert("fs_write"@.len() != "fs_read"@.len());
    assert("web_get"@[0] != "fs_read"@[0]);
    assert("web_get"@.len() != "fs_write"@.len());
    assert("mcp_call"@.len() != "fs_read"@.len());
    assert("mcp_call"@[0] != "fs_write"@[0]);
    assert("mcp_call"@.len() != "web_get"@.len());
    assert("agent_send"@.len() != "fs_read"@.len() && "agent_send"@.len() != "fs_write"@.len());
    assert("agent_send"@.len() != "web_get"@.len() && "agent_send"@.len() != "mcp_call"@.len());
    assert("agent_send"@.len() != "done"@.len());
    assert("eval_js"@[0] != "fs_read"@[0] && "eval_js"@.len() != "fs_write"@.len());
    assert("eval_js"@[0] != "web_get"@[0] && "eval_js"@.len() != "mcp_call"@.len());
    assert("eval_js"@.len() != "done"@.len() && "eval_js"@.len() != "agent_send"@.len());
    assert("eval_js"@.len() != "agent_recv"@.len());
}

/// Each tool takes its arguments from the members that name them: the
/// `agent_send` target from `target` and its message from `msg`, the file
/// written from `path` with the text from `content`, the MCP server from
/// `server`, the tool from `tool` and the arguments from `arguments`; the
/// single-argument tools take the argument text itself.
pub proof fn law_tool_arguments_by_name(args: JsonValue)
    ensures
        member_text(args, "target"@) matches Some(t) ==> member_text(args, "msg"@) matches Some(m)
            ==> tool_plan_of("agent_send"@, args) == ToolPlanView::AgentSend(t, m),
        member_text(args, "path"@) matches Some(p) ==> member_text(args, "content"@) matches Some(c)
            ==> tool_plan_of("fs_write"@, args) == ToolPlanView::FsWrite(p, c),
        member_text(args, "server"@) matches Some(sv) ==> member_text(args, "tool"@) matches Some(t)
            ==> member(args, "arguments"@) matches Some(a) ==> tool_plan_of("mcp_call"@, args)
            == ToolPlanView::McpCall(sv, t, json_render(a)),
        as_text(args) matches Some(x) ==> {
            &&& tool_plan_of("fs_read"@, args) == ToolPlanView::FsRead(x)
            &&& tool_plan_of("web_get"@, args) == ToolPlanView::WebGet(x)
            &&& tool_plan_of("eval_js"@, args) == ToolPlanView::EvalJs(x)
        },
{
    lemma_tool_names_differ();
    assert(tool_plan_of("agent_send"@, args) == agent_send_plan(args));
    assert(tool_plan_of("fs_write"@, args) == fs_write_plan(args));
    assert(tool_plan_of("mcp_call"@, args) == mcp_call_plan(args));
    assert(tool_plan_of("fs_read"@, args) == fs_read_plan(args));
    assert(tool_plan_of("web_get"@, args) == web_get_plan(args));
    assert(tool_plan_of("eval_js"@, args) == eval_js_plan(args));
}

/// A plan with its texts as character sequences.
pub enum ToolPlanView {
    FsRead(Seq<char>),
    FsWrite(Seq<char>, Seq<char>),
    WebGet(Seq<char>),
    McpCall(Seq<char>, Seq<char>, Seq<char>),
    AgentSend(Seq<char>, Seq<char>),
    AgentRecv,
    EvalJs(Seq<char>),
    Answer(Seq<char>),
}

impl ToolPlan {
    pub open spec fn view(&self) -> ToolPlanView {
        match self {
            ToolPlan::FsRead { path } => ToolPlanView::FsRead(path@),
            ToolPlan::FsWrite { path, content } => ToolPlanView::FsWrite(path@, content@),
            ToolPlan::WebGet { url } => ToolPlanView::WebGet(url@),
            ToolPlan::McpCall { server, tool, arguments } => ToolPlanView::McpCall(
                server@,
                tool@,
                arguments@,
            ),
            ToolPlan::AgentSend { target, msg } => ToolPlanView::AgentSend(target@, msg@),
            ToolPlan::AgentRecv => ToolPlanView::AgentRecv,
            ToolPlan::EvalJs { code } => ToolPlanView::EvalJs(code@),
            ToolPlan::Answer { text } => ToolPlanView::Answer(text@),
        }
    }
}

fn answer(text: &str) -> (r: ToolPlan)
    ensures
        r@ == ToolPlanView::Answer(text@),
{
    ToolPlan::Answer { text: String::from_str(text) }
}

fn plan_fs_read(args: &JsonValue) -> (r: ToolPlan)
    ensures
        r@ == fs_read_plan(*args),
{
    match get_text(args) {
        Some(p) => ToolPlan::FsRead { path: p.clone() },
        None => answer("[Error]: fs_read args must be a string (file path)."),
    }
}

fn plan_fs_write(args: &JsonValue) -> (r: ToolPlan)
    ensures
        r@ == fs_write_plan(*args),
{
    match (get_member_text(args, "path"), get_member_text(args, "content")) {
        (Some(p), Some(c)) => ToolPlan::FsWrite { path: p.clone(), content: c.clone() },
        _ => answer("[Error]: fs_write args must be {\"path\": \"...\", \"content\": \"...\"}"),
    }
}

fn plan_web_get(args: &JsonValue) -> (r: ToolPlan)
    ensures
        r@ == web_get_plan(*args),
{
    match get_text(args) {
        Some(u) => ToolPlan::WebGet { url: u.clone() },
        None => answer("[Error]: web_get args must be a string (URL)."),
    }
}

fn plan_mcp_call(args: &JsonValue) -> (r: ToolPlan)
    ensures
        r@ == mcp_call_plan(*args),
{
    match (get_member_text(args, "server"), get_member_text(args, "tool"), get_member(args, "arguments")) {
        (Some(s), Some(t), Some(a)) => ToolPlan::McpCall {
            server: s.clone(),
            tool: t.clone(),
            arguments: render_json(a),
        },
        _ => answer(
            "[Error]: mcp_call args must be {\"server\": \"...\", \"tool\": \"...\", \"arguments\": {...}}",
        ),
    }
}

fn plan_done(args: &JsonValue) -> (r: ToolPlan)
    ensures
        r@ == done_plan(*args),
{
    match get_text(args) {
        Some(t) => ToolPlan::Answer { text: t.clone() },
        None => answer("No summary provided."),
    }
}

fn plan_agent_send(args: &JsonValue) -> (r: ToolPlan)
    ensures
        r@ == agent_send_plan(*args),
{
    match (get_member_text(args, "target"), get_member_text(args, "msg")) {
        (Some(t), Some(m)) => ToolPlan::AgentSend { target: t.clone(), msg: m.clone() },
        _ => answer("[Error]: agent_send args must be {\"target\": \"...\", \"msg\": \"...\"}"),
    }
}

fn plan_eval_js(args: &JsonValue) -> (r: ToolPlan)
    ensures
        r@ == eval_js_plan(*args),
{
    match get_text(args) {
        Some(c) => ToolPlan::EvalJs { code: c.clone() },
        None => answer("[Error]: eval_js args must be a string (JS code)."),
    }
}

/// Routes a tool call to the syscall its action names.
pub fn plan_tool(call: &ToolCall) -> (r: ToolPlan)
    ensures
        r@ == tool_plan_of(call.action@, call.args),
{
    let action = call.action.as_str();
    let args = &call.args;
    if str_eq(action, "fs_read") {
        plan_fs_read(args)
    } else if str_eq(action, "fs_write") {
        plan_fs_write(args)
    } else if str_eq(action, "web_get") {
        plan_web_get(args)
    } else if str_eq(action, "mcp_call") {
        plan_mcp_call(args)
    } else if str_eq(action, "done") {
        plan_done(args)
    } else if str_eq(action, "agent_send") {
        plan_agent_send(args)
    } else if str_eq(action, "agent_recv") {
        ToolPlan::AgentRecv
    } else if str_eq(action, "eval_js") {
        plan_eval_js(args)
    } else {
        let mut t = String::from_str("[Error]: Unknown action '");
        t.append(action);
        t.append("'.");
        ToolPlan::Answer { text: t }
    }
}

/// The bytes as text when they are UTF-8, `fallback` otherwise.
pub open spec fn text_or(bytes: Seq<u8>, fallback: Seq<char>) -> Seq<char> {
    if valid_utf8(bytes) {
        decode_utf8(bytes)
    } else {
        fallback
    }
}

/// What the agent observes after carrying out `plan`, given the bytes the
/// host syscall wrote.
pub open spec fn observation_of(plan: ToolPlanView, out: Seq<u8>) -> Seq<char> {
    match plan {
        ToolPlanView::FsRead(_) => text_or(out, "[Error reading file]"@),
        ToolPlanView::FsWrite(_, _) => text_or(out, "[Error writing file]"@),
        ToolPlanView::WebGet(_) => text_or(out, "[Error fetching URL]"@),
        ToolPlanView::McpCall(_, _, _) => text_or(out, "[Error calling MCP tool]"@),
        ToolPlanView::AgentSend(_, _) => "Message sent successfully."@,
        ToolPlanView::AgentRecv => if out.len() > 0 {
            text_or(out, "[Error decoding message]"@)
        } else {
            "[No messages in queue]"@
        },
        ToolPlanView::EvalJs(_) => text_or(out, "[Error executing JS]"@),
        ToolPlanView::Answer(t) => t,
    }
}

fn text_or_exec(out: &[u8], fallback: &str) -> (r: String)
    ensures
        r@ == text_or(out@, fallback@),
{
    match utf8_text(out) {
        Some(t) => t,
        None => String::from_str(fallback),
    }
}

/// The observation for a carried-out plan; `out` holds the bytes the
/// syscall wrote into the guest's buffer.
pub fn observation_text(plan: &ToolPlan, out: &[u8]) -> (r: String)
    ensures
        r@ == observation_of(plan@, out@),
{
    match plan {
        ToolPlan::FsRead { .. } => text_or_exec(out, "[Error reading file]"),
        ToolPlan::FsWrite { .. } => text_or_exec(out, "[Error writing file]"),
        ToolPlan::WebGet { .. } => text_or_exec(out, "[Error fetching URL]"),
        ToolPlan::McpCall { .. } => text_or_exec(out, "[Error calling MCP tool]"),
        ToolPlan::AgentSend { .. } => String::from_str("Message sent successfully."),
        ToolPlan::AgentRecv => if out.len() > 0 {
            text_or_exec(out, "[Error decoding message]")
        } else {
            String::from_str("[No messages in queue]")
        },
        ToolPlan::EvalJs { .. } => text_or_exec(out, "[Error executing JS]"),
        ToolPlan::Answer { text } => text.clone(),
    }
}

// ───────────────────────── the conversation ─────────────────────────

/// The most turns an agent takes.
pub open spec fn max_turns() -> nat {
    10
}

/// The conversation between the agent and its model.
pub struct AgentSession {
    /// The ChatML transcript sent to the model.
    pub context: String,
    /// `action:args` of the latest tool call.
    pub last_action: String,
    /// How many times in a row the latest call repeated the one before it.
    pub repeat_count: u32,
    /// Turns begun so far.
    pub turns: u32,
    /// Whether the agent called `done`.
    pub finished: bool,
}

/// The key by which repeated calls are recognised: `action:args`.
pub open spec fn call_key(action: Seq<char>, args: JsonValue) -> Seq<char> {
    action + ":"@ + json_render(args)
}

/// The goal the host wrote, or `"Unknown goal"` when it is not UTF-8.
pub open spec fn goal_of(bytes: Seq<u8>) -> Seq<char> {
    text_or(bytes, "Unknown goal"@)
}

pub fn goal_text(bytes: &[u8]) -> (r: String)
    ensures
        r@ == goal_of(bytes@),
{
    text_or_exec(bytes, "Unknown goal")
}

/// The model's reply: its text trimmed, or nothing when it is not UTF-8.
pub open spec fn reply_of(bytes: Seq<u8>) -> Seq<char> {
    trim(text_or(bytes, Seq::empty()))
}

pub fn reply_text(bytes: &[u8]) -> (r: String)
    ensures
        r@ == reply_of(bytes@),
{
    let t = text_or_exec(bytes, "");
    proof {
        reveal_strlit("");
    }
    trim_str(t.as_str())
}

/// The transcript an agent starts from: the system prompt and the goal as
/// the user's message.
pub open spec fn opening_context(tools: Seq<Seq<char>>, goal: Seq<char>) -> Seq<char> {
    system_prompt(tools) + "<|im_start|>user\n"@ + goal + "<|im_end|>\n"@
}

pub open spec fn assistant_header() -> Seq<char> {
    "<|im_start|>assistant\n"@
}

pub open spec fn turn_end() -> Seq<char> {
    "<|im_end|>\n"@
}

pub open spec fn no_json_notice() -> Seq<char> {
    "<|im_start|>user\n[Error]: No JSON object found in your response. Respond with ONLY a JSON object.<|im_end|>\n"@
}

pub open spec fn invalid_json_notice() -> Seq<char> {
    "<|im_start|>user\n[Error]: Your output was not valid JSON. Respond with ONLY a JSON object like {\"action\": \"fs_read\", \"args\": \"file.txt\"}<|im_end|>\n"@
}

/// An observation cut to 1500 bytes, marked when cut.
pub open spec fn clipped_observation(obs: Seq<char>) -> Seq<char> {
    if byte_len(obs) > 1500 {
        byte_prefix(obs, 1500) + "\n...[truncated]"@
    } else {
        obs
    }
}

/// The user message that feeds an observation back: a nudge to move on when
/// the same call has now been made three times in a row.
pub open spec fn observation_message(obs: Seq<char>, repeats: nat) -> Seq<char> {
    "<|im_start|>user\n[Observation]: "@ + clipped_observation(obs) + if repeats >= 2 {
        "\n\nYou already read this file. Now use fs_write to write the result to a file, then call done.<|im_end|>\n"@
    } else {
        "\n\nNow decide your next action. Respond with a JSON object.<|im_end|>\n"@
    }
}

impl AgentSession {
    pub open spec fn wf(&self) -> bool {
        self.turns <= max_turns()
    }

    /// Starts the conversation for an agent allowed `allowed_tools`.
    pub fn start(allowed_tools: &[&str], goal: &str) -> (r: Self)
        ensures
            r.wf(),
            r.context@ == opening_context(views(allowed_tools@), goal@),
            r.last_action@ == Seq::<char>::empty(),
            r.repeat_count == 0,
            r.turns == 0,
            !r.finished,
    {
        let mut context = build_system_prompt(allowed_tools);
        context.append("<|im_start|>user\n");
        context.append(goal);
        context.append("<|im_end|>\n");
        AgentSession { context, last_action: String::new(), repeat_count: 0, turns: 0, finished: false }
    }

    /// Whether the agent takes another turn.
    pub fn wants_turn(&self) -> (r: bool)
        ensures
            r == (!self.finished && self.turns < max_turns()),
    {
        !self.finished && self.turns < 10
    }

    /// Opens the model's turn; the transcript is then the prompt.
    pub fn begin_turn(&mut self)
        requires
            old(self).wf(),
            !old(self).finished,
            old(self).turns < max_turns(),
        ensures
            final(self).wf(),
            final(self).context@ == old(self).context@ + assistant_header(),
            final(self).turns == old(self).turns + 1,
            final(self).last_action == old(self).last_action,
            final(self).repeat_count == old(self).repeat_count,
            final(self).finished == old(self).finished,
    {
        self.context.append("<|im_start|>assistant\n");
        self.turns = self.turns + 1;
    }

    /// Records the model's reply in the transcript.
    pub fn record_reply(&mut self, reply: &str)
        ensures
            final(self).context@ == old(self).context@ + reply@ + turn_end(),
            final(self).turns == old(self).turns,
            final(self).last_action == old(self).last_action,
            final(self).repeat_count == old(self).repeat_count,
            final(self).finished == old(self).finished,
    {
        self.context.append(reply);
        self.context.append("<|im_end|>\n");
    }

    /// The reply held no JSON object: the model is told so.
    pub fn reject_missing_json(&mut self)
        ensures
            final(self).context@ == old(self).context@ + no_json_notice(),
            final(self).turns == old(self).turns,
            final(self).last_action == old(self).last_action,
            final(self).repeat_count == old(self).repeat_count,
            final(self).finished == old(self).finished,
    {
        self.context.append(
            "<|im_start|>user\n[Error]: No JSON object found in your response. Respond with ONLY a JSON object.<|im_end|>\n",
        );
    }

    /// The reply's JSON object was not a tool call: the model is told so.
    pub fn reject_invalid_call(&mut self)
        ensures
            final(self).context@ == old(self).context@ + invalid_json_notice(),
            final(self).turns == old(self).turns,
            final(self).last_action == old(self).last_action,
            final(self).repeat_count == old(self).repeat_count,
            final(self).finished == old(self).finished,
    {
        self.context.append(
            "<|im_start|>user\n[Error]: Your output was not valid JSON. Respond with ONLY a JSON object like {\"action\": \"fs_read\", \"args\": \"file.txt\"}<|im_end|>\n",
        );
    }

    /// Accepts a tool call: notes whether it repeats the previous call and
    /// returns the syscall to make.
    pub fn accept_call(&mut self, call: &ToolCall) -> (r: ToolPlan)
        requires
            old(self).repeat_count < u32::MAX,
        ensures
            r@ == tool_plan_of(call.action@, call.args),
            final(self).last_action@ == call_key(call.action@, call.args),
            final(self).repeat_count == if call_key(call.action@, call.args)
                == old(self).last_action@ {
                old(self).repeat_count + 1
            } else {
                0
            },
            final(self).context == old(self).context,
            final(self).turns == old(self).turns,
            final(self).finished == old(self).finished,
    {
        let mut key = call.action.clone();
        key.append(":");
        let rendered = render_json(&call.args);
        key.append(rendered.as_str());
        if key == self.last_action {
            self.repeat_count = self.repeat_count + 1;
        } else {
            self.repeat_count = 0;
        }
        self.last_action = key;
        plan_tool(call)
    }

    /// Feeds the observation of a call back to the model; a `done` call ends
    /// the conversation instead.
    pub fn observe(&mut self, call: &ToolCall, observation: &str)
        requires
            byte_len(observation@) > 1500 ==> char_boundary(observation@, 1500),
        ensures
            call.action@ == "done"@ ==> final(self).finished && final(self).context
                == old(self).context,
            call.action@ != "done"@ ==> final(self).context@ == old(self).context@
                + observation_message(observation@, old(self).repeat_count as nat),
            final(self).turns == old(self).turns,
            final(self).last_action == old(self).last_action,
            final(self).repeat_count == old(self).repeat_count,
            call.action@ != "done"@ ==> final(self).finished == old(self).finished,
    {
        if str_eq(call.action.as_str(), "done") {
            self.finished = true;
            return;
        }
        let ghost c0 = self.context@;
        self.context.append("<|im_start|>user\n[Observation]: ");
        if str_byte_len(observation) > 1500 {
            let p = str_byte_prefix(observation, 1500);
            self.context.append(p);
            self.context.append("\n...[truncated]");
        } else {
            self.context.append(observation);
        }
        if self.repeat_count >= 2 {
            self.context.append(
                "\n\nYou already read this file. Now use fs_write to write the result to a file, then call done.<|im_end|>\n",
            );
        } else {
            self.context.append(
                "\n\nNow decide your next action. Respond with a JSON object.<|im_end|>\n",
            );
        }
        assert(self.context@ =~= c0 + observation_message(observation@, self.repeat_count as nat));
    }
}

/// The tools an agent may use: the comma-separated list the host gives, or
/// `fs_read`, `fs_write` and `done` when the list is empty.
pub open spec fn allowed_tools_of(list: Seq<char>) -> Seq<Seq<char>> {
    if list.len() == 0 {
        seq!["fs_read"@, "fs_write"@, "done"@]
    } else {
        split_on(list, ',')
    }
}

/// The pieces of `s` between occurrences of `sep` (`str::split`).
pub open spec fn split_on(s: Seq<char>, sep: char) -> Seq<Seq<char>>
    decreases s.len(),
{
    if s.len() == 0 {
        seq![Seq::empty()]
    } else {
        let rest = split_on(s.drop_last(), sep);
        if s.last() == sep {
            rest.push(Seq::empty())
        } else {
            rest.update(rest.len() - 1, rest.last().push(s.last()))
        }
    }
}

proof fn lemma_split_nonempty(s: Seq<char>, sep: char)
    ensures
        split_on(s, sep).len() >= 1,
    decreases s.len(),
{
    if s.len() > 0 {
        lemma_split_nonempty(s.drop_last(), sep);
    }
}

/// Splits the tool list the host gives into tool names.
pub fn allowed_tool_names(list: &str) -> (r: Vec<String>)
    ensures
        r@.map_values(|s: String| s@) == allowed_tools_of(list@),
{
    let v = chars_of(list);
    if v.len() == 0 {
        let mut r: Vec<String> = Vec::new();
        r.push(String::from_str("fs_read"));
        r.push(String::from_str("fs_write"));
        r.push(String::from_str("done"));
        assert(r@.map_values(|s: String| s@) =~= allowed_tools_of(list@));
        return r;
    }
    let mut parts: Vec<String> = Vec::new();
    let mut cur = String::new();
    let mut i: usize = 0;
    while i < v.len()
        invariant
            i <= v@.len(),
            v@ == list@,
            parts@.map_values(|s: String| s@).push(cur@) == split_on(v@.take(i as int), ','),
        decreases v@.len() - i,
    {
        let c = v[i];
        let ghost before = parts@.map_values(|s: String| s@).push(cur@);
        proof {
            assert(v@.take(i + 1).drop_last() =~= v@.take(i as int));
            lemma_split_nonempty(v@.take(i as int), ',');
        }
        if c == ',' {
            let done_part = cur;
            parts.push(done_part);
            cur = String::new();
            assert(parts@.map_values(|s: String| s@).push(cur@) =~= before.push(Seq::empty()));
        } else {
            crate::text::push_char_pub(&mut cur, c);
            assert(parts@.map_values(|s: String| s@).push(cur@) =~= before.update(
                before.len() - 1,
                before.last().push(c),
            ));
        }
        i = i + 1;
    }
    assert(v@.take(v@.len() as int) =~= v@);
    parts.push(cur);
    parts
}

} // verus!
