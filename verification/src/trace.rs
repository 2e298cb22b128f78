//! Execution traces: one record per host syscall an agent makes, and the
//! text of the trace table printed when a run ends.
use vstd::prelude::*;
use vstd::string::*;
use core::time::Duration;
use crate::text::{
    byte_len, byte_prefix, char_boundary, chars_of, find_char, find_char_exec, decimal, decimal_string, pad_right,
    parse_unsigned, parse_unsigned_exec, push_padded, str_byte_len, str_byte_prefix, sub_chars,
    trim, trim_chars,
};

verus! {

/// One executed step of an agent.
#[derive(Debug)]
pub struct AgentTrace {
    pub step: u32,
    pub action: String,
    pub args: String,
    pub tokens: String,
    pub latency: Duration,
    pub result: String,
}

impl AgentTrace {
    pub fn copy(&self) -> (r: Self)
        ensures
            r == *self,
    {
        AgentTrace {
            step: self.step,
            action: self.action.clone(),
            args: self.args.clone(),
            tokens: self.tokens.clone(),
            latency: self.latency,
            result: self.result.clone(),
        }
    }
}

// ───────────────────────── short forms ─────────────────────────

/// `s` cut to its first `keep` bytes followed by `...` when it is longer than
/// `limit` bytes.
pub open spec fn clip(s: Seq<char>, limit: nat, keep: nat) -> Seq<char> {
    if byte_len(s) > limit {
        byte_prefix(s, keep as int) + "..."@
    } else {
        s
    }
}

/// Clipping `s` cuts it on a character boundary.
pub open spec fn clip_ok(s: Seq<char>, limit: nat, keep: nat) -> bool {
    byte_len(s) > limit ==> char_boundary(s, keep as int)
}

fn clip_exec(s: &str, limit: usize, keep: usize) -> (r: String)
    requires
        keep <= limit,
        clip_ok(s@, limit as nat, keep as nat),
    ensures
        r@ == clip(s@, limit as nat, keep as nat),
{
    if str_byte_len(s) > limit {
        let p = str_byte_prefix(s, keep);
        let mut r = String::from_str(p);
        r.append("...");
        r
    } else {
        String::from_str(s)
    }
}

/// The argument column of a trace: at most 30 bytes, longer text cut to 27
/// bytes and `...`.
pub fn short_args(content: &str) -> (r: String)
    requires
        clip_ok(content@, 30, 27),
    ensures
        r@ == clip(content@, 30, 27),
{
    clip_exec(content, 30, 27)
}

/// The result column of a JavaScript-agent trace: the result itself, or its
/// size `"N B"` when it is longer than 30 bytes.
pub open spec fn js_result_column(result: Seq<char>) -> Seq<char> {
    if byte_len(result) > 30 {
        decimal(byte_len(result)) + " B"@
    } else {
        result
    }
}

pub fn js_trace_result(result: &str) -> (r: String)
    ensures
        r@ == js_result_column(result@),
{
    let n = str_byte_len(result);
    if n > 30 {
        let mut r = decimal_string(n as u64);
        r.append(" B");
        r
    } else {
        String::from_str(result)
    }
}

/// The `tokens` column of an inference trace: `"<prompt>→<generated>"`.
pub open spec fn token_column(prompt: nat, generated: nat) -> Seq<char> {
    decimal(prompt) + "→"@ + decimal(generated)
}

pub fn token_field(prompt_tokens: u32, gen_tokens: u32) -> (r: String)
    ensures
        r@ == token_column(prompt_tokens as nat, gen_tokens as nat),
{
    let mut r = decimal_string(prompt_tokens as u64);
    r.append("→");
    let g = decimal_string(gen_tokens as u64);
    r.append(g.as_str());
    r
}

/// The size column `"N B"` of a syscall trace.
pub open spec fn size_column(n: nat) -> Seq<char> {
    decimal(n) + " B"@
}

pub fn size_field(n: usize) -> (r: String)
    ensures
        r@ == size_column(n as nat),
{
    let mut r = decimal_string(n as u64);
    r.append(" B");
    r
}

// ───────────────────────── the trace table ─────────────────────────

pub open spec fn table_top() -> Seq<char> {
    "┌──────┬───────────┬────────────────────────────────┬──────────┬──────────┬──────────┐"@
}

pub open spec fn table_head() -> Seq<char> {
    "│ Step │ Action    │ Args                           │ Tokens   │ Latency  │ Result   │"@
}

pub open spec fn table_rule() -> Seq<char> {
    "├──────┼───────────┼────────────────────────────────┼──────────┼──────────┼──────────┤"@
}

pub open spec fn table_bottom() -> Seq<char> {
    "└──────┴───────────┴────────────────────────────────┴──────────┴──────────┴──────────┘"@
}

/// The action column: the action cut to 9 bytes.
pub open spec fn action_column(a: Seq<char>) -> Seq<char> {
    if byte_len(a) > 9 {
        byte_prefix(a, 9)
    } else {
        a
    }
}

/// The columns of a trace can be cut on character boundaries.
pub open spec fn row_ok(t: AgentTrace) -> bool {
    &&& byte_len(t.action@) > 9 ==> char_boundary(t.action@, 9)
    &&& clip_ok(t.args@, 30, 27)
    &&& clip_ok(t.result@, 8, 5)
}

/// The table row of a trace whose latency reads `latency`.
pub open spec fn table_row(t: AgentTrace, latency: Seq<char>) -> Seq<char> {
    "│ "@ + pad_right(decimal(t.step as nat), 4) + " │ "@ + pad_right(action_column(t.action@), 9)
        + " │ "@ + pad_right(clip(t.args@, 30, 27), 30) + " │ "@ + pad_right(t.tokens@, 8) + " │ "@
        + pad_right(latency, 8) + " │ "@ + pad_right(clip(t.result@, 8, 5), 8) + " │"@
}

/// Formats one row of the trace table.
pub fn trace_row(t: &AgentTrace, latency: &str) -> (r: String)
    requires
        row_ok(*t),
    ensures
        r@ == table_row(*t, latency@),
{
    let mut r = String::from_str("│ ");
    let step = decimal_string(t.step as u64);
    push_padded(&mut r, step.as_str(), 4);
    r.append(" │ ");
    let action: &str = if str_byte_len(t.action.as_str()) > 9 {
        str_byte_prefix(t.action.as_str(), 9)
    } else {
        t.action.as_str()
    };
    push_padded(&mut r, action, 9);
    r.append(" │ ");
    let args = clip_exec(t.args.as_str(), 30, 27);
    push_padded(&mut r, args.as_str(), 30);
    r.append(" │ ");
    push_padded(&mut r, t.tokens.as_str(), 8);
    r.append(" │ ");
    push_padded(&mut r, latency, 8);
    r.append(" │ ");
    let result = clip_exec(t.result.as_str(), 8, 5);
    push_padded(&mut r, result.as_str(), 8);
    r.append(" │");
    r
}

/// The lines of the trace table for `traces`, whose latencies read
/// `latencies`; a single notice when there are no traces.
pub open spec fn table_lines(traces: Seq<AgentTrace>, latencies: Seq<Seq<char>>) -> Seq<Seq<char>> {
    if traces.len() == 0 {
        seq!["No traces recorded."@]
    } else {
        seq![table_top(), table_head(), table_rule()] + Seq::new(
            traces.len(),
            |i: int| table_row(traces[i], latencies[i]),
        ) + seq![table_bottom()]
    }
}

/// Each row of the table shows its own trace with its own latency: two
/// tables whose traces and latencies agree at position `k` have the same
/// row for it, whatever the other traces and latencies are.
pub proof fn law_table_row_is_its_own(
    t1: Seq<AgentTrace>,
    l1: Seq<Seq<char>>,
    t2: Seq<AgentTrace>,
    l2: Seq<Seq<char>>,
    k: int,
)
    requires
        t1.len() == t2.len(),
        l1.len() == t1.len(),
        l2.len() == t2.len(),
        0 <= k < t1.len(),
        t1[k] == t2[k],
        l1[k] == l2[k],
    ensures
        table_lines(t1, l1).len() == t1.len() + 4,
        table_lines(t1, l1)[3 + k] == table_lines(t2, l2)[3 + k],
{
}

/// Formats the trace table.
pub fn trace_table(traces: &Vec<AgentTrace>, latencies: &Vec<String>) -> (r: Vec<String>)
    requires
        latencies@.len() == traces@.len(),
        forall|i: int| 0 <= i < traces@.len() ==> row_ok(#[trigger] traces@[i]),
    ensures
        r@.map_values(|s: String| s@) == table_lines(
            traces@,
            latencies@.map_values(|s: String| s@),
        ),
{
    let mut out: Vec<String> = Vec::new();
    if traces.len() == 0 {
        out.push(String::from_str("No traces recorded."));
        assert(out@.map_values(|s: String| s@) =~= seq!["No traces recorded."@]);
        return out;
    }
    out.push(
        String::from_str(
            "┌──────┬───────────┬────────────────────────────────┬──────────┬──────────┬──────────┐",
        ),
    );
    out.push(
        String::from_str(
            "│ Step │ Action    │ Args                           │ Tokens   │ Latency  │ Result   │",
        ),
    );
    out.push(
        String::from_str(
            "├──────┼───────────┼────────────────────────────────┼──────────┼──────────┼──────────┤",
        ),
    );
    let ghost lat = latencies@.map_values(|s: String| s@);
    let mut i: usize = 0;
    while i < traces.len()
        invariant
            latencies@.len() == traces@.len(),
            lat == latencies@.map_values(|s: String| s@),
            forall|k: int| 0 <= k < traces@.len() ==> row_ok(#[trigger] traces@[k]),
            i <= traces@.len(),
            out@.len() == 3 + i,
            out@[0]@ == table_top(),
            out@[1]@ == table_head(),
            out@[2]@ == table_rule(),
            forall|k: int| 0 <= k < i ==> (#[trigger] out@[3 + k])@ == table_row(traces@[k], lat[k]),
        decreases traces@.len() - i,
    {
        let row = trace_row(&traces[i], latencies[i].as_str());
        out.push(row);
        i = i + 1;
    }
    out.push(
        String::from_str(
            "└──────┴───────────┴────────────────────────────────┴──────────┴──────────┴──────────┘",
        ),
    );
    proof {
        let m = out@.map_values(|s: String| s@);
        let t = table_lines(traces@, lat);
        assert(m.len() == t.len());
        assert forall|k: int| 0 <= k < m.len() implies m[k] == t[k] by {
            if 3 <= k < 3 + traces@.len() {
                assert(out@[3 + (k - 3)]@ == table_row(traces@[k - 3], lat[k - 3]));
            }
        }
        assert(m =~= t);
    }
    out
}

// ───────────────────────── token totals ─────────────────────────

/// Number of occurrences of `c` in `s`.
pub open spec fn count_char(s: Seq<char>, c: char) -> nat
    decreases s.len(),
{
    if s.len() == 0 {
        0
    } else {
        count_char(s.drop_last(), c) + if s.last() == c {
            1nat
        } else {
            0nat
        }
    }
}

/// The prompt and generated token counts of a `"P→G"` tokens column: the
/// column must hold exactly one arrow, with a `u32` on each side.
pub open spec fn token_counts(tokens: Seq<char>) -> Option<(nat, nat)> {
    if count_char(tokens, '→') == 1 {
        let k = find_char(tokens, '→')->0;
        match (
            parse_unsigned(trim(tokens.take(k)), u32::MAX as nat),
            parse_unsigned(trim(tokens.skip(k + 1)), u32::MAX as nat),
        ) {
            (Some(p), Some(g)) => Some((p, g)),
            _ => None,
        }
    } else {
        None
    }
}

/// The counts a trace contributes to the totals: only inference steps count.
pub open spec fn trace_counts(t: AgentTrace) -> (nat, nat) {
    if t.action@ == "llm_infer"@ {
        match token_counts(t.tokens@) {
            Some(c) => c,
            None => (0, 0),
        }
    } else {
        (0, 0)
    }
}

/// Total prompt and generated tokens over the first `n` traces.
pub open spec fn token_totals(traces: Seq<AgentTrace>) -> (nat, nat)
    decreases traces.len(),
{
    if traces.len() == 0 {
        (0, 0)
    } else {
        let (p, g) = token_totals(traces.drop_last());
        let (dp, dg) = trace_counts(traces.last());
        (p + dp, g + dg)
    }
}

fn count_chars(v: &[char], c: char) -> (r: usize)
    ensures
        r == count_char(v@, c),
{
    let mut count: usize = 0;
    let mut i: usize = 0;
    while i < v.len()
        invariant
            i <= v@.len(),
            count == count_char(v@.take(i as int), c),
            count <= i,
        decreases v@.len() - i,
    {
        assert(v@.take(i + 1).drop_last() =~= v@.take(i as int));
        if v[i] == c {
            count = count + 1;
        }
        i = i + 1;
    }
    assert(v@.take(v@.len() as int) =~= v@);
    count
}

proof fn lemma_count_found(s: Seq<char>, c: char)
    requires
        count_char(s, c) >= 1,
    ensures
        find_char(s, c) is Some,
    decreases s.len(),
{
    crate::text::lemma_find_seq(s, seq![c]);
    if s.last() == c {
        assert(s.subrange(s.len() - 1, s.len() as int) =~= seq![c]);
        assert(crate::text::occurs_at(s, seq![c], s.len() - 1));
    } else {
        lemma_count_found(s.drop_last(), c);
        crate::text::lemma_find_seq(s.drop_last(), seq![c]);
        let j = find_char(s.drop_last(), c)->0;
        assert(s.subrange(j, j + 1) =~= s.drop_last().subrange(j, j + 1));
        assert(crate::text::occurs_at(s, seq![c], j));
    }
}

/// Reads the prompt and generated token counts from a tokens column.
pub fn parse_token_counts(tokens: &str) -> (r: Option<(u32, u32)>)
    ensures
        r matches Some((p, g)) ==> token_counts(tokens@) == Some((p as nat, g as nat)),
        r is None ==> token_counts(tokens@) is None,
{
    let v = chars_of(tokens);
    let count = count_chars(v.as_slice(), '→');
    if count != 1 {
        return None;
    }
    let k = match find_char_exec(v.as_slice(), '→') {
        Some(k) => k,
        None => {
            proof {
                lemma_count_found(v@, '→');
            }
            return None;
        },
    };
    let before = trim_chars(sub_chars(v.as_slice(), 0, k).as_slice());
    let after = trim_chars(sub_chars(v.as_slice(), k + 1, v.len()).as_slice());
    assert(v@.subrange(0, k as int) =~= v@.take(k as int));
    assert(v@.subrange(k + 1, v@.len() as int) =~= v@.skip(k + 1));
    let p = parse_unsigned_exec(before.as_slice(), u32::MAX as u64);
    let g = parse_unsigned_exec(after.as_slice(), u32::MAX as u64);
    match (p, g) {
        (Some(p), Some(g)) => Some((p as u32, g as u32)),
        _ => None,
    }
}

/// Sums the token counts of the inference steps in `traces`.
pub fn trace_token_totals(traces: &Vec<AgentTrace>) -> (r: (u32, u32))
    requires
        token_totals(traces@).0 <= u32::MAX,
        token_totals(traces@).1 <= u32::MAX,
    ensures
        r.0 as nat == token_totals(traces@).0,
        r.1 as nat == token_totals(traces@).1,
{
    let mut tp: u32 = 0;
    let mut tg: u32 = 0;
    let mut i: usize = 0;
    while i < traces.len()
        invariant
            i <= traces@.len(),
            tp as nat == token_totals(traces@.take(i as int)).0,
            tg as nat == token_totals(traces@.take(i as int)).1,
            token_totals(traces@).0 <= u32::MAX,
            token_totals(traces@).1 <= u32::MAX,
        decreases traces@.len() - i,
    {
        proof {
            assert(traces@.take(i + 1).drop_last() =~= traces@.take(i as int));
            lemma_totals_monotone(traces@, i + 1);
        }
        let t = &traces[i];
        if str_eq_lit(t.action.as_str(), "llm_infer") {
            match parse_token_counts(t.tokens.as_str()) {
                Some((p, g)) => {
                    tp = tp + p;
                    tg = tg + g;
                },
                None => {},
            }
        }
        i = i + 1;
    }
    assert(traces@.take(traces@.len() as int) =~= traces@);
    (tp, tg)
}

/// Sums the token counts of the inference steps, or `None` when a total
/// does not fit a `u32`.
pub fn trace_token_totals_checked(traces: &Vec<AgentTrace>) -> (r: Option<(u32, u32)>)
    ensures
        r is Some <==> (token_totals(traces@).0 <= u32::MAX && token_totals(traces@).1 <= u32::MAX),
        r matches Some((p, g)) ==> p as nat == token_totals(traces@).0 && g as nat == token_totals(
            traces@,
        ).1,
{
    let mut tp: u64 = 0;
    let mut tg: u64 = 0;
    let mut over = false;
    let mut i: usize = 0;
    while i < traces.len()
        invariant
            i <= traces@.len(),
            !over ==> tp as nat == token_totals(traces@.take(i as int)).0,
            !over ==> tg as nat == token_totals(traces@.take(i as int)).1,
            !over ==> tp <= u32::MAX && tg <= u32::MAX,
            over ==> token_totals(traces@.take(i as int)).0 > u32::MAX || token_totals(
                traces@.take(i as int),
            ).1 > u32::MAX,
        decreases traces@.len() - i,
    {
        proof {
            assert(traces@.take(i + 1).drop_last() =~= traces@.take(i as int));
        }
        let t = &traces[i];
        if !over && str_eq_lit(t.action.as_str(), "llm_infer") {
            match parse_token_counts(t.tokens.as_str()) {
                Some((p, g)) => {
                    tp = tp + p as u64;
                    tg = tg + g as u64;
                    if tp > 0xffff_ffff || tg > 0xffff_ffff {
                        over = true;
                    }
                },
                None => {},
            }
        }
        i = i + 1;
    }
    assert(traces@.take(traces@.len() as int) =~= traces@);
    if over {
        None
    } else {
        Some((tp as u32, tg as u32))
    }
}

proof fn lemma_totals_monotone(ts: Seq<AgentTrace>, k: int)
    requires
        0 <= k <= ts.len(),
    ensures
        token_totals(ts.take(k)).0 <= token_totals(ts).0,
        token_totals(ts.take(k)).1 <= token_totals(ts).1,
    decreases ts.len() - k,
{
    if k < ts.len() {
        lemma_totals_monotone(ts, k + 1);
        assert(ts.take(k + 1).drop_last() =~= ts.take(k));
    } else {
        assert(ts.take(k) =~= ts);
    }
}

fn str_eq_lit(a: &str, b: &str) -> (r: bool)
    ensures
        r == (a@ == b@),
{
    crate::text::str_eq(a, b)
}

/// Token totals add up over consecutive runs of traces.
pub proof fn law_token_totals_append(a: Seq<AgentTrace>, b: Seq<AgentTrace>)
    ensures
        token_totals(a + b).0 == token_totals(a).0 + token_totals(b).0,
        token_totals(a + b).1 == token_totals(a).1 + token_totals(b).1,
    decreases b.len(),
{
    if b.len() == 0 {
        assert(a + b =~= a);
    } else {
        law_token_totals_append(a, b.drop_last());
        assert((a + b).drop_last() =~= a + b.drop_last());
        assert((a + b).last() == b.last());
    }
}

} // verus!
