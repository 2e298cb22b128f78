use core::time::Duration;
use nanos::trace::{
    js_trace_result, parse_token_counts, short_args, size_field, token_field, trace_row,
    trace_table, trace_token_totals, AgentTrace,
};

fn trace(step: u32, action: &str, args: &str, tokens: &str, result: &str) -> AgentTrace {
    AgentTrace {
        step,
        action: action.to_string(),
        args: args.to_string(),
        tokens: tokens.to_string(),
        latency: Duration::from_millis(5),
        result: result.to_string(),
    }
}

#[test]
fn short_forms() {
    assert_eq!(short_args("short"), "short");
    let long = "abcdefghijklmnopqrstuvwxyz0123456789";
    assert_eq!(short_args(long), "abcdefghijklmnopqrstuvwxyz0...");
    assert_eq!(js_trace_result("ok"), "ok");
    assert_eq!(js_trace_result(&"z".repeat(31)), "31 B");
    assert_eq!(token_field(312, 45), "312→45");
    assert_eq!(size_field(17), "17 B");
}

#[test]
fn table_rows_are_padded_and_cut() {
    let t = trace(3, "mcp:read_file", "a very long argument string that overflows", "-", "1234567890");
    let row = trace_row(&t, "5ms");
    assert_eq!(row, "│ 3    │ mcp:read_ │ a very long argument string... │ -        │ 5ms      │ 12345... │");
}

#[test]
fn empty_table_says_so() {
    assert_eq!(trace_table(&vec![], &vec![]), vec!["No traces recorded."]);
    let t = vec![trace(1, "fs_read", "a.txt", "-", "3 B")];
    let lines = trace_table(&t, &vec!["5ms".to_string()]);
    assert_eq!(lines.len(), 5);
    assert!(lines[0].starts_with("┌"));
    assert!(lines[3].starts_with("│ 1    │ fs_read   │ a.txt"));
    assert!(lines[4].starts_with("└"));
}

#[test]
fn token_totals_count_inference_steps_only() {
    let ts = vec![
        trace(1, "llm_infer", "(prompt)", "312→45", "JSON OK"),
        trace(2, "fs_read", "a", "10→10", "3 B"),
        trace(3, "llm_infer", "(prompt)", " 8 → 2 ", "Text"),
        trace(4, "llm_infer", "(prompt)", "bad", "Text"),
    ];
    assert_eq!(trace_token_totals(&ts), (320, 47));
    assert_eq!(parse_token_counts("1→2→3"), None);
    assert_eq!(parse_token_counts("7→9"), Some((7, 9)));
}

#[test]
fn checked_totals_refuse_overflow() {
    let ts = vec![
        trace(1, "llm_infer", "(prompt)", "4294967295→1", "Text"),
        trace(2, "llm_infer", "(prompt)", "1→1", "Text"),
    ];
    assert_eq!(nanos::trace::trace_token_totals_checked(&ts), None);
    assert_eq!(nanos::trace::trace_token_totals_checked(&ts[..1].iter().map(|t| t.copy()).collect()), Some((4294967295, 1)));
}
