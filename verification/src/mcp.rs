//! The client side of the Model Context Protocol over stdio: numbered
//! JSON-RPC requests, the reading of their responses, and the text a tool
//! call yields.
use vstd::prelude::*;
use vstd::string::*;
use crate::json::{
    JsonValue, as_text, get_member, get_member_text, json_parse, json_render, member, member_text,
    parse_json, render_json, take_member,
};

verus! {

/// The request numbering of one MCP server connection.
pub struct McpSession {
    pub request_id: u64,
}

/// `d` is request number `id` for `method` with `params`.
pub open spec fn is_mcp_request(d: JsonValue, id: u64, method: Seq<char>, params: JsonValue) -> bool {
    &&& d matches JsonValue::Object(f)
    &&& f@.len() == 4
    &&& f@[0].0@ == "id"@ && (f@[0].1 matches JsonValue::Number(n) && n@ == crate::text::decimal(
        id as nat,
    ))
    &&& f@[1].0@ == "jsonrpc"@ && (f@[1].1 matches JsonValue::Str(s) && s@ == "2.0"@)
    &&& f@[2].0@ == "method"@ && (f@[2].1 matches JsonValue::Str(s) && s@ == method)
    &&& f@[3].0@ == "params"@ && f@[3].1 == params
}

impl McpSession {
    /// A fresh connection: requests are numbered from 1.
    pub fn new() -> (r: Self)
        ensures
            r.request_id == 1,
    {
        McpSession { request_id: 1 }
    }

    /// The line of the next request; each request takes the next number.
    pub fn next_request(&mut self, method: &str, params: JsonValue) -> (r: String)
        requires
            old(self).request_id < u64::MAX,
        ensures
            final(self).request_id == old(self).request_id + 1,
            exists|d: JsonValue|
                r@ == json_render(d) && is_mcp_request(d, old(self).request_id, method@, params),
    {
        let id = self.request_id;
        self.request_id = id + 1;
        let ghost pv = params;
        let mut f: Vec<(String, JsonValue)> = Vec::new();
        f.push((String::from_str("id"), JsonValue::Number(crate::text::decimal_string(id))));
        f.push((String::from_str("jsonrpc"), JsonValue::Str(String::from_str("2.0"))));
        f.push((String::from_str("method"), JsonValue::Str(String::from_str(method))));
        f.push((String::from_str("params"), params));
        let d = JsonValue::Object(f);
        assert(is_mcp_request(d, id, method@, pv));
        render_json(&d)
    }
}

/// Why a response brought no result.
pub enum McpError {
    /// The line is not JSON.
    NotJson,
    /// The server answered with an error.
    Server(JsonValue),
    /// The response has no `result`.
    MissingResult,
}

/// The result of a response line: its `result`, unless it is not JSON, it
/// carries an `error`, or it has no result.
pub fn read_response(line: &str) -> (r: Result<JsonValue, McpError>)
    ensures
        json_parse(line@) is None ==> r matches Err(McpError::NotJson),
        json_parse(line@) matches Some(v) ==> match member(v, "error"@) {
            Some(e) => r == Err::<JsonValue, McpError>(McpError::Server(e)),
            None => match member(v, "result"@) {
                Some(x) => r == Ok::<JsonValue, McpError>(x),
                None => r matches Err(McpError::MissingResult),
            },
        },
{
    let v = match parse_json(line) {
        Some(v) => v,
        None => return Err(McpError::NotJson),
    };
    let has_error = match get_member(&v, "error") {
        Some(_) => true,
        None => false,
    };
    if has_error {
        match take_member(v, "error") {
            Some(e) => Err(McpError::Server(e)),
            None => Err(McpError::MissingResult),
        }
    } else {
        match take_member(v, "result") {
            Some(x) => Ok(x),
            None => Err(McpError::MissingResult),
        }
    }
}

/// `d` holds the parameters of a call of tool `name`.
pub open spec fn is_tool_call_params(d: JsonValue, name: Seq<char>, arguments: JsonValue) -> bool {
    &&& d matches JsonValue::Object(f)
    &&& f@.len() == 2
    &&& f@[0].0@ == "arguments"@ && f@[0].1 == arguments
    &&& f@[1].0@ == "name"@ && (f@[1].1 matches JsonValue::Str(s) && s@ == name)
}

/// The parameters of a `tools/call` request.
pub fn tool_call_params(tool_name: &str, arguments: JsonValue) -> (r: JsonValue)
    ensures
        is_tool_call_params(r, tool_name@, arguments),
{
    let mut f: Vec<(String, JsonValue)> = Vec::new();
    f.push((String::from_str("arguments"), arguments));
    f.push((String::from_str("name"), JsonValue::Str(String::from_str(tool_name))));
    JsonValue::Object(f)
}

/// The parameters of a listing request: an empty object.
pub fn no_params() -> (r: JsonValue)
    ensures
        r matches JsonValue::Object(f) && f@.len() == 0,
{
    JsonValue::Object(Vec::new())
}

/// The `text` members of the content items that have one, in order.
pub open spec fn content_texts(items: Seq<JsonValue>) -> Seq<Seq<char>>
    decreases items.len(),
{
    if items.len() == 0 {
        Seq::empty()
    } else {
        content_texts(items.drop_last()) + match member_text(items.last(), "text"@) {
            Some(t) => seq![t],
            None => Seq::empty(),
        }
    }
}

/// Texts joined by a separator.
pub open spec fn join_lines(ts: Seq<Seq<char>>) -> Seq<char>
    decreases ts.len(),
{
    if ts.len() == 0 {
        Seq::empty()
    } else if ts.len() == 1 {
        ts[0]
    } else {
        join_lines(ts.drop_last()) + "\n"@ + ts.last()
    }
}

/// The text of a tool call's result: the texts of its `content` items
/// joined by newlines, or the result's JSON when it has no content list.
pub open spec fn tool_text_of(result: JsonValue) -> Seq<char> {
    match member(result, "content"@) {
        Some(JsonValue::Array(items)) => join_lines(content_texts(items@)),
        _ => json_render(result),
    }
}

pub fn tool_text(result: &JsonValue) -> (r: String)
    ensures
        r@ == tool_text_of(*result),
{
    match get_member(result, "content") {
        Some(JsonValue::Array(items)) => {
            let mut out = String::new();
            let mut count: usize = 0;
            let mut i: usize = 0;
            while i < items.len()
                invariant
                    i <= items@.len(),
                    count == content_texts(items@.take(i as int)).len(),
                    out@ == join_lines(content_texts(items@.take(i as int))),
                    count <= i,
                decreases items@.len() - i,
            {
                let ghost before = content_texts(items@.take(i as int));
                assert(items@.take(i + 1).drop_last() =~= items@.take(i as int));
                assert(items@.take(i + 1).last() == items@[i as int]);
                match get_member_text(&items[i], "text") {
                    Some(t) => {
                        if count > 0 {
                            out.append("\n");
                        }
                        out.append(t.as_str());
                        proof {
                            let after = content_texts(items@.take(i + 1));
                            assert(after =~= before.push(t@));
                            assert(after.drop_last() =~= before);
                            if before.len() == 0 {
                                assert(after =~= seq![t@]);
                            }
                        }
                        count = count + 1;
                    },
                    None => {
                        assert(content_texts(items@.take(i + 1)) =~= before);
                    },
                }
                i = i + 1;
            }
            assert(items@.take(items@.len() as int) =~= items@);
            out
        },
        _ => render_json(result),
    }
}

} // verus!
