//! JSON-RPC 2.0 dispatch for the Model Context Protocol: the replies to
//! `initialize` and `tools/list`, and the start of a tool call.
use vstd::prelude::*;

use crate::json::{
    arr1, arr2, empty_object, member, obj1, obj2, obj3, opt_json_view, str_of,
    with_member, lemma_items_view, Json, JsonNumber, JsonV,
};
use crate::kibana::{jnum, jobj1, jstr, result_view};
use crate::render::{compact, to_compact};
use crate::text::{is_prefix, owned, starts_with, str_eq, trim, trimmed};
use crate::tools::{
    context_args_outcome, get_indices, get_log_context, member_str, search_args_match, search_logs,
    ToolTask,
};

verus! {

/// The MCP protocol version this server speaks.
pub open spec fn protocol_version() -> Seq<char> {
    "2024-11-05"@
}

/// The server's name.
pub open spec fn server_name() -> Seq<char> {
    "kibana-mcp-server"@
}

/// The server's version.
pub open spec fn server_version() -> Seq<char> {
    "0.1.2"@
}

/// The server's version.
pub fn version() -> (r: &'static str)
    ensures
        r@ == server_version(),
{
    "0.1.2"
}

/// A JSON-RPC request, as read from the wire.
pub struct JsonRpcRequest {
    pub jsonrpc: String,
    pub id: Option<Json>,
    pub method: String,
    pub params: Json,
}

/// A JSON-RPC response.
pub struct JsonRpcResponse {
    pub jsonrpc: String,
    pub id: Option<Json>,
    pub result: Option<Json>,
    pub error: Option<Json>,
}

/// The value of a JSON-RPC response.
pub struct ResponseV {
    pub jsonrpc: Seq<char>,
    pub id: Option<JsonV>,
    pub result: Option<JsonV>,
    pub error: Option<JsonV>,
}

impl View for JsonRpcResponse {
    type V = ResponseV;

    open spec fn view(&self) -> ResponseV {
        ResponseV {
            jsonrpc: self.jsonrpc@,
            id: opt_json_view(self.id),
            result: opt_json_view(self.result),
            error: opt_json_view(self.error),
        }
    }
}

/// A successful response.
pub open spec fn success(id: Option<JsonV>, result: JsonV) -> ResponseV {
    ResponseV { jsonrpc: "2.0"@, id, result: Some(result), error: None }
}

/// An error response.
pub open spec fn failure(id: Option<JsonV>, error: JsonV) -> ResponseV {
    ResponseV { jsonrpc: "2.0"@, id, result: None, error: Some(error) }
}

/// A JSON-RPC error object.
pub open spec fn error_object(code: Seq<char>, message: Seq<char>) -> JsonV {
    JsonV::Object(seq!["code"@, "message"@], seq![JsonV::Number(code, None), jstr(message)])
}

/// The content of a tool result: one text item.
pub open spec fn text_content(text: Seq<char>) -> JsonV {
    JsonV::Array(seq![JsonV::Object(seq!["text"@, "type"@], seq![jstr(text), jstr("text"@)])])
}

/// A tool result that reports an error.
pub open spec fn mcp_error_value(message: Seq<char>) -> JsonV {
    JsonV::Object(seq!["content"@, "isError"@], seq![text_content(message), JsonV::Bool(true)])
}

/// A tool result that carries text.
pub open spec fn tool_text_value(text: Seq<char>) -> JsonV {
    jobj1("content"@, text_content(text))
}

/// The result of `initialize`: capabilities, protocol version and server
/// information, in key order.
pub open spec fn initialize_value() -> JsonV {
    JsonV::Object(
        seq!["capabilities"@, "protocolVersion"@, "serverInfo"@],
        seq![
            jobj1("tools"@, JsonV::Object(Seq::empty(), Seq::empty())),
            jstr(protocol_version()),
            JsonV::Object(
                seq!["name"@, "version"@],
                seq![jstr(server_name()), jstr(server_version())],
            ),
        ],
    )
}

/// A property of a tool's input schema.
pub open spec fn prop(description: Seq<char>, ty: Seq<char>) -> JsonV {
    JsonV::Object(seq!["description"@, "type"@], seq![jstr(description), jstr(ty)])
}

/// A property of a tool's input schema, with a default.
pub open spec fn prop_default(default: JsonV, description: Seq<char>, ty: Seq<char>) -> JsonV {
    JsonV::Object(
        seq!["default"@, "description"@, "type"@],
        seq![default, jstr(description), jstr(ty)],
    )
}

/// The description of the timestamp field argument.
pub open spec fn timestamp_prop() -> JsonV {
    prop_default(
        jstr("@timestamp"@),
        "Name of the timestamp field (default: '@timestamp')"@,
        "string"@,
    )
}

/// The arguments of `search_logs`, in key order.
pub open spec fn search_properties() -> JsonV {
    JsonV::Object(
        seq![
            "cursor"@,
            "index"@,
            "query"@,
            "raw"@,
            "size"@,
            "time_from"@,
            "time_to"@,
            "timestamp_field"@,
        ],
        seq![
            prop("Pagination cursor from previous search response"@, "array"@),
            prop_default(jstr("*"@), "Index pattern to search (default: '*')"@, "string"@),
            prop("Elasticsearch query string (e.g. 'error AND service:auth')"@, "string"@),
            prop_default(
                JsonV::Bool(false),
                "Return raw JSON instead of formatted text (default: false)"@,
                "boolean"@,
            ),
            prop_default(
                jnum(50),
                "Number of results to return (default: 50, max: 10000)"@,
                "integer"@,
            ),
            prop_default(
                jstr("now-1h"@),
                "Start of time range (default: 'now-1h'). Supports ES date math."@,
                "string"@,
            ),
            prop_default(
                jstr("now"@),
                "End of time range (default: 'now'). Supports ES date math."@,
                "string"@,
            ),
            timestamp_prop(),
        ],
    )
}

/// The arguments of `get_log_context`, in key order.
pub open spec fn context_properties() -> JsonV {
    JsonV::Object(
        seq!["doc_id"@, "index"@, "size"@, "timestamp_field"@],
        seq![
            prop("Document ID to get context for"@, "string"@),
            prop("Index name containing the document"@, "string"@),
            prop_default(
                jnum(5),
                "Number of entries before and after (default: 5)"@,
                "integer"@,
            ),
            timestamp_prop(),
        ],
    )
}

/// A tool's description.
pub open spec fn tool_value(name: Seq<char>, description: Seq<char>, schema: JsonV) -> JsonV {
    JsonV::Object(
        seq!["description"@, "inputSchema"@, "name"@],
        seq![jstr(description), schema, jstr(name)],
    )
}

/// The three tools.
pub open spec fn tools_list_value() -> JsonV {
    jobj1(
        "tools"@,
        JsonV::Array(
            seq![
                tool_value(
                    "search_logs"@,
                    "Search logs in Elasticsearch/Kibana using query string syntax. Returns matching log entries with timestamps, levels, and messages."@,
                    JsonV::Object(
                        seq!["properties"@, "required"@, "type"@],
                        seq![
                            search_properties(),
                            JsonV::Array(seq![jstr("query"@)]),
                            jstr("object"@),
                        ],
                    ),
                ),
                tool_value(
                    "get_indices"@,
                    "List available indices (Elasticsearch) or index patterns (Kibana)."@,
                    JsonV::Object(
                        seq!["properties"@, "type"@],
                        seq![JsonV::Object(Seq::empty(), Seq::empty()), jstr("object"@)],
                    ),
                ),
                tool_value(
                    "get_log_context"@,
                    "Get surrounding log entries for a specific document. Shows entries before and after the target document in chronological order."@,
                    JsonV::Object(
                        seq!["properties"@, "required"@, "type"@],
                        seq![
                            context_properties(),
                            JsonV::Array(seq![jstr("index"@), jstr("doc_id"@)]),
                            jstr("object"@),
                        ],
                    ),
                ),
            ],
        ),
    )
}

fn prop_json(description: &str, ty: &str) -> (r: Json)
    ensures
        r@ == prop(description@, ty@),
{
    obj2("description", Json::str_value(description), "type", Json::str_value(ty))
}

fn prop_default_json(default: Json, description: &str, ty: &str) -> (r: Json)
    ensures
        r@ == prop_default(default@, description@, ty@),
{
    obj3(
        "default",
        default,
        "description",
        Json::str_value(description),
        "type",
        Json::str_value(ty),
    )
}

fn timestamp_prop_json() -> (r: Json)
    ensures
        r@ == timestamp_prop(),
{
    prop_default_json(
        Json::str_value("@timestamp"),
        "Name of the timestamp field (default: '@timestamp')",
        "string",
    )
}

fn search_properties_json() -> (r: Json)
    ensures
        r@ == search_properties(),
{
    let o = empty_object();
    let o = with_member(
        o,
        "cursor",
        prop_json("Pagination cursor from previous search response", "array"),
    );
    let o = with_member(
        o,
        "index",
        prop_default_json(
            Json::str_value("*"),
            "Index pattern to search (default: '*')",
            "string",
        ),
    );
    let o = with_member(
        o,
        "query",
        prop_json("Elasticsearch query string (e.g. 'error AND service:auth')", "string"),
    );
    let o = with_member(
        o,
        "raw",
        prop_default_json(
            Json::Bool(false),
            "Return raw JSON instead of formatted text (default: false)",
            "boolean",
        ),
    );
    let o = with_member(
        o,
        "size",
        prop_default_json(
            Json::u64_value(50),
            "Number of results to return (default: 50, max: 10000)",
            "integer",
        ),
    );
    let o = with_member(
        o,
        "time_from",
        prop_default_json(
            Json::str_value("now-1h"),
            "Start of time range (default: 'now-1h'). Supports ES date math.",
            "string",
        ),
    );
    let o = with_member(
        o,
        "time_to",
        prop_default_json(
            Json::str_value("now"),
            "End of time range (default: 'now'). Supports ES date math.",
            "string",
        ),
    );
    let o = with_member(o, "timestamp_field", timestamp_prop_json());
    assert(o@->Object_0 =~= search_properties()->Object_0);
    assert(o@->Object_1 =~= search_properties()->Object_1);
    o
}

fn context_properties_json() -> (r: Json)
    ensures
        r@ == context_properties(),
{
    let o = empty_object();
    let o = with_member(o, "doc_id", prop_json("Document ID to get context for", "string"));
    let o = with_member(o, "index", prop_json("Index name containing the document", "string"));
    let o = with_member(
        o,
        "size",
        prop_default_json(
            Json::u64_value(5),
            "Number of entries before and after (default: 5)",
            "integer",
        ),
    );
    let o = with_member(o, "timestamp_field", timestamp_prop_json());
    assert(o@->Object_0 =~= context_properties()->Object_0);
    assert(o@->Object_1 =~= context_properties()->Object_1);
    o
}

fn tool_json(name: &str, description: &str, schema: Json) -> (r: Json)
    ensures
        r@ == tool_value(name@, description@, schema@),
{
    obj3(
        "description",
        Json::str_value(description),
        "inputSchema",
        schema,
        "name",
        Json::str_value(name),
    )
}

/// The result of `tools/list`: the three tools with their input schemas.
pub fn tools_list_json() -> (r: Json)
    ensures
        r@ == tools_list_value(),
{
    let search = tool_json(
        "search_logs",
        "Search logs in Elasticsearch/Kibana using query string syntax. Returns matching log entries with timestamps, levels, and messages.",
        obj3(
            "properties",
            search_properties_json(),
            "required",
            arr1(Json::str_value("query")),
            "type",
            Json::str_value("object"),
        ),
    );
    let indices = tool_json(
        "get_indices",
        "List available indices (Elasticsearch) or index patterns (Kibana).",
        obj2("properties", empty_object(), "type", Json::str_value("object")),
    );
    let context = tool_json(
        "get_log_context",
        "Get surrounding log entries for a specific document. Shows entries before and after the target document in chronological order.",
        obj3(
            "properties",
            context_properties_json(),
            "required",
            arr2(Json::str_value("index"), Json::str_value("doc_id")),
            "type",
            Json::str_value("object"),
        ),
    );
    let ghost v1 = search@;
    let ghost v2 = indices@;
    let ghost v3 = context@;
    let list = Json::Array(vec![search, indices, context]);
    proof {
        lemma_items_view(list->Array_0@);
        assert(list@->Array_0 =~= seq![v1, v2, v3]);
    }
    obj1("tools", list)
}

/// The result of `initialize`.
pub fn initialize_json() -> (r: Json)
    ensures
        r@ == initialize_value(),
{
    obj3(
        "capabilities",
        obj1("tools", empty_object()),
        "protocolVersion",
        Json::str_value("2024-11-05"),
        "serverInfo",
        obj2("name", Json::str_value("kibana-mcp-server"), "version", Json::str_value(version())),
    )
}

fn text_content_json(text: &str) -> (r: Json)
    ensures
        r@ == text_content(text@),
{
    arr1(obj2("text", Json::str_value(text), "type", Json::str_value("text")))
}

/// A tool result that reports an error message.
pub fn mcp_error(message: &str) -> (r: Json)
    ensures
        r@ == mcp_error_value(message@),
{
    obj2("content", text_content_json(message), "isError", Json::Bool(true))
}

/// A tool result that carries text.
pub fn tool_text(text: &str) -> (r: Json)
    ensures
        r@ == tool_text_value(text@),
{
    obj1("content", text_content_json(text))
}

fn error_json(code: &str, message: &str) -> (r: Json)
    ensures
        r@ == error_object(code@, message@),
{
    obj2(
        "code",
        Json::Number(JsonNumber { text: owned(code), unsigned: None }),
        "message",
        Json::str_value(message),
    )
}

fn respond(id: Option<Json>, result: Json) -> (r: JsonRpcResponse)
    ensures
        r@ == success(opt_json_view(id), result@),
{
    JsonRpcResponse { jsonrpc: owned("2.0"), id, result: Some(result), error: None }
}

fn respond_error(id: Option<Json>, error: Json) -> (r: JsonRpcResponse)
    ensures
        r@ == failure(opt_json_view(id), error@),
{
    JsonRpcResponse { jsonrpc: owned("2.0"), id, result: None, error: Some(error) }
}

/// The answer to a request that is not JSON-RPC.
pub open spec fn parse_error_response() -> ResponseV {
    failure(None, error_object("-32700"@, "Parse error"@))
}

/// The answer to an unknown method.
pub open spec fn method_not_found(id: Option<JsonV>) -> ResponseV {
    failure(id, error_object("-32601"@, "Method not found"@))
}

/// The answer to a finished tool call.
pub open spec fn tool_outcome_response(id: Option<JsonV>, outcome: Result<Seq<char>, Seq<char>>) -> ResponseV {
    match outcome {
        Ok(text) => success(id, tool_text_value(text)),
        Err(e) => success(id, mcp_error_value(e)),
    }
}

/// The answer to a finished tool call: its text, or its error as a tool
/// result marked as an error.
pub fn tool_response(id: Option<Json>, outcome: Result<String, String>) -> (r: JsonRpcResponse)
    ensures
        r@ == tool_outcome_response(opt_json_view(id), result_view(outcome)),
{
    match outcome {
        Ok(text) => respond(id, tool_text(text.as_str())),
        Err(e) => respond(id, mcp_error(e.as_str())),
    }
}

/// The JSON object of a response: `jsonrpc`, then `id`, `result` and
/// `error` where present.
pub open spec fn response_value(r: ResponseV) -> JsonV {
    let k0 = seq!["jsonrpc"@];
    let v0 = seq![jstr(r.jsonrpc)];
    let k1 = if r.id is Some { k0.push("id"@) } else { k0 };
    let v1 = if r.id is Some { v0.push(r.id->0) } else { v0 };
    let k2 = if r.result is Some { k1.push("result"@) } else { k1 };
    let v2 = if r.result is Some { v1.push(r.result->0) } else { v1 };
    let k3 = if r.error is Some { k2.push("error"@) } else { k2 };
    let v3 = if r.error is Some { v2.push(r.error->0) } else { v2 };
    JsonV::Object(k3, v3)
}

/// The compact JSON text of a response.
pub fn response_text(r: &JsonRpcResponse) -> (t: String)
    ensures
        t@ == compact(response_value(r@)),
{
    let o = empty_object();
    let o = with_member(o, "jsonrpc", Json::Str(r.jsonrpc.clone()));
    let o = match &r.id {
        Some(id) => with_member(o, "id", id.duplicate()),
        None => o,
    };
    let o = match &r.result {
        Some(x) => with_member(o, "result", x.duplicate()),
        None => o,
    };
    let o = match &r.error {
        Some(x) => with_member(o, "error", x.duplicate()),
        None => o,
    };
    assert(o@ == response_value(r@));
    to_compact(&o)
}

} // verus!

verus! {

/// What to do with a request.
pub enum Dispatch {
    /// A notification: nothing is answered.
    NoReply,
    /// The answer, ready to send.
    Reply(JsonRpcResponse),
    /// A tool call that needs the backend; its answer carries `id`.
    RunTool { id: Option<Json>, task: ToolTask },
}

/// The name of the tool a `tools/call` names, or the empty text.
pub open spec fn tool_name(params: JsonV) -> Seq<char> {
    match member(params, "name"@) {
        Some(v) => match str_of(v) {
            Some(s) => s,
            None => Seq::empty(),
        },
        None => Seq::empty(),
    }
}

/// The arguments of a `tools/call`, or an empty object.
pub open spec fn tool_arguments(params: JsonV) -> JsonV {
    match member(params, "arguments"@) {
        Some(a) => a,
        None => JsonV::Object(Seq::empty(), Seq::empty()),
    }
}

/// Whether `d` is an immediate answer with the given value.
pub open spec fn replies(d: Dispatch, r: ResponseV) -> bool {
    d matches Dispatch::Reply(x) && x@ == r
}

/// How a `tools/call` with the given id and parameters is dispatched.
pub open spec fn tool_call_dispatched(id: Option<JsonV>, params: JsonV, d: Dispatch) -> bool {
    let name = tool_name(params);
    let args = tool_arguments(params);
    if name == "search_logs"@ {
        match member_str(args, "query"@) {
            None => replies(d, success(id, mcp_error_value("Missing required parameter: 'query'"@))),
            Some(_) => d matches Dispatch::RunTool { id: i2, task: ToolTask::Search { query, raw } }
                && opt_json_view(i2) == id && search_args_match(args, query, raw),
        }
    } else if name == "get_indices"@ {
        d matches Dispatch::RunTool { id: i2, task: ToolTask::Indices } && opt_json_view(i2) == id
    } else if name == "get_log_context"@ {
        match context_args_outcome(args) {
            Err(e) => replies(d, success(id, mcp_error_value(e))),
            Ok(c) => d matches Dispatch::RunTool { id: i2, task: ToolTask::ContextDocument { args: a } }
                && opt_json_view(i2) == id && c == (a.index@, a.doc_id@, a.size, a.timestamp_field@),
        }
    } else {
        replies(d, success(id, mcp_error_value("Unknown tool: "@ + name)))
    }
}

/// How a request (or a text that is not a JSON-RPC request) is dispatched.
pub open spec fn dispatched(req: Option<JsonRpcRequest>, d: Dispatch) -> bool {
    match req {
        None => replies(d, parse_error_response()),
        Some(q) => {
            let id = opt_json_view(q.id);
            if is_prefix("notifications/"@, q.method@) {
                d is NoReply
            } else if q.method@ == "initialize"@ {
                replies(d, success(id, initialize_value()))
            } else if q.method@ == "tools/list"@ {
                replies(d, success(id, tools_list_value()))
            } else if q.method@ == "tools/call"@ {
                tool_call_dispatched(id, q.params@, d)
            } else {
                replies(d, method_not_found(id))
            }
        },
    }
}

fn dispatch_tool_call(id: Option<Json>, params: &Json) -> (d: Dispatch)
    ensures
        tool_call_dispatched(opt_json_view(id), params@, d),
{
    let name: String = match params.get("name") {
        Some(v) => match v.as_str() {
            Some(s) => s.clone(),
            None => String::new(),
        },
        None => String::new(),
    };
    let arguments: Json = match params.get("arguments") {
        Some(a) => a.duplicate(),
        None => empty_object(),
    };
    if str_eq(name.as_str(), "search_logs") {
        match search_logs(&arguments) {
            Ok(task) => Dispatch::RunTool { id, task },
            Err(e) => Dispatch::Reply(respond(id, mcp_error(e.as_str()))),
        }
    } else if str_eq(name.as_str(), "get_indices") {
        Dispatch::RunTool { id, task: get_indices() }
    } else if str_eq(name.as_str(), "get_log_context") {
        match get_log_context(&arguments) {
            Ok(task) => Dispatch::RunTool { id, task },
            Err(e) => Dispatch::Reply(respond(id, mcp_error(e.as_str()))),
        }
    } else {
        let mut m = owned("Unknown tool: ");
        m.append(name.as_str());
        Dispatch::Reply(respond(id, mcp_error(m.as_str())))
    }
}

/// Decides what to do with a request: `None` stands for a text that is not
/// a JSON-RPC request, answered with a parse error; notifications get no
/// answer; `initialize` and `tools/list` are answered at once; a tool call
/// is started; any other method is answered with "method not found".
pub fn dispatch_request(request: Option<JsonRpcRequest>) -> (d: Dispatch)
    ensures
        dispatched(request, d),
{
    match request {
        None => Dispatch::Reply(respond_error(None, error_json("-32700", "Parse error"))),
        Some(q) => {
            if starts_with(q.method.as_str(), "notifications/") {
                Dispatch::NoReply
            } else if str_eq(q.method.as_str(), "initialize") {
                Dispatch::Reply(respond(q.id, initialize_json()))
            } else if str_eq(q.method.as_str(), "tools/list") {
                Dispatch::Reply(respond(q.id, tools_list_json()))
            } else if str_eq(q.method.as_str(), "tools/call") {
                dispatch_tool_call(q.id, &q.params)
            } else {
                Dispatch::Reply(respond_error(q.id, error_json("-32601", "Method not found")))
            }
        },
    }
}

/// The request text a line of the stdio transport carries: the line
/// without surrounding whitespace, unless nothing is left.
pub fn stdio_request(line: &str) -> (r: Option<String>)
    ensures
        r is None <==> trimmed(line@).len() == 0,
        r matches Some(t) ==> t@ == trimmed(line@),
{
    let t = trim(line);
    if t.as_str().unicode_len() == 0 {
        None
    } else {
        Some(t)
    }
}

/// Every request that is not a notification is answered, and the answer
/// carries the request's id (or no id for a text that is not a request).
pub proof fn every_request_is_answered(req: Option<JsonRpcRequest>, d: Dispatch)
    requires
        dispatched(req, d),
        req matches Some(q) ==> !is_prefix("notifications/"@, q.method@),
    ensures
        d !is NoReply,
        d matches Dispatch::Reply(r) ==> r@.id == match req {
            Some(q) => opt_json_view(q.id),
            None => None,
        },
        d matches Dispatch::RunTool { id, task } ==> req matches Some(q) && opt_json_view(id)
            == opt_json_view(q.id),
{
}

} // verus!
