//! The MCP tools: reading their arguments, and carrying out a tool call
//! as a sequence of requests to the backend, one reply at a time.
use vstd::prelude::*;

use crate::format::{
    hit_text, hits_text, are_hits_displayable, context_text, format_context, format_indices, format_search_response,
    hit_displayable, hits_displayable, indices_text, is_hit_displayable, search_text,
};
use crate::json::{
    at, array_of, bool_of, duplicate_items, first_key_at, items_view, lemma_first_key_unique,
    member, obj4, str_of, u64_of, Json, JsonV,
};
use crate::kibana::{
    anchor_outcome, context_anchor, document_path, es_plan, extract_hits, hits_of, hits_or_empty,
    indices_label, indices_outcome, indices_plan, jnum, neighbours_body, older_in_order,
    parse_indices, parse_search_response, reply_json, reply_outcome, result_view, search_outcome,
    search_body, search_path, search_plan, AuthV, BackendType, HttpMethod, KibanaClient, PlanV,
    Reply, RequestPlan, SearchQuery, SearchResponseV,
};
use crate::render::{compact, pretty, to_pretty};
use crate::text::owned;

verus! {

broadcast use vstd::std_specs::vec::group_vec_axioms;

/// The text of the string member `key`, if there is one.
pub open spec fn member_str(args: JsonV, key: Seq<char>) -> Option<Seq<char>> {
    match member(args, key) {
        Some(v) => str_of(v),
        None => None,
    }
}

/// The value of the non-negative integer member `key`, if there is one.
pub open spec fn member_u64(args: JsonV, key: Seq<char>) -> Option<u64> {
    match member(args, key) {
        Some(v) => u64_of(v),
        None => None,
    }
}

/// The value of the boolean member `key`, if there is one.
pub open spec fn member_bool(args: JsonV, key: Seq<char>) -> Option<bool> {
    match member(args, key) {
        Some(v) => bool_of(v),
        None => None,
    }
}

/// The items of the array member `key`, if there is one.
pub open spec fn member_array(args: JsonV, key: Seq<char>) -> Option<Seq<JsonV>> {
    match member(args, key) {
        Some(v) => array_of(v),
        None => None,
    }
}

/// A text, or a default.
pub open spec fn or_default(v: Option<Seq<char>>, d: Seq<char>) -> Seq<char> {
    match v {
        Some(t) => t,
        None => d,
    }
}

/// The number of results a search asks for: 50 unless given, at most 10000.
pub open spec fn requested_size(args: JsonV) -> u64 {
    match member_u64(args, "size"@) {
        Some(n) => if n < 10000 {
            n
        } else {
            10000
        },
        None => 50,
    }
}

/// The text of an optional string.
pub open spec fn opt_view(v: Option<String>) -> Option<Seq<char>> {
    match v {
        Some(t) => Some(t@),
        None => None,
    }
}

/// Whether `q` and `raw` are the search that the arguments of
/// `search_logs` describe.
pub open spec fn search_args_match(args: JsonV, q: SearchQuery, raw: bool) -> bool {
    &&& member_str(args, "query"@) == Some(q.query_string@)
    &&& q.index@ == or_default(member_str(args, "index"@), "*"@)
    &&& opt_view(q.time_from) == member_str(args, "time_from"@)
    &&& opt_view(q.time_to) == member_str(args, "time_to"@)
    &&& q.size as u64 == requested_size(args)
    &&& q.timestamp_field@ == or_default(member_str(args, "timestamp_field"@), "@timestamp"@)
    &&& match q.search_after {
        Some(c) => member_array(args, "cursor"@) == Some(items_view(c@)),
        None => member_array(args, "cursor"@) is None,
    }
    &&& raw == match member_bool(args, "raw"@) {
        Some(b) => b,
        None => false,
    }
}

fn string_arg(args: &Json, key: &str) -> (r: Option<String>)
    ensures
        opt_view(r) == member_str(args@, key@),
{
    match args.get(key) {
        Some(v) => match v.as_str() {
            Some(s) => Some(s.clone()),
            None => None,
        },
        None => None,
    }
}

fn u64_arg(args: &Json, key: &str) -> (r: Option<u64>)
    ensures
        r == member_u64(args@, key@),
{
    match args.get(key) {
        Some(v) => v.as_u64(),
        None => None,
    }
}

fn string_arg_or(args: &Json, key: &str, d: &str) -> (r: String)
    ensures
        r@ == or_default(member_str(args@, key@), d@),
{
    match string_arg(args, key) {
        Some(s) => s,
        None => owned(d),
    }
}

/// Reads the arguments of `search_logs`: the required query string, the
/// index pattern, time range, page size (capped at 10000), timestamp
/// field, cursor, and whether to answer with raw JSON.
pub fn parse_search_args(args: &Json) -> (r: Result<(SearchQuery, bool), String>)
    ensures
        r is Err <==> member_str(args@, "query"@) is None,
        r matches Err(e) ==> e@ == "Missing required parameter: 'query'"@,
        r matches Ok(p) ==> search_args_match(args@, p.0, p.1),
{
    let query_string = match string_arg(args, "query") {
        Some(q) => q,
        None => {
            return Err(owned("Missing required parameter: 'query'"));
        },
    };
    let index = string_arg_or(args, "index", "*");
    let time_from = string_arg(args, "time_from");
    let time_to = string_arg(args, "time_to");
    let size: u64 = match u64_arg(args, "size") {
        Some(n) => if n < 10000 {
            n
        } else {
            10000
        },
        None => 50,
    };
    let timestamp_field = string_arg_or(args, "timestamp_field", "@timestamp");
    let search_after = match args.get("cursor") {
        Some(v) => match v.as_array() {
            Some(c) => Some(duplicate_items(c)),
            None => None,
        },
        None => None,
    };
    let raw = match args.get("raw") {
        Some(v) => match v.as_bool() {
            Some(b) => b,
            None => false,
        },
        None => false,
    };
    let q = SearchQuery {
        query_string,
        index,
        time_from,
        time_to,
        size: size as u32,
        search_after,
        timestamp_field,
    };
    Ok((q, raw))
}

/// The arguments of `get_log_context`: index, document id, number of
/// entries on each side (5 unless given, cut to 32 bits) and timestamp
/// field.
pub struct ContextArgs {
    pub index: String,
    pub doc_id: String,
    pub size: u32,
    pub timestamp_field: String,
}

/// What `get_log_context` makes of its arguments.
pub open spec fn context_args_outcome(args: JsonV) -> Result<
    (Seq<char>, Seq<char>, u32, Seq<char>),
    Seq<char>,
> {
    match member_str(args, "index"@) {
        None => Err("Missing required parameter: 'index'"@),
        Some(index) => match member_str(args, "doc_id"@) {
            None => Err("Missing required parameter: 'doc_id'"@),
            Some(doc_id) => Ok(
                (
                    index,
                    doc_id,
                    match member_u64(args, "size"@) {
                        Some(n) => n as u32,
                        None => 5,
                    },
                    or_default(member_str(args, "timestamp_field"@), "@timestamp"@),
                ),
            ),
        },
    }
}

/// Reads the arguments of `get_log_context`.
pub fn parse_context_args(args: &Json) -> (r: Result<ContextArgs, String>)
    ensures
        match r {
            Ok(c) => context_args_outcome(args@) == Ok::<_, Seq<char>>(
                (c.index@, c.doc_id@, c.size, c.timestamp_field@),
            ),
            Err(e) => context_args_outcome(args@) == Err::<(Seq<char>, Seq<char>, u32, Seq<char>), _>(e@),
        },
{
    let index = match string_arg(args, "index") {
        Some(i) => i,
        None => {
            return Err(owned("Missing required parameter: 'index'"));
        },
    };
    let doc_id = match string_arg(args, "doc_id") {
        Some(d) => d,
        None => {
            return Err(owned("Missing required parameter: 'doc_id'"));
        },
    };
    let size: u32 = match u64_arg(args, "size") {
        Some(n) => n as u32,
        None => 5,
    };
    let timestamp_field = string_arg_or(args, "timestamp_field", "@timestamp");
    Ok(ContextArgs { index, doc_id, size, timestamp_field })
}

} // verus!

verus! {

/// A tool call in progress: what it still has to ask the backend, or its
/// outcome.
pub enum ToolTask {
    /// `search_logs`: one search.
    Search { query: SearchQuery, raw: bool },
    /// `get_indices`: one listing.
    Indices,
    /// `get_log_context`, first step: fetch the document.
    ContextDocument { args: ContextArgs },
    /// `get_log_context`, second step: the entries before the document.
    ContextBefore { args: ContextArgs, doc: Json, timestamp: Json },
    /// `get_log_context`, last step: the entries after the document.
    ContextAfter { args: ContextArgs, doc: Json, timestamp: Json, before: Vec<Json> },
    /// The tool's text, or its error message.
    Finished(Result<String, String>),
}

/// The request a task in progress sends next.
pub open spec fn task_plan(t: ToolTask, c: KibanaClient) -> PlanV {
    match t {
        ToolTask::Search { query, raw } => search_plan(c, query),
        ToolTask::Indices => indices_plan(c.base_url@, c.auth@, c.backend->0),
        ToolTask::ContextDocument { args } => es_plan(
            c.base_url@,
            c.auth@,
            c.backend->0,
            HttpMethod::Get,
            document_path(args.index@, args.doc_id@),
            None,
        ),
        ToolTask::ContextBefore { args, doc, timestamp } => es_plan(
            c.base_url@,
            c.auth@,
            c.backend->0,
            HttpMethod::Post,
            search_path(args.index@),
            Some(compact(neighbours_body(args.timestamp_field@, timestamp@, args.size, true))),
        ),
        ToolTask::ContextAfter { args, doc, timestamp, before } => es_plan(
            c.base_url@,
            c.auth@,
            c.backend->0,
            HttpMethod::Post,
            search_path(args.index@),
            Some(compact(neighbours_body(args.timestamp_field@, timestamp@, args.size, false))),
        ),
        ToolTask::Finished(_) => arbitrary(),
    }
}

/// The raw JSON answer of a search: hits, next cursor (or `null`), time
/// taken and total, in key order.
pub open spec fn raw_page(p: SearchResponseV) -> JsonV {
    JsonV::Object(
        seq!["hits"@, "next_cursor"@, "took_ms"@, "total"@],
        seq![
            JsonV::Array(p.hits),
            match p.next_cursor {
                Some(c) => JsonV::Array(c),
                None => JsonV::Null,
            },
            jnum(p.took_ms),
            jnum(p.total),
        ],
    )
}

/// The outcome of `search_logs` for the backend's reply.
pub open spec fn search_result(raw: bool, reply: Reply) -> Result<Seq<char>, Seq<char>> {
    match reply_outcome(reply, "Elasticsearch"@) {
        Err(e) => Err(e),
        Ok(data) => match search_outcome(data) {
            Err(e) => Err(e),
            Ok(p) => Ok(
                if raw {
                    pretty(raw_page(p), 0)
                } else {
                    search_text(p.total, p.took_ms, p.hits, p.next_cursor)
                },
            ),
        },
    }
}

/// The outcome of `get_indices` for the backend's reply.
pub open spec fn indices_result(backend: BackendType, reply: Reply) -> Result<Seq<char>, Seq<char>> {
    match reply_outcome(reply, indices_label(backend)) {
        Err(e) => Err(e),
        Ok(data) => match indices_outcome(backend, data) {
            Err(e) => Err(e),
            Ok(list) => Ok(indices_text(list)),
        },
    }
}

/// Whether the reply, if it completes the task, can be rendered (every
/// entry to be shown can be cut where needed).
pub open spec fn renderable(t: ToolTask, reply: Reply) -> bool {
    match t {
        ToolTask::Search { query, raw } => match reply {
            Reply::Parsed(data) => !raw && hits_of(data@) is Some ==> hits_displayable(
                hits_of(data@)->0,
            ),
            _ => true,
        },
        ToolTask::ContextAfter { args, doc, timestamp, before } => match reply {
            Reply::Parsed(data) => {
                &&& hits_displayable(items_view(before@))
                &&& hit_displayable(doc@)
                &&& hits_displayable(hits_or_empty(data@))
            },
            _ => true,
        },
        _ => true,
    }
}

/// The outcome of a finished task.
pub open spec fn finished_with(t: ToolTask, outcome: Result<Seq<char>, Seq<char>>) -> bool {
    t matches ToolTask::Finished(r) && result_view(r) == outcome
}

/// Whether `r` is the task `t` becomes after the reply.
pub open spec fn advanced(t: ToolTask, c: KibanaClient, reply: Reply, r: ToolTask) -> bool {
    match t {
        ToolTask::Search { query, raw } => finished_with(r, search_result(raw, reply)),
        ToolTask::Indices => finished_with(r, indices_result(c.backend->0, reply)),
        ToolTask::ContextDocument { args } => match reply_outcome(reply, "Elasticsearch"@) {
            Err(e) => finished_with(r, Err(e)),
            Ok(doc) => match anchor_outcome(doc, args.timestamp_field@) {
                Err(e) => finished_with(r, Err(e)),
                Ok(ts) => r matches ToolTask::ContextBefore { args: a2, doc: d2, timestamp: t2 }
                    && a2 == args && d2@ == doc && t2@ == ts,
            },
        },
        ToolTask::ContextBefore { args, doc, timestamp } => match reply_outcome(
            reply,
            "Elasticsearch"@,
        ) {
            Err(e) => finished_with(r, Err(e)),
            Ok(data) => r matches ToolTask::ContextAfter {
                args: a2,
                doc: d2,
                timestamp: t2,
                before: b2,
            } && a2 == args && d2@ == doc@ && t2@ == timestamp@ && items_view(b2@)
                == hits_or_empty(data).reverse(),
        },
        ToolTask::ContextAfter { args, doc, timestamp, before } => match reply_outcome(
            reply,
            "Elasticsearch"@,
        ) {
            Err(e) => finished_with(r, Err(e)),
            Ok(data) => finished_with(
                r,
                Ok(context_text(items_view(before@), doc@, hits_or_empty(data))),
            ),
        },
        ToolTask::Finished(_) => true,
    }
}

fn raw_page_json(hits: Vec<Json>, next_cursor: Option<Vec<Json>>, took_ms: u64, total: u64) -> (r:
    Json)
    ensures
        r@ == raw_page(
            SearchResponseV {
                hits: items_view(hits@),
                total,
                took_ms,
                next_cursor: match next_cursor {
                    Some(c) => Some(items_view(c@)),
                    None => None,
                },
            },
        ),
{
    let ghost cv = match &next_cursor {
        Some(c) => JsonV::Array(items_view(c@)),
        None => JsonV::Null,
    };
    let ghost page = SearchResponseV {
        hits: items_view(hits@),
        total,
        took_ms,
        next_cursor: match &next_cursor {
            Some(c) => Some(items_view(c@)),
            None => None,
        },
    };
    let cursor = match next_cursor {
        Some(c) => Json::Array(c),
        None => Json::Null,
    };
    assert(cursor@ == cv);
    let h = Json::Array(hits);
    assert(h@ == JsonV::Array(items_view(hits@)));
    let t1 = Json::u64_value(took_ms);
    let t2 = Json::u64_value(total);
    let r = obj4("hits", h, "next_cursor", cursor, "took_ms", t1, "total", t2);
    assert(r@->Object_1 =~= raw_page(page)->Object_1);
    assert(r@->Object_0 =~= raw_page(page)->Object_0);
    r
}

fn search_step(raw: bool, reply: Reply) -> (r: Result<String, String>)
    requires
        match reply {
            Reply::Parsed(data) => !raw && hits_of(data@) is Some ==> hits_displayable(
                hits_of(data@)->0,
            ),
            _ => true,
        },
    ensures
        result_view(r) == search_result(raw, reply),
{
    let data = match reply_json(reply, "Elasticsearch") {
        Ok(d) => d,
        Err(e) => {
            return Err(e);
        },
    };
    let page = match parse_search_response(&data) {
        Ok(p) => p,
        Err(e) => {
            return Err(e);
        },
    };
    if raw {
        let j = raw_page_json(page.hits, page.next_cursor, page.took_ms, page.total);
        Ok(to_pretty(&j))
    } else {
        Ok(format_search_response(&page))
    }
}

fn indices_step(backend: BackendType, reply: Reply) -> (r: Result<String, String>)
    ensures
        result_view(r) == indices_result(backend, reply),
{
    let label = match backend {
        BackendType::Kibana => "Kibana",
        BackendType::Elasticsearch => "Elasticsearch",
    };
    let data = match reply_json(reply, label) {
        Ok(d) => d,
        Err(e) => {
            return Err(e);
        },
    };
    match parse_indices(backend, &data) {
        Ok(list) => Ok(format_indices(&list)),
        Err(e) => Err(e),
    }
}

/// Starts `search_logs`: reads its arguments into the search to run, or
/// refuses them when the query is missing.
pub fn search_logs(args: &Json) -> (r: Result<ToolTask, String>)
    ensures
        r is Err <==> member_str(args@, "query"@) is None,
        r matches Err(e) ==> e@ == "Missing required parameter: 'query'"@,
        r matches Ok(t) ==> t matches ToolTask::Search { query, raw } && search_args_match(
            args@,
            query,
            raw,
        ),
{
    match parse_search_args(args) {
        Ok((query, raw)) => Ok(ToolTask::Search { query, raw }),
        Err(e) => Err(e),
    }
}

/// Starts `get_indices`, which takes no arguments.
pub fn get_indices() -> (r: ToolTask)
    ensures
        r is Indices,
{
    ToolTask::Indices
}

/// Starts `get_log_context`: reads its arguments, or refuses them when the
/// index or the document id is missing; the task first fetches the
/// document.
pub fn get_log_context(args: &Json) -> (r: Result<ToolTask, String>)
    ensures
        match (r, context_args_outcome(args@)) {
            (Ok(t), Ok(c)) => t matches ToolTask::ContextDocument { args: a } && c == (
                a.index@,
                a.doc_id@,
                a.size,
                a.timestamp_field@,
            ),
            (Err(e), Err(m)) => e@ == m,
            _ => false,
        },
{
    match parse_context_args(args) {
        Ok(a) => Ok(ToolTask::ContextDocument { args: a }),
        Err(e) => Err(e),
    }
}

impl ToolTask {
    /// Whether the task has its outcome.
    pub fn is_finished(&self) -> (r: bool)
        ensures
            r == (*self is Finished),
    {
        match self {
            ToolTask::Finished(_) => true,
            _ => false,
        }
    }

    /// The request the task sends next, to the client's detected backend.
    pub fn request(&self, client: &KibanaClient) -> (r: RequestPlan)
        requires
            client.backend is Some,
            !(*self is Finished),
        ensures
            r@ == task_plan(*self, *client),
    {
        match self {
            ToolTask::Search { query, raw: _ } => client.search(query),
            ToolTask::Indices => client.get_indices(),
            ToolTask::ContextDocument { args } => client.get_document(
                args.index.as_str(),
                args.doc_id.as_str(),
            ),
            ToolTask::ContextBefore { args, doc: _, timestamp } => client.neighbours_request(
                args.index.as_str(),
                args.timestamp_field.as_str(),
                timestamp.duplicate(),
                args.size,
                true,
            ),
            ToolTask::ContextAfter { args, doc: _, timestamp, before: _ } => client.neighbours_request(
                args.index.as_str(),
                args.timestamp_field.as_str(),
                timestamp.duplicate(),
                args.size,
                false,
            ),
            ToolTask::Finished(_) => {
                proof {
                    assert(false);
                }
                client.get_indices()
            },
        }
    }

    /// Whether the reply, if it completes the task, can be rendered.
    pub fn can_render(&self, reply: &Reply) -> (r: bool)
        ensures
            r == renderable(*self, *reply),
    {
        match self {
            ToolTask::Search { query: _, raw } => match reply {
                Reply::Parsed(data) => {
                    if *raw {
                        true
                    } else {
                        let hits = extract_hits(data);
                        proof {
                            if hits_of(data@) is Some {
                                assert(hits_or_empty(data@) == hits_of(data@)->0);
                            }
                        }
                        match data.get("hits") {
                            Some(h) => match h.get("hits") {
                                Some(a) => match a.as_array() {
                                    Some(_) => are_hits_displayable(&hits),
                                    None => true,
                                },
                                None => true,
                            },
                            None => true,
                        }
                    }
                },
                _ => true,
            },
            ToolTask::ContextAfter { args: _, doc, timestamp: _, before } => match reply {
                Reply::Parsed(data) => {
                    let after = extract_hits(data);
                    are_hits_displayable(before) && is_hit_displayable(doc)
                        && are_hits_displayable(&after)
                },
                _ => true,
            },
            _ => true,
        }
    }

    /// The task after the backend's reply to its request.
    pub fn advance(self, client: &KibanaClient, reply: Reply) -> (r: ToolTask)
        requires
            client.backend is Some,
            !(self is Finished),
            renderable(self, reply),
        ensures
            advanced(self, *client, reply, r),
    {
        match self {
            ToolTask::Search { query: _, raw } => ToolTask::Finished(search_step(raw, reply)),
            ToolTask::Indices => {
                let backend = match client.backend {
                    Some(b) => b,
                    None => BackendType::Elasticsearch,
                };
                ToolTask::Finished(indices_step(backend, reply))
            },
            ToolTask::ContextDocument { args } => {
                let doc = match reply_json(reply, "Elasticsearch") {
                    Ok(d) => d,
                    Err(e) => {
                        return ToolTask::Finished(Err(e));
                    },
                };
                match context_anchor(&doc, args.timestamp_field.as_str()) {
                    Ok(ts) => ToolTask::ContextBefore { args, doc, timestamp: ts },
                    Err(e) => ToolTask::Finished(Err(e)),
                }
            },
            ToolTask::ContextBefore { args, doc, timestamp } => {
                let data = match reply_json(reply, "Elasticsearch") {
                    Ok(d) => d,
                    Err(e) => {
                        return ToolTask::Finished(Err(e));
                    },
                };
                let before = older_in_order(&data);
                ToolTask::ContextAfter { args, doc, timestamp, before }
            },
            ToolTask::ContextAfter { args: _, doc, timestamp: _, before } => {
                let data = match reply_json(reply, "Elasticsearch") {
                    Ok(d) => d,
                    Err(e) => {
                        return ToolTask::Finished(Err(e));
                    },
                };
                let after = extract_hits(&data);
                ToolTask::Finished(Ok(format_context(&before, &doc, &after)))
            },
            ToolTask::Finished(r) => ToolTask::Finished(r),
        }
    }

    /// The outcome of a finished task.
    pub fn outcome(self) -> (r: Result<String, String>)
        requires
            self is Finished,
        ensures
            finished_with(self, result_view(r)),
    {
        match self {
            ToolTask::Finished(r) => r,
            _ => {
                proof {
                    assert(false);
                }
                Err(String::new())
            },
        }
    }
}

} // verus!

verus! {

/// Pagination: the cursor of a page of results is the sort values of its
/// last hit, and handed back as the `cursor` argument of the next search it
/// goes into that search's body as `search_after`.
pub proof fn cursor_continues_search(
    data: JsonV,
    page: SearchResponseV,
    args: JsonV,
    q: SearchQuery,
    raw: bool,
)
    requires
        search_outcome(data) == Ok::<SearchResponseV, Seq<char>>(page),
        page.next_cursor is Some,
        member(args, "cursor"@) == Some(JsonV::Array(page.next_cursor->0)),
        search_args_match(args, q, raw),
    ensures
        member(page.hits.last(), "sort"@) == Some(JsonV::Array(page.next_cursor->0)),
        member(search_body(q), "search_after"@) == Some(JsonV::Array(page.next_cursor->0)),
{
    let c = page.next_cursor->0;
    let cv = q.search_after->0;
    assert(items_view(cv@) == c);
    reveal_strlit("query");
    reveal_strlit("search_after");
    let keys = seq!["query"@, "search_after"@, "size"@, "sort"@];
    assert(keys[0].len() != "search_after"@.len());
    assert(first_key_at(keys, "search_after"@, 1));
    lemma_first_key_unique(keys, "search_after"@, 1);
}

/// Whether a request carries the given credentials: basic credentials for
/// a username and password, an `Authorization: ApiKey` header for a key,
/// and no basic credentials when there are none.
pub open spec fn carries_auth(p: PlanV, auth: AuthV) -> bool {
    match auth {
        AuthV::NoAuth => p.basic_auth is None,
        AuthV::Basic(u, pw) => p.basic_auth == Some((u, pw)),
        AuthV::ApiKey(k) => p.headers.contains(("Authorization"@, "ApiKey "@ + k)),
    }
}

/// Every request a tool call sends uses the credentials of the client it
/// runs with (in HTTP mode, those the session was opened with).
pub proof fn requests_carry_credentials(t: ToolTask, c: KibanaClient)
    requires
        t !is Finished,
        c.backend is Some,
    ensures
        carries_auth(task_plan(t, c), c.auth@),
{
    let p = task_plan(t, c);
    if let AuthV::ApiKey(k) = c.auth@ {
        assert(p.headers[p.headers.len() - 1] == ("Authorization"@, "ApiKey "@ + k));
    }
}

} // verus!

verus! {


/// Hits rendered one after another, each followed by a blank line: hit `i`
/// comes before hit `i + 1`.
pub open spec fn hit_lines(hits: Seq<JsonV>) -> Seq<char> {
    Seq::new(hits.len(), |i: int| hit_text(hits[i]) + "\n"@).flatten()
}

/// The rendering of a list of hits keeps their order.
pub proof fn lemma_hits_text_in_order(hits: Seq<JsonV>)
    ensures
        hits_text(hits) == hit_lines(hits),
    decreases hits.len(),
{
    let lines = Seq::new(hits.len(), |i: int| hit_text(hits[i]) + "\n"@);
    lines.lemma_flatten_and_flatten_alt_are_equivalent();
    if hits.len() > 0 {
        lemma_hits_text_in_order(hits.drop_last());
        let shorter = Seq::new(hits.drop_last().len(), |i: int| hit_text(hits.drop_last()[i]) + "\n"@);
        assert(lines.drop_last() =~= shorter);
        shorter.lemma_flatten_and_flatten_alt_are_equivalent();
        assert(hits_text(hits) =~= hits_text(hits.drop_last()) + lines.last());
    } else {
        assert(lines =~= Seq::<Seq<char>>::empty());
    }
}


/// The last step of `get_log_context`: its text shows the entries before
/// the document, the document, and then the hits of the after-search reply
/// in the order the reply gives them (ascending time), hit `i` before hit
/// `i + 1`, under `--- After ---` when there are any.
pub proof fn context_after_keeps_reply_order(
    args: ContextArgs,
    doc: Json,
    timestamp: Json,
    before: Vec<Json>,
    c: KibanaClient,
    data: Json,
    hits: Seq<JsonV>,
    r: ToolTask,
)
    requires
        advanced(ToolTask::ContextAfter { args, doc, timestamp, before }, c, Reply::Parsed(data), r),
        array_of(at(at(data@, "hits"@), "hits"@)) == Some(hits),
    ensures
        r matches ToolTask::Finished(Ok(text)) && text@ == (if items_view(before@).len() > 0 {
            "--- Before ---\n"@ + hit_lines(items_view(before@)) + "\n"@
        } else {
            Seq::empty()
        }) + ">>> Target document <<<\n"@ + hit_text(doc@) + "\n"@ + (if hits.len() > 0 {
            "\n--- After ---\n"@ + hit_lines(hits)
        } else {
            Seq::empty()
        }),
{
    lemma_hits_text_in_order(items_view(before@));
    lemma_hits_text_in_order(hits);
}

} // verus!
