use kibana_mcp_server::cli::{help_text, parse_args, version_text, Command};
use kibana_mcp_server::config::{parse_port, HttpConfig, KibanaConfig};
use kibana_mcp_server::format::{format_context, format_hit, format_indices};
use kibana_mcp_server::headers::Headers;
use kibana_mcp_server::http::{
    check_auth, delete_session, exchange, file_session, health, open_session, route_post,
    ContentType, PostRoute, SessionStore,
};
use kibana_mcp_server::json::{Json, JsonNumber};
use kibana_mcp_server::kibana::{
    build_search_body, parse_indices, parse_search_response, reply_json, trim_trailing_slashes,
    AuthMethod, BackendType, HttpMethod, IndexInfo, KibanaClient, Reply,
};
use kibana_mcp_server::mcp::{
    dispatch_request, response_text, stdio_request, tool_response, Dispatch, JsonRpcRequest,
};
use kibana_mcp_server::render::{to_compact, to_pretty};
use kibana_mcp_server::tools::{parse_context_args, parse_search_args, ToolTask};

fn to_json(v: &serde_json::Value) -> Json {
    match v {
        serde_json::Value::Null => Json::Null,
        serde_json::Value::Bool(b) => Json::Bool(*b),
        serde_json::Value::Number(n) => Json::Number(JsonNumber {
            text: n.to_string(),
            unsigned: n.as_u64(),
        }),
        serde_json::Value::String(s) => Json::Str(s.clone()),
        serde_json::Value::Array(a) => Json::Array(a.iter().map(to_json).collect()),
        serde_json::Value::Object(m) => {
            Json::Object(m.iter().map(|(k, x)| (k.clone(), to_json(x))).collect())
        }
    }
}

fn parse(text: &str) -> Json {
    to_json(&serde_json::from_str::<serde_json::Value>(text).unwrap())
}

fn headers(pairs: &[(&str, &str)]) -> Headers {
    let mut h = Headers::new();
    for (k, v) in pairs {
        h.insert(k.to_string(), Some(v.to_string()));
    }
    h
}

fn request(id: &str, method: &str, params: &str) -> JsonRpcRequest {
    JsonRpcRequest {
        jsonrpc: "2.0".to_string(),
        id: Some(parse(id)),
        method: method.to_string(),
        params: parse(params),
    }
}

fn answer_of(d: Dispatch) -> serde_json::Value {
    match d {
        Dispatch::Reply(r) => serde_json::from_str(&response_text(&r)).unwrap(),
        _ => panic!("expected an immediate answer"),
    }
}

fn env(pairs: &[(&str, &str)]) -> Vec<(String, String)> {
    pairs.iter().map(|(k, v)| (k.to_string(), v.to_string())).collect()
}

fn ready_client(auth: AuthMethod, backend: BackendType) -> KibanaClient {
    let mut c = KibanaClient::with_shared_client("http://es:9200/", auth);
    c.detect_backend(backend == BackendType::Kibana);
    c
}

// ---- command line ----

#[test]
fn command_line_modes() {
    let args = |v: &[&str]| v.iter().map(|s| s.to_string()).collect::<Vec<String>>();
    assert!(matches!(parse_args(&args(&[])), Ok(Command::Stdio)));
    assert!(matches!(parse_args(&args(&["--stdio"])), Ok(Command::Stdio)));
    assert!(matches!(parse_args(&args(&["--http"])), Ok(Command::Http)));
    assert!(matches!(parse_args(&args(&["--version"])), Ok(Command::Version)));
    assert!(matches!(parse_args(&args(&["-V"])), Ok(Command::Version)));
    assert!(matches!(parse_args(&args(&["--help"])), Ok(Command::Help)));
    assert!(matches!(parse_args(&args(&["-h"])), Ok(Command::Help)));
    assert_eq!(parse_args(&args(&["--serve"])).err(), Some("Unknown argument: --serve".to_string()));
    assert_eq!(
        parse_args(&args(&["--http", "--stdio"])).err(),
        Some("Expected at most one argument".to_string())
    );
}

#[test]
fn help_and_version_texts() {
    assert_eq!(version_text(), "kibana-mcp-server 0.1.2");
    let help = help_text();
    assert!(help.starts_with("kibana-mcp-server 0.1.2\nMCP server for accessing logs in Kibana/Elasticsearch\n\nUsage: kibana-mcp-server [COMMAND]\n"));
    assert!(help.contains("  --http       Run in HTTP mode\n"));
    assert!(help.contains("  KIBANA_INSECURE   Skip TLS verification (\"true\" or \"1\")\n"));
    assert!(help.ends_with("  MCP_AUTH_TOKEN    Bearer token for HTTP authentication\n"));
    assert_eq!(help.lines().count(), 22);
}

// ---- configuration ----

#[test]
fn kibana_config_from_environment() {
    let c = KibanaConfig::from_env(&env(&[
        ("KIBANA_URL", "http://localhost:9200"),
        ("KIBANA_USERNAME", "elastic"),
        ("KIBANA_PASSWORD", "changeme"),
        ("KIBANA_INSECURE", "1"),
    ]))
    .unwrap();
    assert_eq!(c.url, "http://localhost:9200");
    assert_eq!(c.username.as_deref(), Some("elastic"));
    assert_eq!(c.password.as_deref(), Some("changeme"));
    assert_eq!(c.api_key, None);
    assert!(c.insecure);

    let c = KibanaConfig::from_env(&env(&[("KIBANA_URL", "u"), ("KIBANA_INSECURE", "yes")])).unwrap();
    assert!(!c.insecure);
    let c = KibanaConfig::from_env(&env(&[("KIBANA_URL", "u"), ("KIBANA_API_KEY", "k"), ("KIBANA_USERNAME", "")])).unwrap();
    assert_eq!(c.api_key.as_deref(), Some("k"));
    assert_eq!(c.username, None);
}

#[test]
fn kibana_config_errors() {
    assert_eq!(
        KibanaConfig::from_env(&env(&[("KIBANA_URL", "")])).err(),
        Some("KIBANA_URL environment variable is required".to_string())
    );
    assert_eq!(
        KibanaConfig::from_env(&env(&[("KIBANA_URL", "u"), ("KIBANA_PASSWORD", "p")])).err(),
        Some("Both KIBANA_USERNAME and KIBANA_PASSWORD must be provided together".to_string())
    );
    assert_eq!(
        KibanaConfig::from_env(&env(&[
            ("KIBANA_URL", "u"),
            ("KIBANA_USERNAME", "a"),
            ("KIBANA_PASSWORD", "p"),
            ("KIBANA_API_KEY", "k"),
        ]))
        .err(),
        Some("Cannot use both KIBANA_API_KEY and KIBANA_USERNAME/KIBANA_PASSWORD".to_string())
    );
}

#[test]
fn http_config_from_environment() {
    let c = HttpConfig::from_env(&env(&[])).unwrap();
    assert_eq!(c.host, "127.0.0.1");
    assert_eq!(c.port, 8080);
    assert_eq!(c.auth_token, None);
    let c = HttpConfig::from_env(&env(&[
        ("MCP_HOST", "0.0.0.0"),
        ("MCP_PORT", "9000"),
        ("MCP_AUTH_TOKEN", "secret123"),
    ]))
    .unwrap();
    assert_eq!(c.host, "0.0.0.0");
    assert_eq!(c.port, 9000);
    assert_eq!(c.auth_token.as_deref(), Some("secret123"));
    assert_eq!(
        HttpConfig::from_env(&env(&[("MCP_PORT", "80a")])).err(),
        Some("Invalid MCP_PORT value: 80a".to_string())
    );
}

#[test]
fn ports_parse_as_u16() {
    for text in ["0", "8080", "65535", "+80", "007", "", "+", "-1", "65536", "99999999999", "8o", " 80"] {
        assert_eq!(parse_port(text), text.parse::<u16>().ok(), "{text}");
    }
    for n in [0u16, 1, 9, 10, 443, 8080, 65535] {
        assert_eq!(parse_port(&n.to_string()), Some(n));
    }
}

// ---- HTTP transport ----

#[test]
fn bearer_token_must_match_exactly() {
    let token = Some("secret123");
    assert!(check_auth(token, &headers(&[("authorization", "bearer secret123")])).is_err());
    assert!(check_auth(token, &headers(&[("authorization", "Bearer secret123 ")])).is_err());
    assert!(check_auth(token, &headers(&[("authorization", "secret123")])).is_err());
    assert_eq!(check_auth(token, &headers(&[("authorization", "Bearer x")])), Err(401));
    assert!(check_auth(None, &headers(&[("authorization", "Bearer anything")])).is_ok());
}

#[test]
fn session_round_trip() {
    let token = Some("t");
    let mut store: SessionStore<u32> = SessionStore::new();
    let init_headers = headers(&[
        ("authorization", "Bearer t"),
        ("content-type", "application/json"),
        ("x-kibana-api-key", "k"),
    ]);
    let init = Some(parse(r#"{"jsonrpc":"2.0","id":1,"method":"initialize"}"#));
    match route_post(token, &init_headers, &init, &store) {
        PostRoute::Initialize(AuthMethod::ApiKey(k)) => assert_eq!(k, "k"),
        _ => panic!("expected an initialize"),
    }
    let reply = open_session(&mut store, 7, Some("{}".to_string()));
    assert_eq!(reply.status, 200);
    assert_eq!(reply.content, ContentType::Json);
    let id = reply.session_id.clone().unwrap();
    assert_eq!(id.len(), 36);
    assert_eq!(&id[14..15], "4");
    assert!(matches!(&id[19..20], "8" | "9" | "a" | "b"));
    assert_eq!(uuid::Uuid::parse_str(&id).unwrap().get_version_num(), 4);
    assert_eq!(store.get(&id), Some(&7));

    let later = headers(&[
        ("authorization", "Bearer t"),
        ("content-type", "application/json; charset=utf-8"),
        ("mcp-session-id", &id),
    ]);
    let call = Some(parse(r#"{"jsonrpc":"2.0","id":2,"method":"tools/list"}"#));
    assert!(matches!(route_post(token, &later, &call, &store), PostRoute::Session(s) if s == id));

    let del = delete_session(token, &later, &mut store);
    assert_eq!((del.status, del.body.as_str()), (200, "Session terminated"));
    match route_post(token, &later, &call, &store) {
        PostRoute::Reject(r) => assert_eq!((r.status, r.body.as_str()), (400, "Invalid session ID")),
        _ => panic!("expected a refusal"),
    }
    let again = delete_session(token, &later, &mut store);
    assert_eq!((again.status, again.body.as_str()), (404, "Session not found"));
}

#[test]
fn unanswered_initialize_opens_no_session() {
    let mut store: SessionStore<u32> = SessionStore::new();
    let reply = open_session(&mut store, 1, None);
    assert_eq!((reply.status, reply.body.as_str()), (202, ""));
    assert_eq!(reply.session_id, None);
    let r = exchange(None);
    assert_eq!((r.status, r.content), (202, ContentType::PlainText));
    let r = exchange(Some("{\"a\":1}".to_string()));
    assert_eq!((r.status, r.content, r.body.as_str()), (200, ContentType::Json, "{\"a\":1}"));
}

#[test]
fn post_refusals() {
    let store: SessionStore<u32> = SessionStore::new();
    let body = Some(parse(r#"{"jsonrpc":"2.0","id":2,"method":"tools/list"}"#));
    let expect = |h: Headers, b: &Option<Json>, status: u16, text: &str| match route_post(Some("t"), &h, b, &store) {
        PostRoute::Reject(r) => assert_eq!((r.status, r.body.as_str()), (status, text)),
        _ => panic!("expected a refusal"),
    };
    expect(headers(&[("content-type", "application/json")]), &body, 401, "");
    expect(headers(&[("authorization", "Bearer t"), ("content-type", "text/plain")]), &body, 415, "Content-Type must be application/json");
    expect(headers(&[("authorization", "Bearer t"), ("content-type", "application/json")]), &body, 400, "Missing Mcp-Session-Id header");
    expect(headers(&[("authorization", "Bearer t"), ("content-type", "application/json"), ("mcp-session-id", "nope")]), &body, 400, "Invalid session ID");
    let init = Some(parse(r#"{"method":"initialize"}"#));
    expect(
        headers(&[("authorization", "Bearer t"), ("content-type", "application/json")]),
        &init,
        400,
        "Missing Kibana credentials: provide X-Kibana-API-Key or X-Kibana-Username + X-Kibana-Password headers",
    );
    expect(
        headers(&[("authorization", "Bearer t"), ("content-type", "application/json"), ("x-kibana-username", "u")]),
        &init,
        400,
        "Both X-Kibana-Username and X-Kibana-Password must be provided together",
    );
    expect(
        headers(&[("authorization", "Bearer t"), ("content-type", "application/json"), ("x-kibana-api-key", "k"), ("x-kibana-password", "p")]),
        &init,
        400,
        "Cannot use both X-Kibana-API-Key and X-Kibana-Username/X-Kibana-Password",
    );
    // A body that is not JSON is no initialize, so it needs a session.
    expect(headers(&[("authorization", "Bearer t"), ("content-type", "application/json")]), &None, 400, "Missing Mcp-Session-Id header");
}

#[test]
fn unauthorized_delete_keeps_sessions() {
    let mut store: SessionStore<u32> = SessionStore::new();
    store.insert("s1".to_string(), 1);
    let r = delete_session(Some("t"), &headers(&[("mcp-session-id", "s1")]), &mut store);
    assert_eq!((r.status, r.content, r.body.as_str()), (401, ContentType::Unset, ""));
    assert!(store.contains("s1"));
    let r = delete_session(Some("t"), &headers(&[("authorization", "Bearer t")]), &mut store);
    assert_eq!((r.status, r.body.as_str()), (400, "Missing Mcp-Session-Id header"));
}

#[test]
fn session_store_replaces_and_removes() {
    let mut store: SessionStore<&str> = SessionStore::new();
    store.insert("a".to_string(), "first");
    store.insert("b".to_string(), "second");
    store.insert("a".to_string(), "third");
    assert_eq!(store.get("a"), Some(&"third"));
    assert_eq!(store.remove("a"), Some("third"));
    assert!(!store.contains("a"));
    assert_eq!(store.get("b"), Some(&"second"));
    assert_eq!(store.remove("zzz"), None);
}

#[test]
fn health_body_is_exact() {
    let r = health();
    assert_eq!((r.status, r.content, r.body.as_str()), (200, ContentType::Json, r#"{"status":"ok"}"#));
}

// ---- JSON-RPC ----

#[test]
fn initialize_answer_matches_the_readme() {
    let d = dispatch_request(Some(request("1", "initialize", "{}")));
    match d {
        Dispatch::Reply(r) => {
            let text = response_text(&r);
            let got: serde_json::Value = serde_json::from_str(&text).unwrap();
            let readme: serde_json::Value = serde_json::from_str(
                r#"{"jsonrpc":"2.0","id":1,"result":{"protocolVersion":"2024-11-05","capabilities":{"tools":{}},"serverInfo":{"name":"kibana-mcp-server","version":"0.1.2"}}}"#,
            )
            .unwrap();
            assert_eq!(got, readme);
            assert_eq!(
                text,
                r#"{"jsonrpc":"2.0","id":1,"result":{"capabilities":{"tools":{}},"protocolVersion":"2024-11-05","serverInfo":{"name":"kibana-mcp-server","version":"0.1.2"}}}"#
            );
        }
        _ => panic!("expected an answer"),
    }
}

#[test]
fn answers_carry_the_request_id() {
    let v = answer_of(dispatch_request(Some(request("\"abc\"", "resources/list", "{}"))));
    assert_eq!(v["id"], "abc");
    assert_eq!(v["error"]["message"], "Method not found");
    let v = answer_of(dispatch_request(Some(request("7", "tools/call", r#"{"name":"nope"}"#))));
    assert_eq!(v["id"], 7);
    assert_eq!(v["result"]["isError"], true);
    assert_eq!(v["result"]["content"][0]["text"], "Unknown tool: nope");
    let v = answer_of(dispatch_request(Some(request("8", "tools/call", r#"{"name":"search_logs","arguments":{}}"#))));
    assert_eq!(v["result"]["content"][0]["text"], "Missing required parameter: 'query'");
    let v = answer_of(dispatch_request(Some(request("9", "tools/call", r#"{"name":"get_log_context","arguments":{"index":"i"}}"#))));
    assert_eq!(v["result"]["content"][0]["text"], "Missing required parameter: 'doc_id'");
    let v = answer_of(dispatch_request(None));
    let expected: serde_json::Value =
        serde_json::from_str(r#"{"jsonrpc":"2.0","error":{"code":-32700,"message":"Parse error"}}"#).unwrap();
    assert_eq!(v, expected);
}

#[test]
fn tool_calls_are_started_with_their_id() {
    match dispatch_request(Some(request("3", "tools/call", r#"{"name":"get_indices","arguments":{}}"#))) {
        Dispatch::RunTool { id, task: ToolTask::Indices } => assert_eq!(to_compact(&id.unwrap()), "3"),
        _ => panic!("expected a tool call"),
    }
    let r = tool_response(Some(parse("4")), Ok("done".to_string()));
    assert_eq!(response_text(&r), r#"{"jsonrpc":"2.0","id":4,"result":{"content":[{"text":"done","type":"text"}]}}"#);
    let r = tool_response(Some(parse("5")), Err("bad".to_string()));
    assert_eq!(response_text(&r), r#"{"jsonrpc":"2.0","id":5,"result":{"content":[{"text":"bad","type":"text"}],"isError":true}}"#);
}

#[test]
fn stdio_lines() {
    assert_eq!(stdio_request("  \r\n"), None);
    assert_eq!(stdio_request("\t{\"a\":1}  \n"), Some("{\"a\":1}".to_string()));
}

// ---- JSON text ----

#[test]
fn strings_are_escaped_like_serde_json() {
    for s in ["plain", "quote \" and \\ slash", "line\nbreak\ttab\r", "\u{1}\u{1f}\u{7f}", "é ü 漢 🚀", "/"] {
        let j = Json::Str(s.to_string());
        assert_eq!(to_compact(&j), serde_json::to_string(s).unwrap());
    }
}

#[test]
fn documents_render_like_serde_json() {
    let text = r#"{"a":[1,-2.5,"x",null,true,{"b":{}}],"c":[],"d":{"e":"f\"g"}}"#;
    let v: serde_json::Value = serde_json::from_str(text).unwrap();
    let j = to_json(&v);
    assert_eq!(to_compact(&j), serde_json::to_string(&v).unwrap());
    assert_eq!(to_pretty(&j), serde_json::to_string_pretty(&v).unwrap());
}

// ---- Kibana client ----

#[test]
fn backend_detection_is_kept() {
    let mut c = KibanaClient::new("http://k:5601///", None, None, None);
    assert_eq!(c.base_url, "http://k:5601");
    assert_eq!(c.detect_backend(true), BackendType::Kibana);
    assert_eq!(c.detect_backend(false), BackendType::Kibana);
    let mut d = KibanaClient::new("http://e:9200", Some("u"), None, None);
    assert!(matches!(d.auth, AuthMethod::NoAuth));
    assert_eq!(d.detect_backend(false), BackendType::Elasticsearch);
    assert_eq!(d.detect_backend(true), BackendType::Elasticsearch);
    assert_eq!(trim_trailing_slashes("a/b//"), "a/b");
}

#[test]
fn requests_use_the_client_credentials() {
    let key = ready_client(AuthMethod::ApiKey("k1".to_string()), BackendType::Elasticsearch);
    let p = ToolTask::Indices.request(&key);
    assert_eq!(p.url, "http://es:9200/_cat/indices?format=json&h=index,docs.count,store.size");
    assert!(matches!(p.method, HttpMethod::Get));
    assert_eq!(p.headers, vec![("Authorization".to_string(), "ApiKey k1".to_string())]);
    assert_eq!(p.basic_auth, None);

    let basic = ready_client(
        AuthMethod::Basic { username: "u".to_string(), password: "p".to_string() },
        BackendType::Kibana,
    );
    let p = ToolTask::Indices.request(&basic);
    assert_eq!(p.url, "http://es:9200/api/saved_objects/_find?type=index-pattern&per_page=1000");
    assert_eq!(p.headers, vec![("kbn-xsrf".to_string(), "true".to_string())]);
    assert_eq!(p.basic_auth, Some(("u".to_string(), "p".to_string())));
    assert_eq!(basic.status_probe().url, "http://es:9200/api/status");
}

#[test]
fn searches_go_through_the_kibana_proxy() {
    let c = ready_client(AuthMethod::NoAuth, BackendType::Kibana);
    let args = parse(r#"{"query":"error","index":"app-*","size":20000}"#);
    let (q, raw) = parse_search_args(&args).unwrap();
    assert!(!raw);
    assert_eq!(q.size, 10000);
    let p = (ToolTask::Search { query: q, raw }).request(&c);
    assert!(matches!(p.method, HttpMethod::Post));
    assert_eq!(p.url, "http://es:9200/api/console/proxy");
    assert_eq!(
        p.query,
        vec![("path".to_string(), "/app-*/_search".to_string()), ("method".to_string(), "POST".to_string())]
    );
    assert_eq!(
        p.body.unwrap(),
        r#"{"query":{"bool":{"must":[{"query_string":{"query":"error"}},{"range":{"@timestamp":{"gte":"now-1h","lte":"now"}}}]}},"size":10000,"sort":[{"@timestamp":{"order":"desc"}},{"_doc":{"order":"asc"}}]}"#
    );
}

#[test]
fn cursor_of_a_page_continues_the_next_search() {
    let data = parse(r#"{"took":3,"hits":{"total":9,"hits":[{"_id":"a","sort":[1,"a"]},{"_id":"b","sort":[2,"b"]}]}}"#);
    let page = parse_search_response(&data).unwrap();
    assert_eq!(page.total, 9);
    let cursor = Json::Array(page.next_cursor.unwrap());
    assert_eq!(to_compact(&cursor), r#"[2,"b"]"#);
    let args = Json::Object(vec![
        ("query".to_string(), Json::Str("x".to_string())),
        ("cursor".to_string(), cursor),
    ]);
    let (q, _) = parse_search_args(&args).unwrap();
    let body = build_search_body(&q);
    assert_eq!(to_compact(body.get("search_after").unwrap()), r#"[2,"b"]"#);
}

#[test]
fn replies_become_documents_or_messages() {
    assert_eq!(
        reply_json(Reply::Rejected { status: "404 Not Found".to_string(), body: "gone".to_string() }, "Elasticsearch").err(),
        Some("Elasticsearch returned 404 Not Found: gone".to_string())
    );
    assert_eq!(reply_json(Reply::Failed("timeout".to_string()), "Kibana").err(), Some("HTTP error: timeout".to_string()));
    assert_eq!(reply_json(Reply::Unparsable("eof".to_string()), "Kibana").err(), Some("JSON parse error: eof".to_string()));
    assert!(reply_json(Reply::Parsed(Json::Null), "Kibana").is_ok());
    assert_eq!(parse_search_response(&parse("{}")).err(), Some("Invalid response: missing hits.hits".to_string()));
}

#[test]
fn index_listings() {
    let es = parse(r#"[{"index":".kibana","docs.count":"1"},{"index":"logs","docs.count":"10","store.size":"1kb"},{"index":"bare"},{"name":"x"}]"#);
    let list = parse_indices(BackendType::Elasticsearch, &es).unwrap();
    assert_eq!(list.len(), 2);
    assert_eq!(format_indices(&list), "Found 2 indices:\n\n- logs (10 docs, 1kb)\n- bare\n");
    let kb = parse(r#"{"saved_objects":[{"attributes":{"title":"logs-*"}},{"attributes":{}}]}"#);
    let list = parse_indices(BackendType::Kibana, &kb).unwrap();
    assert_eq!(list.len(), 1);
    assert_eq!(list[0].name, "logs-*");
    assert_eq!(parse_indices(BackendType::Kibana, &parse("[]")).err(), Some("Invalid Kibana response: missing saved_objects".to_string()));
    assert_eq!(parse_indices(BackendType::Elasticsearch, &parse("{}")).err(), Some("Invalid ES response: expected array".to_string()));
    let none: Vec<IndexInfo> = vec![];
    assert_eq!(format_indices(&none), "No indices found.");
}

// ---- formatting ----

#[test]
fn hit_layout_is_exact() {
    let hit = parse(r#"{"_index":"logs","_id":"1","_source":{"message":"m","level":"INFO","count":3,"tag":null}}"#);
    assert_eq!(format_hit(&hit), " [INFO] m\n  index: logs\n  _id: 1\n  count: 3\n  tag: null\n");
    let bare = parse(r#"{"message":"no source"}"#);
    assert_eq!(format_hit(&bare), " no source\n");
}

#[test]
fn long_values_are_cut_at_two_hundred_bytes() {
    let long = "x".repeat(250);
    let hit = parse(&format!(r#"{{"_source":{{"note":"{long}"}}}}"#));
    let expected = format!("\n  note: {}...\n", "x".repeat(200));
    assert_eq!(format_hit(&hit), expected);
}

#[test]
fn many_fields_are_summarised() {
    let hit = parse(r#"{"_source":{"a":1,"b":2,"c":3,"d":4,"e":5,"f":6,"g":7,"h":8}}"#);
    let text = format_hit(&hit);
    assert!(text.contains("  e: 5\n"));
    assert!(!text.contains("  f: 6\n"));
    assert!(text.ends_with("  ... and 3 more fields\n"));
}

#[test]
fn context_layout() {
    let before = vec![parse(r#"{"_source":{"message":"b"}}"#)];
    let target = parse(r#"{"_source":{"message":"t"}}"#);
    let after: Vec<Json> = vec![];
    assert_eq!(
        format_context(&before, &target, &after),
        "--- Before ---\n b\n\n\n>>> Target document <<<\n t\n\n"
    );
}

#[test]
fn log_context_runs_in_three_steps() {
    let client = ready_client(AuthMethod::NoAuth, BackendType::Elasticsearch);
    let args = parse_context_args(&parse(r#"{"index":"logs","doc_id":"d1","size":2}"#)).unwrap();
    let task = ToolTask::ContextDocument { args };
    assert_eq!(task.request(&client).url, "http://es:9200/logs/_doc/d1");
    let task = task.advance(&client, Reply::Parsed(parse(r#"{"_id":"d1","_source":{"@timestamp":"T","message":"target"}}"#)));
    let p = task.request(&client);
    assert_eq!(p.url, "http://es:9200/logs/_search");
    assert_eq!(
        p.body.unwrap(),
        r#"{"query":{"range":{"@timestamp":{"lt":"T"}}},"size":2,"sort":[{"@timestamp":{"order":"desc"}}]}"#
    );
    let task = task.advance(&client, Reply::Parsed(parse(r#"{"hits":{"hits":[{"_source":{"message":"two"}},{"_source":{"message":"one"}}]}}"#)));
    let p = task.request(&client);
    assert_eq!(
        p.body.unwrap(),
        r#"{"query":{"range":{"@timestamp":{"gt":"T"}}},"size":2,"sort":[{"@timestamp":{"order":"asc"}}]}"#
    );
    let task = task.advance(&client, Reply::Parsed(parse(r#"{"hits":{"hits":[]}}"#)));
    assert!(task.is_finished());
    let text = task.outcome().unwrap();
    assert!(text.starts_with("--- Before ---\n one\n\n two\n\n\n>>> Target document <<<\n[T] target\n  _id: d1\n"));
}

#[test]
fn log_context_reports_a_missing_timestamp() {
    let client = ready_client(AuthMethod::NoAuth, BackendType::Elasticsearch);
    let args = parse_context_args(&parse(r#"{"index":"logs","doc_id":"d1","timestamp_field":"ts"}"#)).unwrap();
    let task = (ToolTask::ContextDocument { args }).advance(&client, Reply::Parsed(parse(r#"{"_source":{}}"#)));
    assert_eq!(task.outcome().err(), Some("Document has no 'ts' field".to_string()));
    let args = parse_context_args(&parse(r#"{"index":"logs","doc_id":"d1"}"#)).unwrap();
    let task = (ToolTask::ContextDocument { args }).advance(&client, Reply::Parsed(parse(r#"{"found":false}"#)));
    assert_eq!(task.outcome().err(), Some("Document has no _source field".to_string()));
}

#[test]
fn raw_search_answer() {
    let client = ready_client(AuthMethod::NoAuth, BackendType::Elasticsearch);
    let (q, raw) = parse_search_args(&parse(r#"{"query":"x","raw":true}"#)).unwrap();
    assert!(raw);
    let task = (ToolTask::Search { query: q, raw }).advance(
        &client,
        Reply::Parsed(parse(r#"{"took":2,"hits":{"total":{"value":1},"hits":[{"_id":"a"}]}}"#)),
    );
    let text = task.outcome().unwrap();
    let v: serde_json::Value = serde_json::from_str(&text).unwrap();
    let expected: serde_json::Value =
        serde_json::from_str(r#"{"hits":[{"_id":"a"}],"next_cursor":null,"took_ms":2,"total":1}"#).unwrap();
    assert_eq!(v, expected);
    assert_eq!(text, serde_json::to_string_pretty(&v).unwrap());
}

#[test]
fn tools_list_declares_the_three_tools() {
    let v = answer_of(dispatch_request(Some(request("2", "tools/list", "null"))));
    let expected: serde_json::Value = serde_json::from_str(
        r#"{
            "tools": [
                {
                    "name": "search_logs",
                    "description": "Search logs in Elasticsearch/Kibana using query string syntax. Returns matching log entries with timestamps, levels, and messages.",
                    "inputSchema": {
                        "type": "object",
                        "required": ["query"],
                        "properties": {
                            "query": {"type": "string", "description": "Elasticsearch query string (e.g. 'error AND service:auth')"},
                            "index": {"type": "string", "description": "Index pattern to search (default: '*')", "default": "*"},
                            "time_from": {"type": "string", "description": "Start of time range (default: 'now-1h'). Supports ES date math.", "default": "now-1h"},
                            "time_to": {"type": "string", "description": "End of time range (default: 'now'). Supports ES date math.", "default": "now"},
                            "size": {"type": "integer", "description": "Number of results to return (default: 50, max: 10000)", "default": 50},
                            "timestamp_field": {"type": "string", "description": "Name of the timestamp field (default: '@timestamp')", "default": "@timestamp"},
                            "cursor": {"type": "array", "description": "Pagination cursor from previous search response"},
                            "raw": {"type": "boolean", "description": "Return raw JSON instead of formatted text (default: false)", "default": false}
                        }
                    }
                },
                {
                    "name": "get_indices",
                    "description": "List available indices (Elasticsearch) or index patterns (Kibana).",
                    "inputSchema": {"type": "object", "properties": {}}
                },
                {
                    "name": "get_log_context",
                    "description": "Get surrounding log entries for a specific document. Shows entries before and after the target document in chronological order.",
                    "inputSchema": {
                        "type": "object",
                        "required": ["index", "doc_id"],
                        "properties": {
                            "index": {"type": "string", "description": "Index name containing the document"},
                            "doc_id": {"type": "string", "description": "Document ID to get context for"},
                            "size": {"type": "integer", "description": "Number of entries before and after (default: 5)", "default": 5},
                            "timestamp_field": {"type": "string", "description": "Name of the timestamp field (default: '@timestamp')", "default": "@timestamp"}
                        }
                    }
                }
            ]
        }"#,
    )
    .unwrap();
    assert_eq!(v["result"], expected);
    assert_eq!(v["id"], 2);
    // Keys come out sorted, as `serde_json` writes a map.
    let text = format!(r#"{{"jsonrpc":"2.0","id":2,"result":{}}}"#, serde_json::to_string(&expected).unwrap());
    let d = dispatch_request(Some(request("2", "tools/list", "null")));
    match d {
        Dispatch::Reply(r) => assert_eq!(response_text(&r), text),
        _ => panic!("expected an answer"),
    }
}

#[test]
fn answers_fit_on_one_line() {
    let r = tool_response(Some(parse("1")), Ok("Found 1 results (1ms). Showing 1:\n\n[T] x\n".to_string()));
    let text = response_text(&r);
    assert!(!text.contains('\n'));
    assert!(text.contains("\\n\\n[T] x\\n"));
}

#[test]
fn sessions_are_filed_under_the_given_id() {
    let mut store: SessionStore<u32> = SessionStore::new();
    let r = file_session(&mut store, "fixed-id".to_string(), 3, Some("{}".to_string()));
    assert_eq!((r.status, r.content, r.body.as_str()), (200, ContentType::Json, "{}"));
    assert_eq!(r.session_id.as_deref(), Some("fixed-id"));
    assert_eq!(store.get("fixed-id"), Some(&3));
    let r = file_session(&mut store, "other".to_string(), 4, None);
    assert_eq!((r.status, r.body.as_str(), r.session_id), (202, "", None));
    assert!(!store.contains("other"));
}

#[test]
fn extra_fields_skip_headline_keys_and_keep_order() {
    let hit = parse(
        r#"{"_source":{"@timestamp":"T","host":{"name":"h"},"level":"E","log":{"x":1},"message":"m","service":"s","z":1,"y":"two","x":[1]}}"#,
    );
    // Keys are read in sorted order: x, y, z; headline keys are not listed.
    // A `service` that is not an object gives no service line.
    assert_eq!(format_hit(&hit), "[T] [E] m\n  host: h\n  x: [1]\n  y: two\n  z: 1\n");
    let six = parse(r#"{"_source":{"a":1,"b":2,"c":3,"d":4,"e":5,"f":6}}"#);
    assert!(format_hit(&six).ends_with("  e: 5\n  ... and 1 more fields\n"));
    let five = parse(r#"{"_source":{"a":1,"b":2,"c":3,"d":4,"e":5}}"#);
    assert!(format_hit(&five).ends_with("  e: 5\n"));
    assert!(!format_hit(&five).contains("more fields"));
}
