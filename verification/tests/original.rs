use kibana_mcp_server::format::{format_hit, format_search_response, is_hit_displayable};
use kibana_mcp_server::headers::Headers;
use kibana_mcp_server::http::{check_auth, get_session_id, health, SessionStore};
use kibana_mcp_server::json::{Json, JsonNumber};
use kibana_mcp_server::kibana::{
    build_search_body, extract_hits, parse_search_response, AuthMethod, KibanaClient, SearchQuery,
    SearchResponse,
};
use kibana_mcp_server::mcp::{dispatch_request, response_text, Dispatch, JsonRpcRequest};

fn to_json(v: &serde_json::Value) -> Json {
    match v {
        serde_json::Value::Null => Json::Null,
        serde_json::Value::Bool(b) => Json::Bool(*b),
        serde_json::Value::Number(n) => Json::Number(JsonNumber {
            text: n.to_string(),
            unsigned: n.as_u64(),
        }),
        serde_json::Value::String(s) => Json::Str(s.clone()),
        serde_json::Value::Array(a) => Json::Array(a.iter().map(to_json).collect()),
        serde_json::Value::Object(m) => {
            Json::Object(m.iter().map(|(k, x)| (k.clone(), to_json(x))).collect())
        }
    }
}

fn parse(text: &str) -> Json {
    to_json(&serde_json::from_str::<serde_json::Value>(text).unwrap())
}

fn headers(pairs: &[(&str, &str)]) -> Headers {
    let mut h = Headers::new();
    for (k, v) in pairs {
        h.insert(k.to_string(), Some(v.to_string()));
    }
    h
}

/// Reads a JSON-RPC request the way the server's wire format does: an
/// object with a string `jsonrpc` and `method`, an optional `id` and
/// optional `params`.
fn request_of(text: &str) -> Option<JsonRpcRequest> {
    let v: serde_json::Value = serde_json::from_str(text).ok()?;
    let o = v.as_object()?;
    let jsonrpc = o.get("jsonrpc")?.as_str()?.to_string();
    let method = o.get("method")?.as_str()?.to_string();
    let id = match o.get("id") {
        None | Some(serde_json::Value::Null) => None,
        Some(x) => Some(to_json(x)),
    };
    let params = o.get("params").map(to_json).unwrap_or(Json::Null);
    Some(JsonRpcRequest { jsonrpc, id, method, params })
}

fn parse_and_dispatch(input: &str) -> Option<String> {
    match dispatch_request(request_of(input)) {
        Dispatch::NoReply => None,
        Dispatch::Reply(r) => Some(response_text(&r)),
        Dispatch::RunTool { .. } => panic!("unexpected tool call"),
    }
}

#[test]
fn test_check_auth_valid() {
    let h = headers(&[("authorization", "Bearer secret123")]);
    let result = check_auth(Some("secret123"), &h);
    assert!(result.is_ok());
}

#[test]
fn test_check_auth_invalid() {
    let h = headers(&[("authorization", "Bearer wrong")]);
    let result = check_auth(Some("secret123"), &h);
    assert!(result.is_err());
}

#[test]
fn test_check_auth_missing() {
    let h = Headers::new();
    let result = check_auth(Some("secret123"), &h);
    assert!(result.is_err());
}

#[test]
fn test_no_token_configured() {
    let h = Headers::new();
    let result = check_auth(None, &h);
    assert!(result.is_ok());
}

#[test]
fn test_session_lifecycle() {
    let mut sessions: SessionStore<KibanaClient> = SessionStore::new();
    let session_id = uuid::Uuid::new_v4().to_string();
    let client = KibanaClient::new("http://localhost:9200", None, None, None);
    sessions.insert(session_id.clone(), client);
    assert!(sessions.contains(&session_id));
    assert!(sessions.remove(&session_id).is_some());
    assert!(!sessions.contains(&session_id));
}

#[test]
fn test_missing_session_id() {
    let h = Headers::new();
    assert!(get_session_id(&h).is_none());
}

#[test]
fn test_get_session_id_present() {
    let h = headers(&[("mcp-session-id", "test-id-123")]);
    assert_eq!(get_session_id(&h), Some("test-id-123".to_string()));
}

#[test]
fn test_health_returns_ok() {
    let resp = health();
    assert_eq!(resp.status, 200);
    let json: serde_json::Value = serde_json::from_str(&resp.body).unwrap();
    assert_eq!(json["status"], "ok");
}

#[test]
fn test_parse_search_response_valid() {
    let data = parse(
        r#"{
            "took": 23,
            "hits": {
                "total": { "value": 1234, "relation": "eq" },
                "hits": [
                    {
                        "_index": "app-logs-2024.01.15",
                        "_id": "doc1",
                        "_source": {
                            "@timestamp": "2024-01-15T10:30:00.000Z",
                            "message": "Connection refused",
                            "level": "ERROR"
                        },
                        "sort": [1705312200000, "doc1"]
                    }
                ]
            }
        }"#,
    );
    let result = parse_search_response(&data).unwrap();
    assert_eq!(result.total, 1234);
    assert_eq!(result.took_ms, 23);
    assert_eq!(result.hits.len(), 1);
    assert!(result.next_cursor.is_some());
    let cursor = result.next_cursor.unwrap();
    assert_eq!(cursor.len(), 2);
}

#[test]
fn test_parse_search_response_empty() {
    let data = parse(
        r#"{
            "took": 1,
            "hits": {
                "total": { "value": 0 },
                "hits": []
            }
        }"#,
    );
    let result = parse_search_response(&data).unwrap();
    assert_eq!(result.total, 0);
    assert_eq!(result.hits.len(), 0);
    assert!(result.next_cursor.is_none());
}

#[test]
fn test_extract_hits() {
    let data = parse(
        r#"{
            "hits": {
                "hits": [
                    { "_id": "1", "_source": { "message": "test" } },
                    { "_id": "2", "_source": { "message": "test2" } }
                ]
            }
        }"#,
    );
    let hits = extract_hits(&data);
    assert_eq!(hits.len(), 2);
}

#[test]
fn test_extract_hits_missing() {
    let data = parse("{}");
    let hits = extract_hits(&data);
    assert!(hits.is_empty());
}

#[test]
fn test_auth_method_from_headers_api_key() {
    let h = headers(&[("x-kibana-api-key", "my-api-key")]);
    let auth = AuthMethod::from_headers(&h).unwrap();
    assert!(matches!(auth, AuthMethod::ApiKey(k) if k == "my-api-key"));
}

#[test]
fn test_auth_method_from_headers_basic() {
    let h = headers(&[("x-kibana-username", "user"), ("x-kibana-password", "pass")]);
    let auth = AuthMethod::from_headers(&h).unwrap();
    assert!(
        matches!(auth, AuthMethod::Basic { username, password } if username == "user" && password == "pass")
    );
}

#[test]
fn test_auth_method_from_headers_conflict() {
    let h = headers(&[
        ("x-kibana-api-key", "key"),
        ("x-kibana-username", "user"),
        ("x-kibana-password", "pass"),
    ]);
    assert!(AuthMethod::from_headers(&h).is_err());
}

#[test]
fn test_auth_method_from_headers_missing() {
    let h = Headers::new();
    assert!(AuthMethod::from_headers(&h).is_err());
}

#[test]
fn test_auth_method_from_headers_partial_basic() {
    let h = headers(&[("x-kibana-username", "user")]);
    assert!(AuthMethod::from_headers(&h).is_err());
}

#[test]
fn test_build_search_query_body() {
    let query = SearchQuery {
        query_string: "error".to_string(),
        index: "*".to_string(),
        time_from: Some("now-1h".to_string()),
        time_to: Some("now".to_string()),
        size: 50,
        search_after: None,
        timestamp_field: "@timestamp".to_string(),
    };
    let body = build_search_body(&query);
    let size = body.get("size").and_then(|s| s.as_u64());
    assert_eq!(size, Some(50));
    let must = body
        .get("query")
        .and_then(|q| q.get("bool"))
        .and_then(|b| b.get("must"))
        .and_then(|m| m.as_array());
    assert!(must.is_some());
    assert_eq!(must.unwrap().len(), 2);
}

#[test]
fn test_dispatch_parse_error() {
    let result = parse_and_dispatch("not valid json {{{");
    assert!(result.is_some());
    let resp: serde_json::Value = serde_json::from_str(&result.unwrap()).unwrap();
    assert_eq!(resp["error"]["code"], -32700);
}

#[test]
fn test_dispatch_method_not_found() {
    let input = r#"{"jsonrpc":"2.0","id":1,"method":"unknown/method"}"#;
    let result = parse_and_dispatch(input);
    assert!(result.is_some());
    let resp: serde_json::Value = serde_json::from_str(&result.unwrap()).unwrap();
    assert_eq!(resp["error"]["code"], -32601);
    assert_eq!(resp["id"], 1);
}

#[test]
fn test_dispatch_notification_returns_none() {
    let input = r#"{"jsonrpc":"2.0","method":"notifications/initialized"}"#;
    let result = parse_and_dispatch(input);
    assert!(result.is_none());
}

#[test]
fn test_dispatch_initialize() {
    let input = r#"{"jsonrpc":"2.0","id":1,"method":"initialize","params":{}}"#;
    let result = parse_and_dispatch(input);
    assert!(result.is_some());
    let resp: serde_json::Value = serde_json::from_str(&result.unwrap()).unwrap();
    assert_eq!(resp["id"], 1);
    assert_eq!(resp["result"]["protocolVersion"], "2024-11-05");
    assert_eq!(resp["result"]["serverInfo"]["name"], "kibana-mcp-server");
}

#[test]
fn test_dispatch_tools_list() {
    let input = r#"{"jsonrpc":"2.0","id":2,"method":"tools/list"}"#;
    let result = parse_and_dispatch(input);
    assert!(result.is_some());
    let resp: serde_json::Value = serde_json::from_str(&result.unwrap()).unwrap();
    let tools = resp["result"]["tools"].as_array().unwrap();
    assert_eq!(tools.len(), 3);

    let names: Vec<&str> = tools.iter().map(|t| t["name"].as_str().unwrap()).collect();
    assert!(names.contains(&"search_logs"));
    assert!(names.contains(&"get_indices"));
    assert!(names.contains(&"get_log_context"));
}

fn render_hit(text: &str) -> String {
    let hit = parse(text);
    assert!(is_hit_displayable(&hit));
    format_hit(&hit)
}

#[test]
fn test_format_hit_full() {
    let result = render_hit(
        r#"{
            "_index": "app-logs-2024.01.15",
            "_id": "doc123",
            "_source": {
                "@timestamp": "2024-01-15T10:30:00.000Z",
                "message": "Connection refused to database host",
                "level": "ERROR",
                "host": { "name": "web-server-01" },
                "service": { "name": "auth-service" },
                "trace_id": "abc123"
            }
        }"#,
    );
    assert!(result.contains("[2024-01-15T10:30:00.000Z]"));
    assert!(result.contains("[ERROR]"));
    assert!(result.contains("Connection refused"));
    assert!(result.contains("index: app-logs-2024.01.15"));
    assert!(result.contains("host: web-server-01"));
    assert!(result.contains("service: auth-service"));
    assert!(result.contains("trace_id: abc123"));
}

#[test]
fn test_format_hit_minimal() {
    let result = render_hit(
        r#"{
            "_index": "logs",
            "_id": "1",
            "_source": {
                "message": "simple log"
            }
        }"#,
    );
    assert!(result.contains("simple log"));
    assert!(result.contains("index: logs"));
}

#[test]
fn test_format_hit_ecs_nested_level() {
    let result = render_hit(
        r#"{
            "_index": "logs",
            "_id": "1",
            "_source": {
                "@timestamp": "2024-01-15T10:00:00Z",
                "message": "test",
                "log": { "level": "WARN" }
            }
        }"#,
    );
    assert!(result.contains("[WARN]"));
}

#[test]
fn test_format_search_response() {
    let response = SearchResponse {
        hits: vec![parse(
            r#"{
                "_index": "logs",
                "_id": "1",
                "_source": {
                    "@timestamp": "2024-01-15T10:30:00Z",
                    "message": "Error occurred"
                },
                "sort": [1705312200000, "1"]
            }"#,
        )],
        total: 100,
        took_ms: 5,
        next_cursor: Some(vec![parse("1705312200000"), parse(r#""1""#)]),
    };
    let result = format_search_response(&response);
    assert!(result.contains("Found 100 results (5ms). Showing 1:"));
    assert!(result.contains("Error occurred"));
    assert!(result.contains("Use cursor"));
}

#[test]
fn test_format_search_response_empty() {
    let response = SearchResponse { hits: vec![], total: 0, took_ms: 1, next_cursor: None };
    let result = format_search_response(&response);
    assert!(result.contains("Found 0 results"));
    assert!(!result.contains("Use cursor"));
}

#[test]
fn test_format_hit_many_fields() {
    let result = render_hit(
        r#"{
            "_index": "logs",
            "_id": "1",
            "_source": {
                "@timestamp": "2024-01-15T10:00:00Z",
                "message": "test",
                "field1": "v1",
                "field2": "v2",
                "field3": "v3",
                "field4": "v4",
                "field5": "v5",
                "field6": "v6",
                "field7": "v7"
            }
        }"#,
    );
    assert!(result.contains("... and"));
    assert!(result.contains("more fields"));
}
