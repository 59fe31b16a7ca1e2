//! The Kibana / Elasticsearch client: credentials, backend detection,
//! the requests it sends and how it reads the replies.
use vstd::prelude::*;

use crate::headers::Headers;
use crate::json::{
    arr1, arr2, array_of, at, duplicate_items, first_key_at, items_view, lemma_first_key_unique,
    lemma_items_view, member, obj1, obj2, obj3, obj4, str_of, u64_of, Json, JsonV,
};
use crate::render::{compact, to_compact};
use crate::text::{chars_of, decimal, owned, string_from_chars};

verus! {

/// The kind of server behind the base URL.
#[derive(Debug, Clone, Copy, PartialEq, Eq, Structural)]
pub enum BackendType {
    Kibana,
    Elasticsearch,
}

/// How requests to the backend authenticate.
#[derive(Clone)]
pub enum AuthMethod {
    NoAuth,
    Basic { username: String, password: String },
    ApiKey(String),
}

/// The value of an authentication method.
pub enum AuthV {
    NoAuth,
    Basic(Seq<char>, Seq<char>),
    ApiKey(Seq<char>),
}

impl View for AuthMethod {
    type V = AuthV;

    open spec fn view(&self) -> AuthV {
        match self {
            AuthMethod::NoAuth => AuthV::NoAuth,
            AuthMethod::Basic { username, password } => AuthV::Basic(username@, password@),
            AuthMethod::ApiKey(k) => AuthV::ApiKey(k@),
        }
    }
}

/// The value of a result whose error is a message.
pub open spec fn result_view<T: View>(r: Result<T, String>) -> Result<T::V, Seq<char>> {
    match r {
        Ok(x) => Ok(x@),
        Err(e) => Err(e@),
    }
}

/// The credentials a client brings in its headers: an API key, or a
/// username and a password, never both and never half of a pair.
pub open spec fn auth_from_parts(
    api_key: Option<Seq<char>>,
    username: Option<Seq<char>>,
    password: Option<Seq<char>>,
) -> Result<AuthV, Seq<char>> {
    if api_key is Some && (username is Some || password is Some) {
        Err("Cannot use both X-Kibana-API-Key and X-Kibana-Username/X-Kibana-Password"@)
    } else if api_key is Some {
        Ok(AuthV::ApiKey(api_key->0))
    } else if username is Some && password is Some {
        Ok(AuthV::Basic(username->0, password->0))
    } else if username is Some || password is Some {
        Err("Both X-Kibana-Username and X-Kibana-Password must be provided together"@)
    } else {
        Err(
            "Missing Kibana credentials: provide X-Kibana-API-Key or X-Kibana-Username + X-Kibana-Password headers"@,
        )
    }
}

/// The credentials in a set of request headers.
pub open spec fn auth_from_headers(h: Headers) -> Result<AuthV, Seq<char>> {
    auth_from_parts(
        h.nonempty_text_of("x-kibana-api-key"@),
        h.nonempty_text_of("x-kibana-username"@),
        h.nonempty_text_of("x-kibana-password"@),
    )
}

impl AuthMethod {
    /// Reads Kibana credentials from the `X-Kibana-API-Key` header, or from
    /// the `X-Kibana-Username` and `X-Kibana-Password` headers. Empty
    /// headers count as absent; the two schemes exclude each other.
    pub fn from_headers(headers: &Headers) -> (r: Result<AuthMethod, String>)
        ensures
            result_view(r) == auth_from_headers(*headers),
    {
        let api_key = headers.get_nonempty("x-kibana-api-key");
        let username = headers.get_nonempty("x-kibana-username");
        let password = headers.get_nonempty("x-kibana-password");
        match (api_key, username, password) {
            (Some(_), Some(_), _) | (Some(_), _, Some(_)) => Err(
                owned("Cannot use both X-Kibana-API-Key and X-Kibana-Username/X-Kibana-Password"),
            ),
            (Some(key), None, None) => Ok(AuthMethod::ApiKey(key)),
            (None, Some(u), Some(p)) => Ok(AuthMethod::Basic { username: u, password: p }),
            (None, Some(_), None) | (None, None, Some(_)) => Err(
                owned("Both X-Kibana-Username and X-Kibana-Password must be provided together"),
            ),
            (None, None, None) => Err(
                owned(
                    "Missing Kibana credentials: provide X-Kibana-API-Key or X-Kibana-Username + X-Kibana-Password headers",
                ),
            ),
        }
    }

    /// The authentication a client is configured with: the API key when
    /// there is one, else username and password when both are given, else
    /// none.
    pub fn from_options(
        username: Option<&str>,
        password: Option<&str>,
        api_key: Option<&str>,
    ) -> (r: AuthMethod)
        ensures
            r@ == configured_auth(opt_str_view(username), opt_str_view(password), opt_str_view(api_key)),
    {
        if let Some(key) = api_key {
            AuthMethod::ApiKey(owned(key))
        } else if let (Some(u), Some(p)) = (username, password) {
            AuthMethod::Basic { username: owned(u), password: owned(p) }
        } else {
            AuthMethod::NoAuth
        }
    }
}

/// The text of an optional string slice.
pub open spec fn opt_str_view(v: Option<&str>) -> Option<Seq<char>> {
    match v {
        Some(t) => Some(t@),
        None => None,
    }
}

/// The authentication chosen from configured credentials.
pub open spec fn configured_auth(
    username: Option<Seq<char>>,
    password: Option<Seq<char>>,
    api_key: Option<Seq<char>>,
) -> AuthV {
    if api_key is Some {
        AuthV::ApiKey(api_key->0)
    } else if username is Some && password is Some {
        AuthV::Basic(username->0, password->0)
    } else {
        AuthV::NoAuth
    }
}

/// A URL without its trailing slashes.
pub open spec fn without_trailing_slashes(s: Seq<char>) -> Seq<char>
    decreases s.len(),
{
    if s.len() > 0 && s.last() == '/' {
        without_trailing_slashes(s.drop_last())
    } else {
        s
    }
}

/// `s` without its trailing slashes (as `str::trim_end_matches('/')`).
pub fn trim_trailing_slashes(s: &str) -> (r: String)
    ensures
        r@ == without_trailing_slashes(s@),
{
    let v = chars_of(s);
    let mut n: usize = v.len();
    assert(v@.take(v.len() as int) =~= v@);
    while n > 0 && v[n - 1] == '/'
        invariant
            n <= v.len(),
            without_trailing_slashes(s@) == without_trailing_slashes(v@.take(n as int)),
            v@ == s@,
        decreases n,
    {
        assert(v@.take(n as int).drop_last() =~= v@.take(n - 1));
        n = n - 1;
    }
    let mut out: Vec<char> = Vec::new();
    let mut i: usize = 0;
    while i < n
        invariant
            i <= n <= v.len(),
            out@ == v@.take(i as int),
        decreases n - i,
    {
        out.push(v[i]);
        i = i + 1;
        assert(out@ =~= v@.take(i as int));
    }
    string_from_chars(&out)
}

/// The backend once detection has run: a known backend stays; otherwise a
/// successful status probe means Kibana and anything else Elasticsearch.
pub open spec fn detected(known: Option<BackendType>, probe_succeeded: bool) -> BackendType {
    match known {
        Some(b) => b,
        None => if probe_succeeded {
            BackendType::Kibana
        } else {
            BackendType::Elasticsearch
        },
    }
}

/// Detection is stable: once a backend is known, later probes do not
/// change it.
pub proof fn detection_is_stable(known: Option<BackendType>, first: bool, later: bool)
    ensures
        detected(Some(detected(known, first)), later) == detected(known, first),
{
}

/// A client of one Kibana or Elasticsearch server.
#[derive(Clone)]
pub struct KibanaClient {
    /// The base URL, without trailing slashes.
    pub base_url: String,
    pub auth: AuthMethod,
    /// The backend, once detected.
    pub backend: Option<BackendType>,
}

impl KibanaClient {
    /// A client of the server at `base_url`, with the API key when there is
    /// one, else username and password when both are given.
    pub fn new(
        base_url: &str,
        username: Option<&str>,
        password: Option<&str>,
        api_key: Option<&str>,
    ) -> (r: KibanaClient)
        ensures
            r.base_url@ == without_trailing_slashes(base_url@),
            r.auth@ == configured_auth(opt_str_view(username), opt_str_view(password), opt_str_view(api_key)),
            r.backend is None,
    {
        KibanaClient {
            base_url: trim_trailing_slashes(base_url),
            auth: AuthMethod::from_options(username, password, api_key),
            backend: None,
        }
    }

    /// A client of the server at `base_url` with the given credentials,
    /// for use over a transport shared with other clients.
    pub fn with_shared_client(base_url: &str, auth: AuthMethod) -> (r: KibanaClient)
        ensures
            r.base_url@ == without_trailing_slashes(base_url@),
            r.auth == auth,
            r.backend is None,
    {
        KibanaClient { base_url: trim_trailing_slashes(base_url), auth, backend: None }
    }

    /// Records the outcome of a status probe unless the backend is already
    /// known, and returns the backend.
    pub fn detect_backend(&mut self, probe_succeeded: bool) -> (r: BackendType)
        ensures
            r == detected(old(self).backend, probe_succeeded),
            final(self).backend == Some(r),
            final(self).base_url == old(self).base_url,
            final(self).auth == old(self).auth,
    {
        match self.backend {
            Some(b) => b,
            None => {
                let b = if probe_succeeded {
                    BackendType::Kibana
                } else {
                    BackendType::Elasticsearch
                };
                self.backend = Some(b);
                b
            },
        }
    }
}

} // verus!

verus! {

/// An HTTP method the client uses.
#[derive(Debug, Clone, Copy, PartialEq, Eq, Structural)]
pub enum HttpMethod {
    Get,
    Post,
}

/// The name of an HTTP method.
pub open spec fn method_name(m: HttpMethod) -> Seq<char> {
    match m {
        HttpMethod::Get => "GET"@,
        HttpMethod::Post => "POST"@,
    }
}

impl HttpMethod {
    /// The method's name.
    pub fn name(&self) -> (r: &'static str)
        ensures
            r@ == method_name(*self),
    {
        match self {
            HttpMethod::Get => "GET",
            HttpMethod::Post => "POST",
        }
    }
}

/// A request for the transport to send. A body is JSON text, sent with
/// the `application/json` content type.
pub struct RequestPlan {
    pub method: HttpMethod,
    pub url: String,
    pub query: Vec<(String, String)>,
    pub headers: Vec<(String, String)>,
    pub basic_auth: Option<(String, String)>,
    pub body: Option<String>,
}

/// The value of a request.
pub struct PlanV {
    pub method: HttpMethod,
    pub url: Seq<char>,
    pub query: Seq<(Seq<char>, Seq<char>)>,
    pub headers: Seq<(Seq<char>, Seq<char>)>,
    pub basic_auth: Option<(Seq<char>, Seq<char>)>,
    pub body: Option<Seq<char>>,
}

/// The texts of a sequence of string pairs.
pub open spec fn pairs_view(v: Seq<(String, String)>) -> Seq<(Seq<char>, Seq<char>)> {
    Seq::new(v.len(), |i: int| (v[i].0@, v[i].1@))
}

impl View for RequestPlan {
    type V = PlanV;

    open spec fn view(&self) -> PlanV {
        PlanV {
            method: self.method,
            url: self.url@,
            query: pairs_view(self.query@),
            headers: pairs_view(self.headers@),
            basic_auth: match self.basic_auth {
                Some(p) => Some((p.0@, p.1@)),
                None => None,
            },
            body: match self.body {
                Some(b) => Some(b@),
                None => None,
            },
        }
    }
}

/// A request with the client's credentials applied: basic credentials for
/// a username and password, an `Authorization: ApiKey` header for a key.
pub open spec fn with_auth(p: PlanV, auth: AuthV) -> PlanV {
    match auth {
        AuthV::NoAuth => p,
        AuthV::Basic(u, pw) => PlanV { basic_auth: Some((u, pw)), ..p },
        AuthV::ApiKey(k) => PlanV { headers: p.headers.push(("Authorization"@, "ApiKey "@ + k)), ..p },
    }
}

/// A request with no query, headers, credentials or body.
pub open spec fn bare_plan(method: HttpMethod, url: Seq<char>) -> PlanV {
    PlanV {
        method,
        url,
        query: Seq::empty(),
        headers: Seq::empty(),
        basic_auth: None,
        body: None,
    }
}

/// The probe that tells Kibana from Elasticsearch: `GET /api/status`.
pub open spec fn status_probe_plan(base: Seq<char>, auth: AuthV) -> PlanV {
    with_auth(bare_plan(HttpMethod::Get, base + "/api/status"@), auth)
}

/// An Elasticsearch API call: sent directly to Elasticsearch, or through
/// Kibana's console proxy as a `POST` that names the path and method.
pub open spec fn es_plan(
    base: Seq<char>,
    auth: AuthV,
    backend: BackendType,
    method: HttpMethod,
    path: Seq<char>,
    body: Option<Seq<char>>,
) -> PlanV {
    match backend {
        BackendType::Elasticsearch => with_auth(
            PlanV { body, ..bare_plan(method, base + path) },
            auth,
        ),
        BackendType::Kibana => with_auth(
            PlanV {
                method: HttpMethod::Post,
                url: base + "/api/console/proxy"@,
                query: seq![("path"@, path), ("method"@, method_name(method))],
                headers: seq![("kbn-xsrf"@, "true"@)],
                basic_auth: None,
                body,
            },
            auth,
        ),
    }
}

/// The listing of indices: Kibana's index patterns, or Elasticsearch's
/// `_cat/indices` with document count and store size.
pub open spec fn indices_plan(base: Seq<char>, auth: AuthV, backend: BackendType) -> PlanV {
    match backend {
        BackendType::Kibana => with_auth(
            PlanV {
                headers: seq![("kbn-xsrf"@, "true"@)],
                ..bare_plan(
                    HttpMethod::Get,
                    base + "/api/saved_objects/_find?type=index-pattern&per_page=1000"@,
                )
            },
            auth,
        ),
        BackendType::Elasticsearch => with_auth(
            bare_plan(
                HttpMethod::Get,
                base + "/_cat/indices?format=json&h=index,docs.count,store.size"@,
            ),
            auth,
        ),
    }
}

fn concat(a: &str, b: &str) -> (r: String)
    ensures
        r@ == a@ + b@,
{
    let mut s = owned(a);
    s.append(b);
    s
}

fn plan_of(method: HttpMethod, url: String) -> (r: RequestPlan)
    ensures
        r@ == bare_plan(method, url@),
{
    let r = RequestPlan {
        method,
        url,
        query: Vec::new(),
        headers: Vec::new(),
        basic_auth: None,
        body: None,
    };
    assert(r@.query =~= Seq::<(Seq<char>, Seq<char>)>::empty());
    assert(r@.headers =~= Seq::<(Seq<char>, Seq<char>)>::empty());
    r
}

impl KibanaClient {
    /// Applies the client's credentials to a request.
    pub fn apply_auth(&self, plan: &mut RequestPlan)
        ensures
            final(plan)@ == with_auth(old(plan)@, self.auth@),
    {
        match &self.auth {
            AuthMethod::NoAuth => {},
            AuthMethod::Basic { username, password } => {
                plan.basic_auth = Some((username.clone(), password.clone()));
            },
            AuthMethod::ApiKey(key) => {
                let ghost before = plan.headers@;
                plan.headers.push((owned("Authorization"), concat("ApiKey ", key.as_str())));
                assert(pairs_view(plan.headers@) =~= pairs_view(before).push(
                    ("Authorization"@, "ApiKey "@ + key@),
                ));
            },
        }
    }

    /// The probe that tells Kibana from Elasticsearch.
    pub fn status_probe(&self) -> (r: RequestPlan)
        ensures
            r@ == status_probe_plan(self.base_url@, self.auth@),
    {
        let mut p = plan_of(HttpMethod::Get, concat(self.base_url.as_str(), "/api/status"));
        self.apply_auth(&mut p);
        p
    }

    /// An Elasticsearch API call on the detected backend.
    pub fn es_request(&self, method: HttpMethod, path: &str, body: Option<String>) -> (r:
        RequestPlan)
        requires
            self.backend is Some,
        ensures
            r@ == es_plan(
                self.base_url@,
                self.auth@,
                self.backend->0,
                method,
                path@,
                match body {
                    Some(b) => Some(b@),
                    None => None,
                },
            ),
    {
        let mut p = match self.backend {
            Some(BackendType::Kibana) => {
                let mut p = plan_of(
                    HttpMethod::Post,
                    concat(self.base_url.as_str(), "/api/console/proxy"),
                );
                let ghost q0 = p.query@;
                let k1 = owned("path");
                let v1 = owned(path);
                let k2 = owned("method");
                let v2 = owned(method.name());
                p.query.push((k1, v1));
                p.query.push((k2, v2));
                assert(q0.len() == 0) by {
                    assert(pairs_view(q0).len() == q0.len());
                }
                assert(p.query@.len() == 2);
                assert(p.query@[0].0@ == "path"@);
                assert(p.query@[1].1@ == method_name(method));
                p.headers.push((owned("kbn-xsrf"), owned("true")));
                p.body = body;
                assert(pairs_view(p.query@) =~= seq![("path"@, path@), ("method"@, method_name(method))]);
                assert(pairs_view(p.headers@) =~= seq![("kbn-xsrf"@, "true"@)]);
                p
            },
            _ => {
                let mut p = plan_of(method, concat(self.base_url.as_str(), path));
                p.body = body;
                p
            },
        };
        self.apply_auth(&mut p);
        p
    }

    /// The request that lists the indices (Elasticsearch) or index
    /// patterns (Kibana) of the detected backend; `parse_indices` reads
    /// its reply.
    pub fn get_indices(&self) -> (r: RequestPlan)
        requires
            self.backend is Some,
        ensures
            r@ == indices_plan(self.base_url@, self.auth@, self.backend->0),
    {
        let mut p = match self.backend {
            Some(BackendType::Kibana) => {
                let mut p = plan_of(
                    HttpMethod::Get,
                    concat(
                        self.base_url.as_str(),
                        "/api/saved_objects/_find?type=index-pattern&per_page=1000",
                    ),
                );
                p.headers.push((owned("kbn-xsrf"), owned("true")));
                assert(pairs_view(p.headers@) =~= seq![("kbn-xsrf"@, "true"@)]);
                p
            },
            _ => plan_of(
                HttpMethod::Get,
                concat(
                    self.base_url.as_str(),
                    "/_cat/indices?format=json&h=index,docs.count,store.size",
                ),
            ),
        };
        self.apply_auth(&mut p);
        p
    }
}

} // verus!

verus! {

broadcast use vstd::std_specs::vec::group_vec_axioms;

/// What came back for a request, as the transport saw it.
pub enum Reply {
    /// The request could not be sent or answered; the transport's message.
    Failed(String),
    /// The server answered with an unsuccessful status: the status as the
    /// transport writes it (such as `404 Not Found`) and the body, empty
    /// when it could not be read.
    Rejected { status: String, body: String },
    /// A successful answer whose body is JSON.
    Parsed(Json),
    /// A successful answer whose body is not JSON; the parser's message.
    Unparsable(String),
}

/// The document a reply carries, or the message for a failed request;
/// `label` names the server in the message for an unsuccessful status.
pub open spec fn reply_outcome(r: Reply, label: Seq<char>) -> Result<JsonV, Seq<char>> {
    match r {
        Reply::Failed(e) => Err("HTTP error: "@ + e@),
        Reply::Rejected { status, body } => Err(label + " returned "@ + status@ + ": "@ + body@),
        Reply::Parsed(j) => Ok(j@),
        Reply::Unparsable(e) => Err("JSON parse error: "@ + e@),
    }
}

/// The document a reply carries, or the message for a failed request.
pub fn reply_json(reply: Reply, label: &str) -> (r: Result<Json, String>)
    ensures
        result_view(r) == reply_outcome(reply, label@),
{
    match reply {
        Reply::Failed(e) => Err(concat("HTTP error: ", e.as_str())),
        Reply::Rejected { status, body } => {
            let mut m = owned(label);
            m.append(" returned ");
            m.append(status.as_str());
            m.append(": ");
            m.append(body.as_str());
            Err(m)
        },
        Reply::Parsed(j) => Ok(j),
        Reply::Unparsable(e) => Err(concat("JSON parse error: ", e.as_str())),
    }
}

/// A log search.
pub struct SearchQuery {
    pub query_string: String,
    pub index: String,
    pub time_from: Option<String>,
    pub time_to: Option<String>,
    pub size: u32,
    pub search_after: Option<Vec<Json>>,
    pub timestamp_field: String,
}

/// A string value.
pub open spec fn jstr(s: Seq<char>) -> JsonV {
    JsonV::Str(s)
}

/// An object with one member.
pub open spec fn jobj1(k: Seq<char>, v: JsonV) -> JsonV {
    JsonV::Object(seq![k], seq![v])
}

/// A non-negative integer value.
pub open spec fn jnum(n: u64) -> JsonV {
    JsonV::Number(decimal(n as nat), Some(n))
}

/// The text of an optional string, or a default.
pub open spec fn text_or(v: Option<String>, d: Seq<char>) -> Seq<char> {
    match v {
        Some(t) => t@,
        None => d,
    }
}

/// The sort order of a search: newest first, then by document order.
pub open spec fn search_sort(tf: Seq<char>) -> JsonV {
    JsonV::Array(
        seq![
            jobj1(tf, jobj1("order"@, jstr("desc"@))),
            jobj1("_doc"@, jobj1("order"@, jstr("asc"@))),
        ],
    )
}

/// The query of a search: the query string, within the time range (the
/// last hour up to now unless given).
pub open spec fn search_clause(q: SearchQuery) -> JsonV {
    jobj1(
        "bool"@,
        jobj1(
            "must"@,
            JsonV::Array(
                seq![
                    jobj1("query_string"@, jobj1("query"@, jstr(q.query_string@))),
                    jobj1(
                        "range"@,
                        jobj1(
                            q.timestamp_field@,
                            JsonV::Object(
                                seq!["gte"@, "lte"@],
                                seq![
                                    jstr(text_or(q.time_from, "now-1h"@)),
                                    jstr(text_or(q.time_to, "now"@)),
                                ],
                            ),
                        ),
                    ),
                ],
            ),
        ),
    )
}

/// The body of a search request; members in key order, with the cursor
/// as `search_after` when there is one.
pub open spec fn search_body(q: SearchQuery) -> JsonV {
    match q.search_after {
        Some(c) => JsonV::Object(
            seq!["query"@, "search_after"@, "size"@, "sort"@],
            seq![
                search_clause(q),
                JsonV::Array(items_view(c@)),
                jnum(q.size as u64),
                search_sort(q.timestamp_field@),
            ],
        ),
        None => JsonV::Object(
            seq!["query"@, "size"@, "sort"@],
            seq![search_clause(q), jnum(q.size as u64), search_sort(q.timestamp_field@)],
        ),
    }
}

/// The search endpoint of an index pattern.
pub open spec fn search_path(index: Seq<char>) -> Seq<char> {
    "/"@ + index + "/_search"@
}

/// A search, as a `POST` of the search body to the index's search endpoint.
pub open spec fn search_plan(c: KibanaClient, q: SearchQuery) -> PlanV {
    es_plan(
        c.base_url@,
        c.auth@,
        c.backend->0,
        HttpMethod::Post,
        search_path(q.index@),
        Some(compact(search_body(q))),
    )
}

fn text_value(v: &Option<String>, d: &str) -> (r: Json)
    ensures
        r@ == jstr(text_or(*v, d@)),
{
    match v {
        Some(t) => Json::Str(t.clone()),
        None => Json::str_value(d),
    }
}

/// The body of a search request.
pub fn build_search_body(q: &SearchQuery) -> (r: Json)
    ensures
        r@ == search_body(*q),
{
    let tf = q.timestamp_field.as_str();
    let clause = obj1(
        "bool",
        obj1(
            "must",
            arr2(
                obj1("query_string", obj1("query", Json::Str(q.query_string.clone()))),
                obj1(
                    "range",
                    obj1(
                        tf,
                        obj2(
                            "gte",
                            text_value(&q.time_from, "now-1h"),
                            "lte",
                            text_value(&q.time_to, "now"),
                        ),
                    ),
                ),
            ),
        ),
    );
    let sort = arr2(
        obj1(tf, obj1("order", Json::str_value("desc"))),
        obj1("_doc", obj1("order", Json::str_value("asc"))),
    );
    let size = Json::u64_value(q.size as u64);
    match &q.search_after {
        Some(c) => obj4("query", clause, "search_after", Json::Array(duplicate_items(c)), "size", size, "sort", sort),
        None => obj3("query", clause, "size", size, "sort", sort),
    }
}

impl KibanaClient {
    /// The request that runs a search on the detected backend;
    /// `parse_search_response` reads its reply.
    pub fn search(&self, q: &SearchQuery) -> (r: RequestPlan)
        requires
            self.backend is Some,
        ensures
            r@ == search_plan(*self, *q),
    {
        let body = build_search_body(q);
        let mut path = owned("/");
        path.append(q.index.as_str());
        path.append("/_search");
        self.es_request(HttpMethod::Post, path.as_str(), Some(to_compact(&body)))
    }
}

/// A page of search results.
pub struct SearchResponse {
    pub hits: Vec<Json>,
    pub total: u64,
    pub took_ms: u64,
    pub next_cursor: Option<Vec<Json>>,
}

/// The value of a page of search results.
pub struct SearchResponseV {
    pub hits: Seq<JsonV>,
    pub total: u64,
    pub took_ms: u64,
    pub next_cursor: Option<Seq<JsonV>>,
}

impl View for SearchResponse {
    type V = SearchResponseV;

    open spec fn view(&self) -> SearchResponseV {
        SearchResponseV {
            hits: items_view(self.hits@),
            total: self.total,
            took_ms: self.took_ms,
            next_cursor: match self.next_cursor {
                Some(c) => Some(items_view(c@)),
                None => None,
            },
        }
    }
}

/// The hits of a search reply (`hits.hits`), if they are an array.
pub open spec fn hits_of(data: JsonV) -> Option<Seq<JsonV>> {
    array_of(at(at(data, "hits"@), "hits"@))
}

/// The total number of matches: `hits.total.value`, else `hits.total`,
/// else zero.
pub open spec fn total_of(data: JsonV) -> u64 {
    match u64_of(at(at(at(data, "hits"@), "total"@), "value"@)) {
        Some(n) => n,
        None => match u64_of(at(at(data, "hits"@), "total"@)) {
            Some(n) => n,
            None => 0,
        },
    }
}

/// The time the search took, or zero.
pub open spec fn took_of(data: JsonV) -> u64 {
    match u64_of(at(data, "took"@)) {
        Some(n) => n,
        None => 0,
    }
}

/// The cursor for the next page: the sort values of the last hit.
pub open spec fn cursor_of(hits: Seq<JsonV>) -> Option<Seq<JsonV>> {
    if hits.len() > 0 {
        match member(hits.last(), "sort"@) {
            Some(s) => array_of(s),
            None => None,
        }
    } else {
        None
    }
}

/// A search reply read as a page of results.
pub open spec fn search_outcome(data: JsonV) -> Result<SearchResponseV, Seq<char>> {
    match hits_of(data) {
        Some(hits) => Ok(
            SearchResponseV {
                hits,
                total: total_of(data),
                took_ms: took_of(data),
                next_cursor: cursor_of(hits),
            },
        ),
        None => Err("Invalid response: missing hits.hits"@),
    }
}

/// The member `key`, or `null` when there is none.
fn member_or_null<'a>(v: &'a Json, key: &str, null: &'a Json) -> (r: &'a Json)
    requires
        null@ == JsonV::Null,
    ensures
        r@ == at(v@, key@),
{
    match v.get(key) {
        Some(x) => x,
        None => null,
    }
}

/// Reads a search reply: its hits, the total, the time taken and the
/// cursor for the next page.
pub fn parse_search_response(data: &Json) -> (r: Result<SearchResponse, String>)
    ensures
        result_view(r) == search_outcome(data@),
{
    let null = Json::Null;
    let hits_obj = member_or_null(data, "hits", &null);
    let hits_arr = member_or_null(hits_obj, "hits", &null);
    let hits_array = match hits_arr.as_array() {
        Some(a) => a,
        None => {
            return Err(owned("Invalid response: missing hits.hits"));
        },
    };
    let total_obj = member_or_null(hits_obj, "total", &null);
    let total_value = member_or_null(total_obj, "value", &null);
    let total = match total_value.as_u64() {
        Some(n) => n,
        None => match total_obj.as_u64() {
            Some(n) => n,
            None => 0,
        },
    };
    let took = member_or_null(data, "took", &null);
    let took_ms = match took.as_u64() {
        Some(n) => n,
        None => 0,
    };
    proof {
        lemma_items_view(hits_array@);
    }
    let next_cursor = if hits_array.len() > 0 {
        let last = &hits_array[hits_array.len() - 1];
        assert(last@ == items_view(hits_array@).last());
        match last.get("sort") {
            Some(s) => match s.as_array() {
                Some(c) => Some(duplicate_items(c)),
                None => None,
            },
            None => None,
        }
    } else {
        None
    };
    Ok(SearchResponse { hits: duplicate_items(hits_array), total, took_ms, next_cursor })
}

/// The hits of a search reply, or none when they are missing.
pub open spec fn hits_or_empty(data: JsonV) -> Seq<JsonV> {
    match hits_of(data) {
        Some(h) => h,
        None => Seq::empty(),
    }
}

/// The hits of a search reply, or none when they are missing.
pub fn extract_hits(data: &Json) -> (r: Vec<Json>)
    ensures
        items_view(r@) == hits_or_empty(data@),
{
    let null = Json::Null;
    let hits_obj = member_or_null(data, "hits", &null);
    let hits_arr = member_or_null(hits_obj, "hits", &null);
    match hits_arr.as_array() {
        Some(a) => duplicate_items(a),
        None => {
            let v: Vec<Json> = Vec::new();
            proof {
                lemma_items_view(v@);
            }
            assert(items_view(v@) =~= Seq::<JsonV>::empty());
            v
        },
    }
}

} // verus!

verus! {

/// An index, or a Kibana index pattern, with what the server reports of it.
pub struct IndexInfo {
    pub name: String,
    pub docs_count: Option<String>,
    pub store_size: Option<String>,
}

/// The value of an index entry: name, document count and store size.
pub type IndexInfoV = (Seq<char>, Option<Seq<char>>, Option<Seq<char>>);

impl View for IndexInfo {
    type V = IndexInfoV;

    open spec fn view(&self) -> IndexInfoV {
        (
            self.name@,
            match self.docs_count {
                Some(c) => Some(c@),
                None => None,
            },
            match self.store_size {
                Some(s) => Some(s@),
                None => None,
            },
        )
    }
}

/// The values of a sequence of index entries.
pub open spec fn infos_view(v: Seq<IndexInfo>) -> Seq<IndexInfoV> {
    Seq::new(v.len(), |i: int| v[i]@)
}

/// Kibana index patterns: the title of each saved object that has one.
pub open spec fn kibana_patterns(objs: Seq<JsonV>) -> Seq<IndexInfoV>
    decreases objs.len(),
{
    if objs.len() == 0 {
        Seq::empty()
    } else {
        let rest = kibana_patterns(objs.drop_last());
        match str_of(at(at(objs.last(), "attributes"@), "title"@)) {
            Some(t) => rest.push((t, None, None)),
            None => rest,
        }
    }
}

/// Whether an index name marks a system index.
pub open spec fn is_system_index(name: Seq<char>) -> bool {
    name.len() > 0 && name[0] == '.'
}

/// Elasticsearch indices: each entry with a name that is not a system
/// index, with its document count and store size when they are strings.
pub open spec fn es_indices(items: Seq<JsonV>) -> Seq<IndexInfoV>
    decreases items.len(),
{
    if items.len() == 0 {
        Seq::empty()
    } else {
        let rest = es_indices(items.drop_last());
        let item = items.last();
        match str_of(at(item, "index"@)) {
            Some(n) => if is_system_index(n) {
                rest
            } else {
                rest.push((n, str_of(at(item, "docs.count"@)), str_of(at(item, "store.size"@))))
            },
            None => rest,
        }
    }
}

/// The index listing a backend's reply holds.
pub open spec fn indices_outcome(backend: BackendType, data: JsonV) -> Result<
    Seq<IndexInfoV>,
    Seq<char>,
> {
    match backend {
        BackendType::Kibana => match array_of(at(data, "saved_objects"@)) {
            Some(a) => Ok(kibana_patterns(a)),
            None => Err("Invalid Kibana response: missing saved_objects"@),
        },
        BackendType::Elasticsearch => match array_of(data) {
            Some(a) => Ok(es_indices(a)),
            None => Err("Invalid ES response: expected array"@),
        },
    }
}

/// The name of the server in messages about an index listing.
pub open spec fn indices_label(backend: BackendType) -> Seq<char> {
    match backend {
        BackendType::Kibana => "Kibana"@,
        BackendType::Elasticsearch => "Elasticsearch"@,
    }
}

/// The values of an index listing result.
pub open spec fn infos_result_view(r: Result<Vec<IndexInfo>, String>) -> Result<
    Seq<IndexInfoV>,
    Seq<char>,
> {
    match r {
        Ok(v) => Ok(infos_view(v@)),
        Err(e) => Err(e@),
    }
}

fn string_member(v: &Json, key: &str) -> (r: Option<String>)
    ensures
        r matches Some(t) ==> str_of(at(v@, key@)) == Some(t@),
        r is None ==> str_of(at(v@, key@)) is None,
{
    match v.get(key) {
        Some(x) => match x.as_str() {
            Some(s) => Some(s.clone()),
            None => None,
        },
        None => None,
    }
}

fn collect_patterns(objs: &Vec<Json>) -> (r: Vec<IndexInfo>)
    ensures
        infos_view(r@) == kibana_patterns(items_view(objs@)),
{
    let ghost items = items_view(objs@);
    proof {
        lemma_items_view(objs@);
    }
    let null = Json::Null;
    let mut out: Vec<IndexInfo> = Vec::new();
    let mut i: usize = 0;
    while i < objs.len()
        invariant
            i <= objs.len(),
            null@ == JsonV::Null,
            items == items_view(objs@),
            items.len() == objs.len(),
            forall|k: int| 0 <= k < objs.len() ==> #[trigger] items[k] == objs@[k]@,
            infos_view(out@) == kibana_patterns(items.take(i as int)),
        decreases objs.len() - i,
    {
        let attrs = member_or_null(&objs[i], "attributes", &null);
        let title = string_member(attrs, "title");
        let ghost before = out@;
        match title {
            Some(t) => {
                out.push(IndexInfo { name: t, docs_count: None, store_size: None });
                assert(infos_view(out@) =~= infos_view(before).push(out@.last()@));
            },
            None => {},
        }
        proof {
            let tk = items.take(i + 1);
            assert(tk.drop_last() =~= items.take(i as int));
            assert(tk.last() == objs@[i as int]@);
        }
        i = i + 1;
    }
    assert(items.take(objs.len() as int) =~= items);
    out
}

fn starts_with_dot(s: &String) -> (r: bool)
    ensures
        r == is_system_index(s@),
{
    let v = chars_of(s.as_str());
    v.len() > 0 && v[0] == '.'
}

fn collect_indices(items_vec: &Vec<Json>) -> (r: Vec<IndexInfo>)
    ensures
        infos_view(r@) == es_indices(items_view(items_vec@)),
{
    let ghost items = items_view(items_vec@);
    proof {
        lemma_items_view(items_vec@);
    }
    let mut out: Vec<IndexInfo> = Vec::new();
    let mut i: usize = 0;
    while i < items_vec.len()
        invariant
            i <= items_vec.len(),
            items == items_view(items_vec@),
            items.len() == items_vec.len(),
            forall|k: int| 0 <= k < items_vec.len() ==> #[trigger] items[k] == items_vec@[k]@,
            infos_view(out@) == es_indices(items.take(i as int)),
        decreases items_vec.len() - i,
    {
        let item = &items_vec[i];
        let ghost before = out@;
        match string_member(item, "index") {
            Some(name) => {
                if !starts_with_dot(&name) {
                    let docs_count = string_member(item, "docs.count");
                    let store_size = string_member(item, "store.size");
                    out.push(IndexInfo { name, docs_count, store_size });
                    assert(infos_view(out@) =~= infos_view(before).push(out@.last()@));
                }
            },
            None => {},
        }
        proof {
            let tk = items.take(i + 1);
            assert(tk.drop_last() =~= items.take(i as int));
            assert(tk.last() == items_vec@[i as int]@);
        }
        i = i + 1;
    }
    assert(items.take(items_vec.len() as int) =~= items);
    out
}

/// Reads the index listing of a backend's reply.
pub fn parse_indices(backend: BackendType, data: &Json) -> (r: Result<Vec<IndexInfo>, String>)
    ensures
        infos_result_view(r) == indices_outcome(backend, data@),
{
    match backend {
        BackendType::Kibana => {
            let null = Json::Null;
            let objs = member_or_null(data, "saved_objects", &null);
            match objs.as_array() {
                Some(a) => Ok(collect_patterns(a)),
                None => Err(owned("Invalid Kibana response: missing saved_objects")),
            }
        },
        BackendType::Elasticsearch => match data.as_array() {
            Some(a) => Ok(collect_indices(a)),
            None => Err(owned("Invalid ES response: expected array")),
        },
    }
}

/// The path of a document.
pub open spec fn document_path(index: Seq<char>, doc_id: Seq<char>) -> Seq<char> {
    "/"@ + index + "/_doc/"@ + doc_id
}

/// The timestamp of a fetched document: the member `timestamp_field` of
/// its `_source`.
pub open spec fn anchor_outcome(doc: JsonV, timestamp_field: Seq<char>) -> Result<JsonV, Seq<char>> {
    match member(doc, "_source"@) {
        Some(source) => match member(source, timestamp_field) {
            Some(ts) => Ok(ts),
            None => Err("Document has no '"@ + timestamp_field + "' field"@),
        },
        None => Err("Document has no _source field"@),
    }
}

/// The search for the entries just before (older) or just after (newer) a
/// timestamp, nearest first.
pub open spec fn neighbours_body(timestamp_field: Seq<char>, ts: JsonV, size: u32, older: bool) -> JsonV {
    JsonV::Object(
        seq!["query"@, "size"@, "sort"@],
        seq![
            jobj1(
                "range"@,
                jobj1(
                    timestamp_field,
                    jobj1(
                        if older {
                            "lt"@
                        } else {
                            "gt"@
                        },
                        ts,
                    ),
                ),
            ),
            jnum(size as u64),
            JsonV::Array(
                seq![
                    jobj1(
                        timestamp_field,
                        jobj1(
                            "order"@,
                            jstr(
                                if older {
                                    "desc"@
                                } else {
                                    "asc"@
                                },
                            ),
                        ),
                    ),
                ],
            ),
        ],
    )
}

/// The timestamp of a fetched document, or why it has none.
pub fn context_anchor(doc: &Json, timestamp_field: &str) -> (r: Result<Json, String>)
    ensures
        result_view(r) == anchor_outcome(doc@, timestamp_field@),
{
    match doc.get("_source") {
        Some(source) => match source.get(timestamp_field) {
            Some(ts) => Ok(ts.duplicate()),
            None => {
                let mut m = owned("Document has no '");
                m.append(timestamp_field);
                m.append("' field");
                Err(m)
            },
        },
        None => Err(owned("Document has no _source field")),
    }
}

/// The search for the entries just before or after a timestamp.
pub fn build_neighbours_body(timestamp_field: &str, ts: Json, size: u32, older: bool) -> (r: Json)
    ensures
        r@ == neighbours_body(timestamp_field@, ts@, size, older),
{
    let bound = if older {
        "lt"
    } else {
        "gt"
    };
    let order = if older {
        "desc"
    } else {
        "asc"
    };
    obj3(
        "query",
        obj1("range", obj1(timestamp_field, obj1(bound, ts))),
        "size",
        Json::u64_value(size as u64),
        "sort",
        arr1(obj1(timestamp_field, obj1("order", Json::str_value(order)))),
    )
}

impl KibanaClient {
    /// The request that fetches one document; `reply_json` reads its reply.
    pub fn get_document(&self, index: &str, doc_id: &str) -> (r: RequestPlan)
        requires
            self.backend is Some,
        ensures
            r@ == es_plan(
                self.base_url@,
                self.auth@,
                self.backend->0,
                HttpMethod::Get,
                document_path(index@, doc_id@),
                None,
            ),
    {
        let mut path = owned("/");
        path.append(index);
        path.append("/_doc/");
        path.append(doc_id);
        self.es_request(HttpMethod::Get, path.as_str(), None)
    }

    /// The search for the entries of an index just before or after a
    /// timestamp.
    pub fn neighbours_request(
        &self,
        index: &str,
        timestamp_field: &str,
        ts: Json,
        size: u32,
        older: bool,
    ) -> (r: RequestPlan)
        requires
            self.backend is Some,
        ensures
            r@ == es_plan(
                self.base_url@,
                self.auth@,
                self.backend->0,
                HttpMethod::Post,
                search_path(index@),
                Some(compact(neighbours_body(timestamp_field@, ts@, size, older))),
            ),
    {
        let body = build_neighbours_body(timestamp_field, ts, size, older);
        let mut path = owned("/");
        path.append(index);
        path.append("/_search");
        self.es_request(HttpMethod::Post, path.as_str(), Some(to_compact(&body)))
    }
}

/// A log entry with the entries before and after it.
pub struct ContextResponse {
    pub before: Vec<Json>,
    pub target: Json,
    pub after: Vec<Json>,
}

/// The entries before a document, oldest first, from a reply that lists
/// them newest first.
pub fn older_in_order(data: &Json) -> (r: Vec<Json>)
    ensures
        items_view(r@) == hits_or_empty(data@).reverse(),
{
    let hits = extract_hits(data);
    proof {
        lemma_items_view(hits@);
    }
    let mut out: Vec<Json> = Vec::new();
    let mut i: usize = hits.len();
    while i > 0
        invariant
            i <= hits.len(),
            items_view(hits@).len() == hits.len(),
            forall|k: int| 0 <= k < hits.len() ==> #[trigger] items_view(hits@)[k] == hits@[k]@,
            out.len() == hits.len() - i,
            forall|k: int| 0 <= k < out.len() ==> #[trigger] out@[k]@ == hits@[hits.len() - 1 - k]@,
        decreases i,
    {
        i = i - 1;
        let c = hits[i].duplicate();
        out.push(c);
    }
    proof {
        lemma_items_view(out@);
        assert(items_view(out@) =~= items_view(hits@).reverse());
    }
    out
}

} // verus!

verus! {

/// The conditions of a search: first the query string, then the time range
/// on the query's timestamp field, from `time_from` (`now-1h`, the last
/// hour, when not given) up to `time_to` (`now` when not given).
pub proof fn search_range_follows_arguments(q: SearchQuery)
    ensures
        ({
            let must = at(at(at(search_body(q), "query"@), "bool"@), "must"@);
            let from = match q.time_from {
                Some(t) => t@,
                None => "now-1h"@,
            };
            let to = match q.time_to {
                Some(t) => t@,
                None => "now"@,
            };
            &&& array_of(must) is Some
            &&& array_of(must)->0.len() == 2
            &&& at(at(array_of(must)->0[0], "query_string"@), "query"@) == JsonV::Str(
                q.query_string@,
            )
            &&& at(at(array_of(must)->0[1], "range"@), q.timestamp_field@) == JsonV::Object(
                seq!["gte"@, "lte"@],
                seq![JsonV::Str(from), JsonV::Str(to)],
            )
            &&& at(at(at(array_of(must)->0[1], "range"@), q.timestamp_field@), "gte"@)
                == JsonV::Str(from)
            &&& at(at(at(array_of(must)->0[1], "range"@), q.timestamp_field@), "lte"@)
                == JsonV::Str(to)
        }),
{
    let body = search_body(q);
    let keys = body->Object_0;
    assert(first_key_at(keys, "query"@, 0));
    lemma_first_key_unique(keys, "query"@, 0);
    let clause = search_clause(q);
    assert(first_key_at(clause->Object_0, "bool"@, 0));
    lemma_first_key_unique(clause->Object_0, "bool"@, 0);
    let b = at(clause, "bool"@);
    assert(first_key_at(b->Object_0, "must"@, 0));
    lemma_first_key_unique(b->Object_0, "must"@, 0);
    let m = array_of(at(b, "must"@))->0;
    assert(first_key_at(m[0]->Object_0, "query_string"@, 0));
    lemma_first_key_unique(m[0]->Object_0, "query_string"@, 0);
    let qs = at(m[0], "query_string"@);
    assert(first_key_at(qs->Object_0, "query"@, 0));
    lemma_first_key_unique(qs->Object_0, "query"@, 0);
    assert(first_key_at(m[1]->Object_0, "range"@, 0));
    lemma_first_key_unique(m[1]->Object_0, "range"@, 0);
    let r = at(m[1], "range"@);
    assert(first_key_at(r->Object_0, q.timestamp_field@, 0));
    lemma_first_key_unique(r->Object_0, q.timestamp_field@, 0);
    let span = at(r, q.timestamp_field@);
    reveal_strlit("gte");
    reveal_strlit("lte");
    assert(first_key_at(span->Object_0, "gte"@, 0));
    lemma_first_key_unique(span->Object_0, "gte"@, 0);
    assert(span->Object_0[0][0] != "lte"@[0]);
    assert(first_key_at(span->Object_0, "lte"@, 1));
    lemma_first_key_unique(span->Object_0, "lte"@, 1);
}

/// An Elasticsearch index listing grows by one entry at a time: an entry
/// whose `index` is a string is listed under that name, with its `docs.count` and
/// `store.size` when they are strings, unless that name begins with `.`
/// (a system index); a `.` anywhere else in the name does not matter. An
/// entry without a string name is not listed.
pub proof fn system_indices_are_those_starting_with_a_dot(items: Seq<JsonV>, item: JsonV)
    requires
        indices_outcome(BackendType::Elasticsearch, JsonV::Array(items)) is Ok,
    ensures
        ({
            let before = indices_outcome(BackendType::Elasticsearch, JsonV::Array(items))->Ok_0;
            let after = indices_outcome(BackendType::Elasticsearch, JsonV::Array(items.push(item)));
            match str_of(at(item, "index"@)) {
                Some(n) => if n.len() > 0 && n[0] == '.' {
                    after == Ok::<Seq<IndexInfoV>, Seq<char>>(before)
                } else {
                    after == Ok::<Seq<IndexInfoV>, Seq<char>>(
                        before.push(
                            (n, str_of(at(item, "docs.count"@)), str_of(at(item, "store.size"@))),
                        ),
                    )
                },
                None => after == Ok::<Seq<IndexInfoV>, Seq<char>>(before),
            }
        }),
{
    assert(items.push(item).drop_last() =~= items);
}

/// Configured credentials: an API key wins; otherwise a username `u` and a
/// password `p`, given together, authenticate as user `u` with password
/// `p`; otherwise there is no authentication.
pub proof fn configured_credentials_keep_their_roles(
    username: Option<Seq<char>>,
    password: Option<Seq<char>>,
    api_key: Option<Seq<char>>,
    auth: AuthV,
)
    requires
        auth == configured_auth(username, password, api_key),
    ensures
        api_key matches Some(k) ==> auth == AuthV::ApiKey(k),
        api_key is None && username is Some && password is Some ==> auth == AuthV::Basic(
            username->0,
            password->0,
        ),
        api_key is None && !(username is Some && password is Some) ==> auth == AuthV::NoAuth,
{
}

/// Credentials from headers: with no API key, the `X-Kibana-Username`
/// header gives the username and the `X-Kibana-Password` header the
/// password; with only an API key, that key.
pub proof fn header_credentials_keep_their_roles(h: Headers, auth: AuthV)
    requires
        auth_from_headers(h) == Ok::<AuthV, Seq<char>>(auth),
    ensures
        auth matches AuthV::Basic(u, p) ==> h.nonempty_text_of("x-kibana-username"@) == Some(u)
            && h.nonempty_text_of("x-kibana-password"@) == Some(p)
            && h.nonempty_text_of("x-kibana-api-key"@) is None,
        auth matches AuthV::ApiKey(k) ==> h.nonempty_text_of("x-kibana-api-key"@) == Some(k)
            && h.nonempty_text_of("x-kibana-username"@) is None
            && h.nonempty_text_of("x-kibana-password"@) is None,
        auth !is NoAuth,
{
}

} // verus!
