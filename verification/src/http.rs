//! The HTTP transport's decisions: the bearer-token check, the table of
//! sessions, and how each request to `/mcp` and `/health` is answered.
use vstd::prelude::*;

use crate::headers::{opt_text, Headers};
use crate::json::{member, obj1, opt_json_view, str_of, Json, JsonV};
use crate::kibana::{auth_from_headers, opt_str_view, AuthMethod, AuthV};
use crate::render::{compact, to_compact};
use crate::text::{contains_text, has_infix, owned, str_eq, strip_prefix};

verus! {

/// The ids of a list of entries, in order.
pub open spec fn entry_ids<T>(e: Seq<(String, T)>) -> Seq<Seq<char>> {
    Seq::new(e.len(), |i: int| e[i].0@)
}

/// Whether no id occurs twice.
pub open spec fn all_distinct(ids: Seq<Seq<char>>) -> bool {
    forall|i: int, j: int| 0 <= i < j < ids.len() ==> ids[i] != ids[j]
}

proof fn lemma_index_of(ids: Seq<Seq<char>>, j: int)
    requires
        all_distinct(ids),
        0 <= j < ids.len(),
    ensures
        ids.index_of(ids[j]) == j,
{
    assert(ids[j] == ids[j]);
    let i = ids.index_of(ids[j]);
    assert(0 <= i < ids.len() && ids[i] == ids[j]);
    if i < j {
        assert(ids[i] != ids[j]);
    }
    if j < i {
        assert(ids[j] != ids[i]);
    }
}

/// The live sessions, each under its id. An id occurs at most once.
pub struct SessionStore<T> {
    entries: Vec<(String, T)>,
}

impl<T> SessionStore<T> {
    /// The ids of the sessions, in the order they were opened.
    pub closed spec fn ids(&self) -> Seq<Seq<char>> {
        entry_ids(self.entries@)
    }

    /// No id occurs twice.
    pub closed spec fn wf(&self) -> bool {
        all_distinct(self.ids())
    }

    /// Each session id with its session.
    pub closed spec fn as_map(&self) -> Map<Seq<char>, T> {
        Map::new(
            |k: Seq<char>| self.ids().contains(k),
            |k: Seq<char>| self.entries@[self.ids().index_of(k)].1,
        )
    }

    proof fn lemma_entry(&self, j: int)
        requires
            self.wf(),
            0 <= j < self.entries@.len(),
        ensures
            self.as_map().dom().contains(self.entries@[j].0@),
            self.as_map()[self.entries@[j].0@] == self.entries@[j].1,
    {
        assert(self.ids()[j] == self.entries@[j].0@);
        lemma_index_of(self.ids(), j);
    }

    /// No sessions.
    pub fn new() -> (r: Self)
        ensures
            r.wf(),
            r@ == Map::<Seq<char>, T>::empty(),
    {
        let r = SessionStore { entries: Vec::new() };
        assert(r.as_map() =~= Map::<Seq<char>, T>::empty());
        r
    }

    fn find(&self, id: &str) -> (r: Option<usize>)
        requires
            self.wf(),
        ensures
            match r {
                Some(i) => i < self.entries@.len() && self.entries@[i as int].0@ == id@,
                None => !self.ids().contains(id@),
            },
    {
        let mut i: usize = 0;
        while i < self.entries.len()
            invariant
                i <= self.entries@.len(),
                forall|j: int| 0 <= j < i ==> self.ids()[j] != id@,
            decreases self.entries.len() - i,
        {
            if crate::text::str_eq(self.entries[i].0.as_str(), id) {
                return Some(i);
            }
            i = i + 1;
        }
        None
    }

    /// Whether a session has the id `id`.
    pub fn contains(&self, id: &str) -> (r: bool)
        requires
            self.wf(),
        ensures
            r == self@.dom().contains(id@),
    {
        match self.find(id) {
            Some(i) => {
                proof {
                    self.lemma_entry(i as int);
                }
                true
            },
            None => false,
        }
    }

    /// The session with the id `id`, if there is one.
    pub fn get(&self, id: &str) -> (r: Option<&T>)
        requires
            self.wf(),
        ensures
            r is Some <==> self@.dom().contains(id@),
            r matches Some(v) ==> *v == self@[id@],
    {
        match self.find(id) {
            Some(i) => {
                proof {
                    self.lemma_entry(i as int);
                }
                Some(&self.entries[i].1)
            },
            None => None,
        }
    }

    /// Files `value` under `id`, replacing the session that had that id.
    pub fn insert(&mut self, id: String, value: T)
        requires
            old(self).wf(),
        ensures
            final(self).wf(),
            final(self)@ == old(self)@.insert(id@, value),
    {
        let ghost before = *self;
        let ghost k = id@;
        match self.find(id.as_str()) {
            Some(i) => {
                self.entries.set(i, (id, value));
                proof {
                    assert(self.ids() =~= before.ids());
                    assert forall|key: Seq<char>| #[trigger]
                        self.as_map().dom().contains(key) == before.as_map().insert(
                            k,
                            value,
                        ).dom().contains(key) by {
                        if key == k {
                            assert(self.ids()[i as int] == key);
                        }
                    }
                    assert forall|key: Seq<char>| self.as_map().dom().contains(key) implies #[trigger]
                        self.as_map()[key] == before.as_map().insert(k, value)[key] by {
                        let j = self.ids().index_of(key);
                        assert(self.ids().contains(key));
                        assert(0 <= j < self.ids().len() && self.ids()[j] == key);
                        self.lemma_entry(j);
                        if key != k {
                            before.lemma_entry(j);
                        } else {
                            lemma_index_of(self.ids(), i as int);
                        }
                    }
                    assert(self.as_map() =~= before.as_map().insert(k, value));
                }
            },
            None => {
                self.entries.push((id, value));
                proof {
                    let n = before.entries@.len() as int;
                    assert(self.ids() =~= before.ids().push(k));
                    assert forall|a: int, b: int| 0 <= a < b < self.ids().len() implies self.ids()[a]
                        != self.ids()[b] by {
                        if b == n {
                            assert(before.ids()[a] == self.ids()[a]);
                        }
                    }
                    assert forall|key: Seq<char>| #[trigger]
                        self.as_map().dom().contains(key) == before.as_map().insert(
                            k,
                            value,
                        ).dom().contains(key) by {
                        if before.ids().contains(key) {
                            let j = choose|j: int| 0 <= j < before.ids().len() && before.ids()[j] == key;
                            assert(self.ids()[j] == key);
                        }
                        if self.ids().contains(key) && key != k {
                            let j = choose|j: int| 0 <= j < self.ids().len() && self.ids()[j] == key;
                            assert(before.ids()[j] == key);
                        }
                        if key == k {
                            assert(self.ids()[n] == key);
                        }
                    }
                    assert forall|key: Seq<char>| self.as_map().dom().contains(key) implies #[trigger]
                        self.as_map()[key] == before.as_map().insert(k, value)[key] by {
                        let j = self.ids().index_of(key);
                        assert(self.ids().contains(key));
                        assert(0 <= j < self.ids().len() && self.ids()[j] == key);
                        self.lemma_entry(j);
                        if j < n {
                            before.lemma_entry(j);
                        }
                    }
                    assert(self.as_map() =~= before.as_map().insert(k, value));
                }
            },
        }
    }

    /// Takes out the session with the id `id`, if there is one.
    pub fn remove(&mut self, id: &str) -> (r: Option<T>)
        requires
            old(self).wf(),
        ensures
            final(self).wf(),
            final(self)@ == old(self)@.remove(id@),
            r is Some <==> old(self)@.dom().contains(id@),
            r matches Some(v) ==> v == old(self)@[id@],
    {
        let ghost before = *self;
        let ghost k = id@;
        match self.find(id) {
            Some(i) => {
                proof {
                    before.lemma_entry(i as int);
                }
                let (_, v) = self.entries.remove(i);
                proof {
                    let ii = i as int;
                    assert(self.ids() =~= before.ids().remove(ii));
                    assert forall|a: int, b: int| 0 <= a < b < self.ids().len() implies self.ids()[a]
                        != self.ids()[b] by {
                        let a0 = if a < ii { a } else { a + 1 };
                        let b0 = if b < ii { b } else { b + 1 };
                        assert(self.ids()[a] == before.ids()[a0]);
                        assert(self.ids()[b] == before.ids()[b0]);
                    }
                    assert forall|key: Seq<char>| #[trigger]
                        self.as_map().dom().contains(key) == before.as_map().remove(k).dom().contains(
                            key,
                        ) by {
                        if before.ids().contains(key) && key != k {
                            let j = choose|j: int| 0 <= j < before.ids().len() && before.ids()[j] == key;
                            assert(j != ii);
                            let j1 = if j < ii { j } else { j - 1 };
                            assert(self.ids()[j1] == key);
                        }
                        if self.ids().contains(key) {
                            let j = choose|j: int| 0 <= j < self.ids().len() && self.ids()[j] == key;
                            let j0 = if j < ii { j } else { j + 1 };
                            assert(before.ids()[j0] == key);
                            if key == k {
                                assert(before.ids()[ii] == k);
                                lemma_index_of(before.ids(), j0);
                                lemma_index_of(before.ids(), ii);
                            }
                        }
                    }
                    assert forall|key: Seq<char>| self.as_map().dom().contains(key) implies #[trigger]
                        self.as_map()[key] == before.as_map().remove(k)[key] by {
                        let j = self.ids().index_of(key);
                        assert(self.ids().contains(key));
                        assert(0 <= j < self.ids().len() && self.ids()[j] == key);
                        self.lemma_entry(j);
                        let j0 = if j < ii { j } else { j + 1 };
                        assert(self.entries@[j] == before.entries@[j0]);
                        before.lemma_entry(j0);
                    }
                    assert(self.as_map() =~= before.as_map().remove(k));
                }
                Some(v)
            },
            None => {
                proof {
                    assert(before.as_map().remove(k) =~= before.as_map());
                }
                None
            },
        }
    }
}

impl<T> View for SessionStore<T> {
    type V = Map<Seq<char>, T>;

    open spec fn view(&self) -> Map<Seq<char>, T> {
        self.as_map()
    }
}

} // verus!

verus! {

/// How the body of a reply is labelled.
#[derive(Debug, Clone, Copy, PartialEq, Eq, Structural)]
pub enum ContentType {
    /// No body and no content type.
    Unset,
    /// `text/plain; charset=utf-8`.
    PlainText,
    /// `application/json`.
    Json,
}

/// An HTTP reply: status, body, and the session id header when one is set.
pub struct HttpReply {
    pub status: u16,
    pub content: ContentType,
    pub body: String,
    pub session_id: Option<String>,
}

/// The value of a reply.
pub struct ReplyV {
    pub status: u16,
    pub content: ContentType,
    pub body: Seq<char>,
    pub session_id: Option<Seq<char>>,
}

impl View for HttpReply {
    type V = ReplyV;

    open spec fn view(&self) -> ReplyV {
        ReplyV {
            status: self.status,
            content: self.content,
            body: self.body@,
            session_id: opt_text(self.session_id),
        }
    }
}

/// A plain-text reply.
pub open spec fn plain(status: u16, body: Seq<char>) -> ReplyV {
    ReplyV { status, content: ContentType::PlainText, body, session_id: None }
}

/// The reply to a request without the right bearer token: 401, no body.
pub open spec fn unauthorized() -> ReplyV {
    ReplyV { status: 401, content: ContentType::Unset, body: Seq::empty(), session_id: None }
}

/// The reply to an exchange: the JSON-RPC answer with 200, or 202 with an
/// empty body when there is nothing to answer (a notification).
pub open spec fn exchange_reply(answer: Option<Seq<char>>, session_id: Option<Seq<char>>) -> ReplyV {
    match answer {
        Some(b) => ReplyV { status: 200, content: ContentType::Json, body: b, session_id },
        None => plain(202, Seq::empty()),
    }
}

fn plain_reply(status: u16, body: &str) -> (r: HttpReply)
    ensures
        r@ == plain(status, body@),
{
    HttpReply { status, content: ContentType::PlainText, body: owned(body), session_id: None }
}

/// The `Authorization` value that carries `token`.
pub open spec fn bearer(token: Seq<char>) -> Seq<char> {
    "Bearer "@ + token
}

/// Whether a request may pass: always when no token is configured, else
/// exactly when its `Authorization` header is `Bearer ` and the token.
pub open spec fn authorized(token: Option<Seq<char>>, h: Headers) -> bool {
    match token {
        None => true,
        Some(t) => h.text_of("authorization"@) == Some(bearer(t)),
    }
}

/// Checks the bearer token of a request against the configured one;
/// refuses with status 401.
pub fn check_auth(auth_token: Option<&str>, headers: &Headers) -> (r: Result<(), u16>)
    ensures
        r is Ok <==> authorized(opt_str_view(auth_token), *headers),
        r matches Err(s) ==> s == 401,
{
    let expected = match auth_token {
        Some(t) => t,
        None => return Ok(()),
    };
    let ghost b = "Bearer "@;
    if let Some(a) = headers.get("authorization") {
        proof {
            if a@ == b + expected@ {
                assert(a@.take(b.len() as int) =~= b);
                assert(a@.skip(b.len() as int) =~= expected@);
            }
        }
        if let Some(rest) = strip_prefix(a.as_str(), "Bearer ") {
            if str_eq(rest.as_str(), expected) {
                proof {
                    assert(a@ =~= b + expected@);
                }
                return Ok(());
            }
        }
    }
    Err(401)
}

/// The id a request names in its `Mcp-Session-Id` header.
pub open spec fn session_id_of(h: Headers) -> Option<Seq<char>> {
    h.text_of("mcp-session-id"@)
}

/// The session id a request names, if it names one.
pub fn get_session_id(headers: &Headers) -> (r: Option<String>)
    ensures
        opt_text(r) == session_id_of(*headers),
{
    headers.get("mcp-session-id")
}

/// The text of an optional value, or the empty text.
pub open spec fn text_or_empty(v: Option<Seq<char>>) -> Seq<char> {
    match v {
        Some(t) => t,
        None => Seq::empty(),
    }
}

/// Whether the `Content-Type` of a request mentions `application/json`.
pub open spec fn accepts_json(h: Headers) -> bool {
    has_infix(text_or_empty(h.text_of("content-type"@)), "application/json"@)
}

/// Whether the request's `Content-Type` mentions `application/json`.
pub fn has_json_body(headers: &Headers) -> (r: bool)
    ensures
        r == accepts_json(*headers),
{
    match headers.get("content-type") {
        Some(t) => contains_text(t.as_str(), "application/json"),
        None => {
            proof {
                reveal_strlit("application/json");
            }
            false
        },
    }
}

/// Whether a body (parsed as any JSON value) has the string `initialize`
/// as its `method`.
pub open spec fn asks_initialize(body: Option<JsonV>) -> bool {
    match body {
        Some(j) => match member(j, "method"@) {
            Some(m) => str_of(m) == Some("initialize"@),
            None => false,
        },
        None => false,
    }
}

/// Whether the body, parsed as JSON (`None` when it is not JSON), asks to
/// initialize a session.
pub fn is_initialize(body: &Option<Json>) -> (r: bool)
    ensures
        r == asks_initialize(opt_json_view(*body)),
{
    match body {
        Some(j) => match j.get("method") {
            Some(m) => match m.as_str() {
                Some(s) => str_eq(s.as_str(), "initialize"),
                None => false,
            },
            None => false,
        },
        None => false,
    }
}

/// What becomes of a `POST /mcp`.
pub enum PostRoute {
    /// It is answered at once with this reply.
    Reject(HttpReply),
    /// It opens a session whose client uses these credentials.
    Initialize(AuthMethod),
    /// It continues the live session with this id.
    Session(String),
}

/// The value of a route.
pub enum RouteV {
    Reject(ReplyV),
    Initialize(AuthV),
    Session(Seq<char>),
}

impl View for PostRoute {
    type V = RouteV;

    open spec fn view(&self) -> RouteV {
        match self {
            PostRoute::Reject(r) => RouteV::Reject(r@),
            PostRoute::Initialize(a) => RouteV::Initialize(a@),
            PostRoute::Session(id) => RouteV::Session(id@),
        }
    }
}

/// The route of a `POST /mcp`, given the configured token, the headers,
/// the body parsed as JSON and the ids of the live sessions.
pub open spec fn post_route(
    token: Option<Seq<char>>,
    h: Headers,
    body: Option<JsonV>,
    ids: Set<Seq<char>>,
) -> RouteV {
    if !authorized(token, h) {
        RouteV::Reject(unauthorized())
    } else if !accepts_json(h) {
        RouteV::Reject(plain(415, "Content-Type must be application/json"@))
    } else if asks_initialize(body) {
        match auth_from_headers(h) {
            Ok(a) => RouteV::Initialize(a),
            Err(e) => RouteV::Reject(plain(400, e)),
        }
    } else {
        match session_id_of(h) {
            None => RouteV::Reject(plain(400, "Missing Mcp-Session-Id header"@)),
            Some(id) => if ids.contains(id) {
                RouteV::Session(id)
            } else {
                RouteV::Reject(plain(400, "Invalid session ID"@))
            },
        }
    }
}

/// Decides a `POST /mcp`: the token is checked first, then the content
/// type; an `initialize` brings its Kibana credentials in headers; any
/// other request must name a live session.
pub fn route_post<T>(
    auth_token: Option<&str>,
    headers: &Headers,
    body: &Option<Json>,
    sessions: &SessionStore<T>,
) -> (r: PostRoute)
    requires
        sessions.wf(),
    ensures
        r@ == post_route(opt_str_view(auth_token), *headers, opt_json_view(*body), sessions@.dom()),
{
    if check_auth(auth_token, headers).is_err() {
        return PostRoute::Reject(
            HttpReply {
                status: 401,
                content: ContentType::Unset,
                body: String::new(),
                session_id: None,
            },
        );
    }
    if !has_json_body(headers) {
        return PostRoute::Reject(plain_reply(415, "Content-Type must be application/json"));
    }
    if is_initialize(body) {
        match AuthMethod::from_headers(headers) {
            Ok(a) => PostRoute::Initialize(a),
            Err(e) => PostRoute::Reject(
                HttpReply { status: 400, content: ContentType::PlainText, body: e, session_id: None },
            ),
        }
    } else {
        match get_session_id(headers) {
            None => PostRoute::Reject(plain_reply(400, "Missing Mcp-Session-Id header")),
            Some(id) => if sessions.contains(id.as_str()) {
                PostRoute::Session(id)
            } else {
                PostRoute::Reject(plain_reply(400, "Invalid session ID"))
            },
        }
    }
}

/// Whether a character is a lowercase hexadecimal digit.
pub open spec fn is_hex_lower(c: char) -> bool {
    (48 <= c as u32 <= 57) || (97 <= c as u32 <= 102)
}

/// Whether a text has the hyphenated lowercase shape of a random
/// (version 4) UUID, such as `67e55044-10b1-426f-9247-bb680e5fe0c8`: 36
/// characters, `-` at 8, 13, 18 and 23, lowercase hex elsewhere, the
/// version digit `4` at 14 and one of `8`, `9`, `a`, `b` at 19.
pub open spec fn is_uuid_text(s: Seq<char>) -> bool {
    &&& s.len() == 36
    &&& forall|i: int|
        0 <= i < 36 ==> if i == 8 || i == 13 || i == 18 || i == 23 {
            s[i] == '-'
        } else {
            is_hex_lower(#[trigger] s[i])
        }
    &&& s[14] == '4'
    &&& (s[19] == '8' || s[19] == '9' || s[19] == 'a' || s[19] == 'b')
}

/// A new random session id.
///
/// Calls `uuid::Uuid::new_v4` and formats it with `to_string`, which the
/// uuid crate writes in the hyphenated lowercase form; `new_v4` fixes the
/// version and variant bits of its random value. The id is random: which id
/// comes out, and that it differs from earlier ones, is not stated.
#[verifier::external_body]
fn new_session_id() -> (r: String)
    ensures
        is_uuid_text(r@),
{
    uuid::Uuid::new_v4().to_string()
}

/// Answers a request within a session: its JSON-RPC answer, or 202 when
/// there is nothing to answer.
pub fn exchange(answer: Option<String>) -> (r: HttpReply)
    ensures
        r@ == exchange_reply(opt_text(answer), None),
{
    match answer {
        Some(b) => HttpReply { status: 200, content: ContentType::Json, body: b, session_id: None },
        None => {
            proof {
                reveal_strlit("");
                assert(""@ =~= Seq::<char>::empty());
            }
            plain_reply(202, "")
        },
    }
}

/// Completes an `initialize`: when it was answered, files `client` under a
/// new random id and hands that id back with the answer; when it was not,
/// no session is opened.
pub fn open_session<T>(sessions: &mut SessionStore<T>, client: T, answer: Option<String>) -> (r:
    HttpReply)
    requires
        old(sessions).wf(),
    ensures
        final(sessions).wf(),
        answer is None ==> r@ == exchange_reply(None, None) && final(sessions)@ == old(sessions)@,
        answer matches Some(b) ==> r.session_id matches Some(id) && is_uuid_text(id@) && r@
            == exchange_reply(Some(b@), Some(id@)) && final(sessions)@ == old(sessions)@.insert(
            id@,
            client,
        ),
{
    match answer {
        Some(_) => {
            let id = new_session_id();
            file_session(sessions, id, client, answer)
        },
        None => {
            proof {
                reveal_strlit("");
                assert(""@ =~= Seq::<char>::empty());
            }
            plain_reply(202, "")
        },
    }
}

/// Completes an `initialize` with the id `id` for its session: when it was
/// answered, files `client` under `id` and hands `id` back with the answer;
/// when it was not, no session is filed.
pub fn file_session<T>(sessions: &mut SessionStore<T>, id: String, client: T, answer: Option<
    String,
>) -> (r: HttpReply)
    requires
        old(sessions).wf(),
    ensures
        final(sessions).wf(),
        answer is None ==> r@ == exchange_reply(None, None) && final(sessions)@ == old(sessions)@,
        answer matches Some(b) ==> r@ == exchange_reply(Some(b@), Some(id@)) && final(sessions)@
            == old(sessions)@.insert(id@, client),
{
    match answer {
        Some(b) => {
            let header = owned(id.as_str());
            sessions.insert(id, client);
            HttpReply { status: 200, content: ContentType::Json, body: b, session_id: Some(header) }
        },
        None => {
            proof {
                reveal_strlit("");
                assert(""@ =~= Seq::<char>::empty());
            }
            plain_reply(202, "")
        },
    }
}

/// The reply to a `DELETE /mcp`.
pub open spec fn delete_reply(token: Option<Seq<char>>, h: Headers, ids: Set<Seq<char>>) -> ReplyV {
    if !authorized(token, h) {
        unauthorized()
    } else {
        match session_id_of(h) {
            None => plain(400, "Missing Mcp-Session-Id header"@),
            Some(id) => if ids.contains(id) {
                plain(200, "Session terminated"@)
            } else {
                plain(404, "Session not found"@)
            },
        }
    }
}

/// The sessions left after a `DELETE /mcp`.
pub open spec fn after_delete<T>(token: Option<Seq<char>>, h: Headers, m: Map<Seq<char>, T>) -> Map<
    Seq<char>,
    T,
> {
    if authorized(token, h) && session_id_of(h) is Some {
        m.remove(session_id_of(h)->0)
    } else {
        m
    }
}

/// Ends the session a `DELETE /mcp` names.
pub fn delete_session<T>(auth_token: Option<&str>, headers: &Headers, sessions: &mut SessionStore<T>) -> (r:
    HttpReply)
    requires
        old(sessions).wf(),
    ensures
        final(sessions).wf(),
        r@ == delete_reply(opt_str_view(auth_token), *headers, old(sessions)@.dom()),
        final(sessions)@ == after_delete(opt_str_view(auth_token), *headers, old(sessions)@),
{
    if check_auth(auth_token, headers).is_err() {
        return HttpReply {
            status: 401,
            content: ContentType::Unset,
            body: String::new(),
            session_id: None,
        };
    }
    match get_session_id(headers) {
        None => plain_reply(400, "Missing Mcp-Session-Id header"),
        Some(id) => match sessions.remove(id.as_str()) {
            Some(_) => plain_reply(200, "Session terminated"),
            None => plain_reply(404, "Session not found"),
        },
    }
}

/// The document `/health` answers with.
pub open spec fn health_value() -> JsonV {
    JsonV::Object(seq!["status"@], seq![JsonV::Str("ok"@)])
}

/// Answers `GET /health`: status 200 and `{"status":"ok"}`.
pub fn health() -> (r: HttpReply)
    ensures
        r@ == (ReplyV {
            status: 200,
            content: ContentType::Json,
            body: compact(health_value()),
            session_id: None,
        }),
{
    let v = obj1("status", Json::str_value("ok"));
    HttpReply { status: 200, content: ContentType::Json, body: to_compact(&v), session_id: None }
}

/// A session filed under an id is found under it, with the value filed,
/// until it is removed; after the removal the id is unknown.
pub proof fn session_lifecycle<T>(sessions: Map<Seq<char>, T>, id: Seq<char>, session: T)
    ensures
        sessions.insert(id, session).dom().contains(id),
        sessions.insert(id, session)[id] == session,
        !sessions.insert(id, session).remove(id).dom().contains(id),
{
}

/// With a token configured, a request without `Bearer` and that token is
/// refused with 401 on both endpoints, and no session is touched.
pub proof fn unauthorized_requests_are_refused<T>(
    token: Seq<char>,
    h: Headers,
    body: Option<JsonV>,
    sessions: Map<Seq<char>, T>,
)
    requires
        h.text_of("authorization"@) != Some(bearer(token)),
    ensures
        post_route(Some(token), h, body, sessions.dom()) == RouteV::Reject(unauthorized()),
        delete_reply(Some(token), h, sessions.dom()) == unauthorized(),
        after_delete(Some(token), h, sessions) == sessions,
{
}

/// A session that a `DELETE` ended is refused afterwards: a later request
/// naming its id is answered 400 "Invalid session ID".
pub proof fn deleted_session_is_refused<T>(
    token: Option<Seq<char>>,
    deletion: Headers,
    later: Headers,
    body: Option<JsonV>,
    sessions: Map<Seq<char>, T>,
)
    requires
        authorized(token, deletion),
        session_id_of(deletion) is Some,
        session_id_of(later) == session_id_of(deletion),
        authorized(token, later),
        accepts_json(later),
        !asks_initialize(body),
    ensures
        post_route(token, later, body, after_delete(token, deletion, sessions).dom()) == RouteV::Reject(
            plain(400, "Invalid session ID"@),
        ),
{
}

/// The id an `initialize` hands back opens the session: a later request
/// that names it continues that session.
pub proof fn opened_session_is_accepted<T>(
    token: Option<Seq<char>>,
    later: Headers,
    body: Option<JsonV>,
    sessions: Map<Seq<char>, T>,
    id: Seq<char>,
    client: T,
)
    requires
        authorized(token, later),
        accepts_json(later),
        !asks_initialize(body),
        session_id_of(later) == Some(id),
    ensures
        post_route(token, later, body, sessions.insert(id, client).dom()) == RouteV::Session(id),
{
}

} // verus!
