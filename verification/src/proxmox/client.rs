//! Requests to the Proxmox API and what their replies mean.

use vstd::prelude::*;
use vstd::string::*;
use vstd::utf8::*;
use crate::config::{AuthConfig, AuthView, ProxmoxConfig};
use crate::error::{Error, ErrorView};
use crate::number;
use crate::proxmox::json;
use crate::proxmox::json::{Json, Tree};
use crate::text;

verus! {

// ── Client ───────────────────────────────────────────────────────────────────

/// What a password login yields.
#[derive(Debug)]
pub struct Ticket {
    pub cookie: String,
    pub csrf: String,
}

/// The mathematical content of a [`Ticket`].
pub ghost struct TicketView {
    pub cookie: Seq<char>,
    pub csrf: Seq<char>,
}

impl View for Ticket {
    type V = TicketView;

    open spec fn view(&self) -> TicketView {
        TicketView { cookie: self.cookie@, csrf: self.csrf@ }
    }
}

/// A client of the API: where it is, and how requests are authenticated.
#[derive(Debug)]
pub struct ProxmoxClient {
    pub base: String,
    pub auth: AuthConfig,
    pub ticket: Option<Ticket>,
}

/// The mathematical content of a [`ProxmoxClient`].
pub ghost struct ClientView {
    pub base: Seq<char>,
    pub auth: AuthView,
    pub ticket: Option<TicketView>,
}

impl View for ProxmoxClient {
    type V = ClientView;

    open spec fn view(&self) -> ClientView {
        ClientView {
            base: self.base@,
            auth: self.auth@,
            ticket: match self.ticket {
                Some(t) => Some(t@),
                None => None,
            },
        }
    }
}

impl Clone for Ticket {
    fn clone(&self) -> (r: Self)
        ensures
            r == *self,
    {
        Ticket { cookie: self.cookie.clone(), csrf: self.csrf.clone() }
    }
}

impl Clone for ProxmoxClient {
    fn clone(&self) -> (r: Self)
        ensures
            r == *self,
    {
        ProxmoxClient {
            base: self.base.clone(),
            auth: self.auth.clone(),
            ticket: match &self.ticket {
                Some(t) => Some(t.clone()),
                None => None,
            },
        }
    }
}

impl ClientView {
    /// The URL of an API path; leading slashes do not matter.
    pub open spec fn url(self, path: Seq<char>) -> Seq<char> {
        self.base + "/"@ + text::strip_leading(path, '/')
    }

    /// The headers that authenticate a request.  A token is sent with every
    /// request.  A ticket is sent as a cookie, and with the CSRF token where the
    /// request changes something; before the login nothing is sent.
    pub open spec fn headers(self, is_write: bool) -> Seq<(Seq<char>, Seq<char>)> {
        match (self.auth, self.ticket) {
            (AuthView::Token { user, token_name, token_value }, _) => seq![
                (
                    "Authorization"@,
                    "PVEAPIToken="@ + user + "!"@ + token_name + "="@ + token_value,
                ),
            ],
            (AuthView::Password { .. }, Some(t)) => {
                let cookie = ("cookie"@, "PVEAuthCookie="@ + t.cookie);
                if is_write {
                    seq![cookie, ("CSRFPreventionToken"@, t.csrf)]
                } else {
                    seq![cookie]
                }
            },
            (AuthView::Password { .. }, None) => seq![],
        }
    }

    /// The login request, where one is needed.
    pub open spec fn login(self) -> Option<RequestView> {
        match self.auth {
            AuthView::Token { .. } => None,
            AuthView::Password { user, realm, password } => Some(
                RequestView {
                    method: Method::Post,
                    url: self.base + "/access/ticket"@,
                    headers: seq![],
                    body: BodyView::Form(seq![("username"@, user + "@"@ + realm), ("password"@, password)]),
                },
            ),
        }
    }

    /// The request that reads a path.
    pub open spec fn get(self, path: Seq<char>) -> RequestView {
        RequestView {
            method: Method::Get,
            url: self.url(path),
            headers: self.headers(false),
            body: BodyView::Empty,
        }
    }

    /// The request that posts a JSON document to a path.
    pub open spec fn post(self, path: Seq<char>, document: Tree) -> RequestView {
        RequestView {
            method: Method::Post,
            url: self.url(path),
            headers: self.headers(true),
            body: BodyView::Document(document),
        }
    }

    /// The request that posts a form to a path.
    pub open spec fn post_form(self, path: Seq<char>, fields: Seq<(Seq<char>, Seq<char>)>) -> RequestView {
        RequestView {
            method: Method::Post,
            url: self.url(path),
            headers: self.headers(true),
            body: BodyView::Form(fields),
        }
    }

    /// The request that deletes a path.
    pub open spec fn delete(self, path: Seq<char>) -> RequestView {
        RequestView {
            method: Method::Delete,
            url: self.url(path),
            headers: self.headers(true),
            body: BodyView::Empty,
        }
    }
}

// ── Requests ─────────────────────────────────────────────────────────────────

/// An HTTP method.
#[derive(Debug, Clone, Copy, PartialEq, Eq, Structural)]
pub enum Method {
    Get,
    Post,
    Delete,
}

/// The body of a request.
#[derive(Debug)]
pub enum Body {
    Empty,
    Form(Vec<(String, String)>),
    Document(serde_json::Value),
}

/// An HTTP request.
#[derive(Debug)]
pub struct Request {
    pub method: Method,
    pub url: String,
    pub headers: Vec<(String, String)>,
    pub body: Body,
}

/// The mathematical content of a [`Body`].
pub ghost enum BodyView {
    Empty,
    Form(Seq<(Seq<char>, Seq<char>)>),
    Document(Tree),
}

/// The mathematical content of a [`Request`].
pub ghost struct RequestView {
    pub method: Method,
    pub url: Seq<char>,
    pub headers: Seq<(Seq<char>, Seq<char>)>,
    pub body: BodyView,
}

impl View for Body {
    type V = BodyView;

    open spec fn view(&self) -> BodyView {
        match self {
            Body::Empty => BodyView::Empty,
            Body::Form(fields) => BodyView::Form(text::pairs(fields@)),
            Body::Document(v) => BodyView::Document(json::value_tree(*v)),
        }
    }
}

impl View for Request {
    type V = RequestView;

    open spec fn view(&self) -> RequestView {
        RequestView {
            method: self.method,
            url: self.url@,
            headers: text::pairs(self.headers@),
            body: self.body@,
        }
    }
}

impl ProxmoxClient {
    /// A client that has not logged in yet.
    pub fn new(cfg: &ProxmoxConfig) -> (r: ProxmoxClient)
        ensures
            r@ == (ClientView { base: cfg@.base_url(), auth: cfg@.auth, ticket: None }),
    {
        ProxmoxClient { base: cfg.base_url(), auth: cfg.auth.clone(), ticket: None }
    }

    /// The URL of an API path.
    pub fn url(&self, path: &str) -> (r: String)
        ensures
            r@ == self@.url(path@),
    {
        self.base.clone().concat("/").concat(text::trim_start_char(path, '/').as_str())
    }

    /// The login request; `None` for token authentication, which needs no login.
    pub fn authenticate(&self) -> (r: Option<Request>)
        ensures
            match r {
                Some(request) => self@.login() == Some(request@),
                None => self@.login() is None,
            },
    {
        broadcast use text::lemma_pairs_push;

        match &self.auth {
            AuthConfig::Token { .. } => None,
            AuthConfig::Password { user, realm, password } => {
                let mut fields: Vec<(String, String)> = Vec::new();
                fields.push(("username".to_string(), user.clone().concat("@").concat(realm.as_str())));
                fields.push(("password".to_string(), password.clone()));
                assert(text::pairs(fields@) =~= seq![
                    ("username"@, user@ + "@"@ + realm@),
                    ("password"@, password@),
                ]);
                let headers: Vec<(String, String)> = Vec::new();
                assert(text::pairs(headers@) =~= seq![]);
                Some(
                    Request {
                        method: Method::Post,
                        url: self.base.clone().concat("/access/ticket"),
                        headers,
                        body: Body::Form(fields),
                    },
                )
            },
        }
    }

    /// The request that reads a path.
    pub fn get(&self, path: &str) -> (r: Request)
        ensures
            r@ == self@.get(path@),
    {
        Request { method: Method::Get, url: self.url(path), headers: self.auth_headers(false), body: Body::Empty }
    }

    /// The request that posts a JSON document to a path.
    pub fn post(&self, path: &str, document: serde_json::Value) -> (r: Request)
        ensures
            r@ == self@.post(path@, json::value_tree(document)),
    {
        Request {
            method: Method::Post,
            url: self.url(path),
            headers: self.auth_headers(true),
            body: Body::Document(document),
        }
    }

    /// The request that posts a form to a path.
    pub fn post_form(&self, path: &str, fields: Vec<(String, String)>) -> (r: Request)
        ensures
            r@ == self@.post_form(path@, text::pairs(fields@)),
    {
        Request {
            method: Method::Post,
            url: self.url(path),
            headers: self.auth_headers(true),
            body: Body::Form(fields),
        }
    }

    /// The request that deletes a path.
    pub fn delete(&self, path: &str) -> (r: Request)
        ensures
            r@ == self@.delete(path@),
    {
        Request { method: Method::Delete, url: self.url(path), headers: self.auth_headers(true), body: Body::Empty }
    }

    /// Keeps the ticket that the login gave.
    pub fn logged_in(&mut self, ticket: Ticket)
        ensures
            final(self)@ == (ClientView { ticket: Some(ticket@), ..old(self)@ }),
    {
        self.ticket = Some(ticket);
    }

    /// The headers that authenticate a request.
    pub fn auth_headers(&self, is_write: bool) -> (r: Vec<(String, String)>)
        ensures
            text::pairs(r@) == self@.headers(is_write),
    {
        broadcast use text::lemma_pairs_push;

        let mut out: Vec<(String, String)> = Vec::new();
        match &self.auth {
            AuthConfig::Token { user, token_name, token_value } => {
                let value = "PVEAPIToken=".to_string().concat(user.as_str()).concat("!").concat(
                    token_name.as_str(),
                ).concat("=").concat(token_value.as_str());
                out.push(("Authorization".to_string(), value));
            },
            AuthConfig::Password { .. } => {
                if let Some(t) = &self.ticket {
                    out.push(("cookie".to_string(), "PVEAuthCookie=".to_string().concat(t.cookie.as_str())));
                    if is_write {
                        out.push(("CSRFPreventionToken".to_string(), t.csrf.clone()));
                    }
                }
            },
        }
        assert(text::pairs(out@) =~= self@.headers(is_write));
        out
    }
}

/// The error for a login reply that holds no ticket.
pub fn ticket_error(cause: &str) -> (r: Error)
    ensures
        r@ == (ErrorView::ProxmoxApi { status: 200, message: cause@ }),
{
    Error::ProxmoxApi { status: 200, message: cause.to_string() }
}

// ── Replies ──────────────────────────────────────────────────────────────────

/// Whether an HTTP status means success.
pub open spec fn is_success(status: u16) -> bool {
    200 <= status < 300
}

/// One validation error of an error reply.
pub open spec fn error_line(m: (Seq<char>, Tree)) -> Seq<char> {
    m.0 + ": "@ + (match json::text_of(m.1) {
        Some(s) => s,
        None => "?"@,
    })
}

/// The message of an error reply: its validation errors, else its message, else
/// the status line.
pub open spec fn error_message(body: Tree, reason: Seq<char>) -> Seq<char> {
    match (json::member(body, "errors"@), json::text_of(json::member(body, "message"@))) {
        (Tree::Object(members), _) => text::joined(
            members.map_values(|m: (Seq<char>, Tree)| error_line(m)),
            "; "@,
        ),
        (_, Some(message)) => message,
        _ => reason,
    }
}

/// What a reply with a JSON body means: its `data` on success, else an error.
pub open spec fn interpreted(status: u16, reason: Seq<char>, body: Tree) -> Result<Tree, ErrorView> {
    if is_success(status) {
        Ok(json::member(body, "data"@))
    } else {
        Err(ErrorView::ProxmoxApi { status, message: error_message(body, reason) })
    }
}

/// A reply that is not understood is quoted up to this many bytes.
pub const MAX_SNIPPET_BYTES: usize = 300;

/// Whether the first `k` characters of a text can be quoted.
pub open spec fn fits(s: Seq<char>, k: int) -> bool {
    encode_utf8(s.take(k)).len() <= MAX_SNIPPET_BYTES
}

/// How many of the first `k` characters of a text can be quoted.
pub open spec fn fitting(s: Seq<char>, k: int) -> int
    decreases k,
{
    if k <= 0 {
        0
    } else if fits(s, k) {
        k
    } else {
        fitting(s, k - 1)
    }
}

/// The longest beginning of a text, in whole characters, that can be quoted.
pub open spec fn snippet(s: Seq<char>) -> Seq<char> {
    s.take(fitting(s, s.len() as int))
}

/// What a reply means: a blank body stands for null; any other body is JSON.
/// `parsed` is what the text of the body denotes.
pub open spec fn extracted(
    status: u16,
    reason: Seq<char>,
    body: Seq<char>,
    parsed: Result<Tree, Seq<char>>,
) -> Result<Tree, ErrorView> {
    if text::trimmed(body).len() == 0 {
        if is_success(status) {
            Ok(Tree::Null)
        } else {
            Err(ErrorView::ProxmoxApi { status, message: reason })
        }
    } else {
        match parsed {
            Ok(tree) => interpreted(status, reason, tree),
            Err(cause) => Err(
                ErrorView::ProxmoxApi {
                    status,
                    message: "could not parse Proxmox response as JSON: "@ + cause + " — body: "@ + snippet(body),
                },
            ),
        }
    }
}

/// Whether `r` is the document or the error `expected`.
pub open spec fn is_reply(r: Result<serde_json::Value, Error>, expected: Result<Tree, ErrorView>) -> bool {
    match (r, expected) {
        (Ok(v), Ok(t)) => json::value_tree(v) == t,
        (Err(e), Err(x)) => e@ == x,
        _ => false,
    }
}

/// The message of an error reply.
pub fn describe_error(body: &Json, reason: &str) -> (r: String)
    ensures
        r@ == error_message(body.tree(), reason@),
{
    broadcast use text::lemma_strs_push;

    if let Some(Json::Object(members)) = body.get("errors") {
        let ghost all = json::member_trees(members@).map_values(|m: (Seq<char>, Tree)| error_line(m));
        proof {
            json::lemma_member_trees(members@);
        }
        let mut lines: Vec<String> = Vec::new();
        let mut i: usize = 0;
        assert(text::strs(lines@) =~= all.take(0));
        while i < members.len()
            invariant
                i <= members@.len(),
                all == json::member_trees(members@).map_values(|m: (Seq<char>, Tree)| error_line(m)),
                all.len() == members@.len(),
                forall|j: int|
                    0 <= j < members@.len() ==> #[trigger] json::member_trees(members@)[j] == (
                        members@[j].0@,
                        members@[j].1.tree(),
                    ),
                text::strs(lines@) == all.take(i as int),
            decreases members@.len() - i,
        {
            let shown = match members[i].1.as_str() {
                Some(s) => s.to_string(),
                None => "?".to_string(),
            };
            let line = members[i].0.clone().concat(": ").concat(shown.as_str());
            assert(json::member_trees(members@)[i as int] == (members@[i as int].0@, members@[i as int].1.tree()));
            assert(line@ == all[i as int]);
            lines.push(line);
            assert(all.take(i as int).push(all[i as int]) =~= all.take(i + 1));
            i += 1;
        }
        assert(all.take(all.len() as int) =~= all);
        return text::join(&lines, "; ");
    }
    match body.text_at("message") {
        Some(m) => m.to_string(),
        None => reason.to_string(),
    }
}

/// What a reply with a JSON body means: its `data` on success, else an error.
/// `reason` is the status line.
pub fn interpret_body(status: u16, reason: &str, body: &serde_json::Value) -> (r: Result<serde_json::Value, Error>)
    ensures
        is_reply(r, interpreted(status, reason@, json::value_tree(*body))),
{
    if 200 <= status && status < 300 {
        Ok(json::member_value(body, "data"))
    } else {
        let message = describe_error(&Json::from_value(body), reason);
        Err(Error::ProxmoxApi { status, message })
    }
}

proof fn lemma_encode_concat(a: Seq<char>, b: Seq<char>)
    ensures
        encode_utf8(a + b) == encode_utf8(a) + encode_utf8(b),
    decreases a.len(),
{
    if a.len() == 0 {
        assert(a + b =~= b);
        assert(encode_utf8(a) + encode_utf8(b) =~= encode_utf8(b));
    } else {
        assert((a + b).drop_first() =~= a.drop_first() + b);
        lemma_encode_concat(a.drop_first(), b);
        assert(encode_utf8(a + b) =~= encode_utf8(a) + encode_utf8(b));
    }
}

/// Where `i` characters can be quoted and one more cannot, no more can.
proof fn lemma_fitting(s: Seq<char>, i: int, k: int)
    requires
        0 <= i <= k <= s.len(),
        i > 0 ==> fits(s, i),
        i < s.len() ==> !fits(s, i + 1),
    ensures
        fitting(s, k) == i,
    decreases k,
{
    if k > i {
        let more = s.subrange(i + 1, k);
        assert(s.take(k) =~= s.take(i + 1) + more);
        lemma_encode_concat(s.take(i + 1), more);
        lemma_fitting(s, i, k - 1);
    }
}

/// A snippet is a beginning of the text that can be quoted, and there is no
/// longer one.
pub proof fn law_snippets_are_as_long_as_can_be(s: Seq<char>, k: int)
    requires
        0 <= k <= s.len(),
    ensures
        snippet(s).is_prefix_of(s),
        encode_utf8(snippet(s)).len() <= MAX_SNIPPET_BYTES,
        fits(s, k) ==> k <= snippet(s).len(),
{
    lemma_fitting_is_last(s, s.len() as int, k);
    assert(snippet(s) =~= s.take(snippet(s).len() as int));
    if snippet(s).len() == 0 {
        assert(snippet(s) =~= seq![]);
    }
}

proof fn lemma_fitting_is_last(s: Seq<char>, n: int, k: int)
    requires
        0 <= n <= s.len(),
    ensures
        0 <= fitting(s, n) <= n,
        fitting(s, n) > 0 ==> fits(s, fitting(s, n)),
        k <= n && fits(s, k) ==> k <= fitting(s, n),
    decreases n,
{
    if n > 0 && !fits(s, n) {
        lemma_fitting_is_last(s, n - 1, k);
    }
}

fn quote(s: &str) -> (r: String)
    ensures
        r@ == snippet(s@),
{
    let cs = text::chars_of(s);
    let mut out = String::new();
    let mut i: usize = 0;
    assert(out@ =~= s@.take(0));
    while i < cs.len()
        invariant
            i <= cs@.len(),
            cs@ == s@,
            out@ == s@.take(i as int),
            i > 0 ==> fits(s@, i as int),
        decreases cs@.len() - i,
    {
        let mut next = out.clone();
        next.push(cs[i]);
        assert(next@ =~= s@.take(i + 1));
        if next.as_str().as_bytes().len() > MAX_SNIPPET_BYTES {
            proof {
                lemma_fitting(s@, i as int, s@.len() as int);
            }
            return out;
        }
        out = next;
        i += 1;
    }
    proof {
        lemma_fitting(s@, i as int, s@.len() as int);
    }
    out
}

/// The error for a body that is not JSON.
pub fn unparsable_body(status: u16, body: &str, cause: &str) -> (r: Error)
    ensures
        r@ == (ErrorView::ProxmoxApi {
            status,
            message: "could not parse Proxmox response as JSON: "@ + cause@ + " — body: "@ + snippet(body@),
        }),
{
    Error::ProxmoxApi {
        status,
        message: "could not parse Proxmox response as JSON: ".to_string().concat(cause).concat(" — body: ").concat(
            quote(body).as_str(),
        ),
    }
}

/// What `reqwest::StatusCode` displays for a status: its number and its reason
/// phrase.
pub uninterp spec fn status_line(status: u16) -> Seq<char>;

/// Whether a number is an HTTP status: it has three digits.
pub open spec fn is_status(status: u16) -> bool {
    100 <= status < 1000
}

/// `reqwest::StatusCode::from_u16` and its `Display`: the text of a status.  Which
/// phrase goes with which number is not said.
#[verifier::external_body]
fn status_text(status: u16) -> (r: String)
    requires
        is_status(status),
    ensures
        r@ == status_line(status),
{
    reqwest::StatusCode::from_u16(status).map(|s| s.to_string()).unwrap_or_default()
}

/// What a reply means, given the text of its body.
pub fn extract_data(status: u16, body: &str) -> (r: Result<serde_json::Value, Error>)
    requires
        is_status(status),
    ensures
        is_reply(r, extracted(status, status_line(status), body@, json::parsed_json(body@))),
{
    if text::is_blank(body) {
        return if 200 <= status && status < 300 {
            Ok(json::null_value())
        } else {
            Err(Error::ProxmoxApi { status, message: status_text(status) })
        };
    }
    match json::parse_value(body) {
        Ok(v) => interpret_body(status, status_text(status).as_str(), &v),
        Err(cause) => Err(unparsable_body(status, body, cause.as_str())),
    }
}

// ── Polling ──────────────────────────────────────────────────────────────────

/// Seconds between two polls.
pub const POLL_DELAY_SECS: u64 = 2;

/// What to do after a poll.
#[derive(Debug)]
pub enum Poll<T> {
    /// Poll again.
    Again,
    /// What was waited for has come.
    Done(T),
    /// It will not come.
    Failed(Error),
}

/// The mathematical content of a [`Poll`] without a result.
pub ghost enum PollView {
    Again,
    Done,
    Failed(ErrorView),
}

/// Whether `p` is the outcome `expected`.
pub open spec fn is_outcome(p: Poll<()>, expected: PollView) -> bool {
    match (p, expected) {
        (Poll::Again, PollView::Again) => true,
        (Poll::Done(_), PollView::Done) => true,
        (Poll::Failed(e), PollView::Failed(x)) => e@ == x,
        _ => false,
    }
}

/// The API path of the status of a task.
pub fn task_path(node: &str, upid: &str) -> (r: String)
    ensures
        r@ == "nodes/"@ + node@ + "/tasks/"@ + upid@ + "/status"@,
{
    "nodes/".to_string().concat(node).concat("/tasks/").concat(upid).concat("/status")
}

/// A task is polled at most this often.
pub const MAX_TASK_POLLS: u32 = 120;

/// Waits for a task to end.
#[derive(Debug)]
pub struct TaskWait {
    pub upid: String,
    pub polls: u32,
}

/// What to do after poll number `polls` (counted from zero) of a task found the
/// given status.
pub open spec fn task_outcome(upid: Seq<char>, polls: int, reply: Tree) -> PollView {
    let status = match json::text_of(json::member(reply, "status"@)) {
        Some(s) => s,
        None => seq![],
    };
    let exit = match json::text_of(json::member(reply, "exitstatus"@)) {
        Some(s) => s,
        None => "unknown"@,
    };
    if status == "stopped"@ {
        if exit == "OK"@ {
            PollView::Done
        } else {
            PollView::Failed(ErrorView::TaskFailed("task "@ + upid + " exited with: "@ + exit))
        }
    } else if status == "running"@ {
        if polls + 1 < MAX_TASK_POLLS {
            PollView::Again
        } else {
            PollView::Failed(ErrorView::Timeout("task "@ + upid))
        }
    } else {
        PollView::Failed(ErrorView::TaskFailed("unexpected task state: "@ + status))
    }
}

impl TaskWait {
    /// A wait that has not polled yet.
    pub fn new(upid: &str) -> (r: TaskWait)
        ensures
            r.upid@ == upid@,
            r.polls == 0,
    {
        TaskWait { upid: upid.to_string(), polls: 0 }
    }

    /// Takes the reply to a poll.
    pub fn wait_for_task(&mut self, reply: &Json) -> (r: Poll<()>)
        requires
            old(self).polls < MAX_TASK_POLLS,
        ensures
            is_outcome(r, task_outcome(old(self).upid@, old(self).polls as int, reply.tree())),
            final(self).upid == old(self).upid,
            final(self).polls == old(self).polls + 1,
            r is Again ==> final(self).polls < MAX_TASK_POLLS,
    {
        self.polls = self.polls + 1;
        let status = match reply.text_at("status") {
            Some(s) => s.to_string(),
            None => String::new(),
        };
        if text::str_eq(status.as_str(), "stopped") {
            let exit = match reply.text_at("exitstatus") {
                Some(s) => s.to_string(),
                None => "unknown".to_string(),
            };
            if text::str_eq(exit.as_str(), "OK") {
                Poll::Done(())
            } else {
                Poll::Failed(
                    Error::TaskFailed(
                        "task ".to_string().concat(self.upid.as_str()).concat(" exited with: ").concat(exit.as_str()),
                    ),
                )
            }
        } else if text::str_eq(status.as_str(), "running") {
            if self.polls < MAX_TASK_POLLS {
                Poll::Again
            } else {
                Poll::Failed(Error::Timeout("task ".to_string().concat(self.upid.as_str())))
            }
        } else {
            Poll::Failed(Error::TaskFailed("unexpected task state: ".to_string().concat(status.as_str())))
        }
    }
}

// ── Laws ─────────────────────────────────────────────────────────────────────

/// A reply without a success status is always an API error with that status,
/// whatever its body; a reply with one yields the `data` of its JSON body, or
/// null for a blank body.  Any other body is an API error, too.
pub proof fn law_status_decides(
    status: u16,
    reason: Seq<char>,
    body: Seq<char>,
    parsed: Result<Tree, Seq<char>>,
)
    ensures
        extracted(status, reason, body, parsed) is Ok <==> is_success(status) && (text::trimmed(body).len() == 0
            || parsed is Ok),
        extracted(status, reason, body, parsed) matches Err(e) ==> (e matches ErrorView::ProxmoxApi { status: s, .. }
            && s == status),
        is_success(status) && text::trimmed(body).len() == 0 ==> extracted(status, reason, body, parsed) == Ok::<
            Tree,
            ErrorView,
        >(Tree::Null),
        is_success(status) && text::trimmed(body).len() > 0 && parsed is Ok ==> extracted(
            status,
            reason,
            body,
            parsed,
        ) == Ok::<Tree, ErrorView>(json::member(parsed->Ok_0, "data"@)),
{
}

/// Token authentication needs no login and sends the same header with every
/// request.
pub proof fn law_tokens_need_no_login(c: ClientView, is_write: bool)
    requires
        c.auth is Token,
    ensures
        c.login() is None,
        c.headers(is_write) == c.headers(!is_write),
        c.headers(is_write).len() == 1,
{
}

/// With password authentication nothing is sent before the login; after it the
/// CSRF token goes with the requests that change something, and only with them.
pub proof fn law_csrf_goes_with_writes(c: ClientView, t: TicketView)
    requires
        c.auth is Password,
    ensures
        c.login() is Some,
        (ClientView { ticket: None, ..c }).headers(true).len() == 0,
        (ClientView { ticket: None, ..c }).headers(false).len() == 0,
        (ClientView { ticket: Some(t), ..c }).headers(true).contains(("CSRFPreventionToken"@, t.csrf)),
        forall|i: int|
            0 <= i < (ClientView { ticket: Some(t), ..c }).headers(false).len() ==> (
            #[trigger] (ClientView { ticket: Some(t), ..c }).headers(false)[i]).0 != "CSRFPreventionToken"@,
{
    let after = ClientView { ticket: Some(t), ..c };
    assert(after.headers(true)[1] == ("CSRFPreventionToken"@, t.csrf));
    reveal_strlit("CSRFPreventionToken");
    reveal_strlit("cookie");
    assert("cookie"@.len() != "CSRFPreventionToken"@.len());
}

/// Whatever a task reports, its wait is over after the last poll.
pub proof fn law_task_polls_are_bounded(upid: Seq<char>, reply: Tree)
    ensures
        task_outcome(upid, MAX_TASK_POLLS - 1, reply) != PollView::Again,
{
}

} // verus!
