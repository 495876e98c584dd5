//! The print server's HTTP interface: the requests the agent sends, their
//! JSON bodies, and how a reply is judged.
use vstd::prelude::*;
use crate::text::{decimal, decimal_string, lemma_trim_end_char, trim_end_char, trim_end_matches};

verus! {

/// The server's list of open print jobs.
#[derive(Debug)]
pub struct QueueResponse {
    pub jobs: Vec<QueueItem>,
}

/// One open print job.
#[derive(Debug, Clone)]
pub struct QueueItem {
    pub queue_id: String,
    pub job_id: String,
    pub label_format: Option<String>,
}

/// The server's answer to a claim.
#[derive(Debug)]
pub struct ClaimResponse {
    pub ok: bool,
    pub file_url: Option<String>,
    pub label_format: Option<String>,
}

/// The body of a claim: which agent claims the job.
#[derive(Debug)]
pub struct ClaimBody {
    pub agent_id: String,
}

/// The body of a result report.
#[derive(Debug)]
pub struct DoneBody {
    pub success: bool,
    pub error: Option<String>,
}

/// The JSON escape of one character inside a string literal, as serde_json
/// writes it: `"` and `\` and the control characters below U+0020 are
/// escaped, every other character stands for itself.
pub open spec fn json_escape_char(c: char) -> Seq<char> {
    let u = c as u32;
    if c == '"' {
        seq!['\\', '"']
    } else if c == '\\' {
        seq!['\\', '\\']
    } else if u == 0x08 {
        seq!['\\', 'b']
    } else if u == 0x0c {
        seq!['\\', 'f']
    } else if c == '\n' {
        seq!['\\', 'n']
    } else if c == '\r' {
        seq!['\\', 'r']
    } else if c == '\t' {
        seq!['\\', 't']
    } else if u < 0x20 {
        seq!['\\', 'u', '0', '0', if u < 0x10 { '0' } else { '1' }, lower_hex_digit(u % 16)]
    } else {
        seq![c]
    }
}

/// The lower-case hexadecimal digit of `d < 16`.
pub open spec fn lower_hex_digit(d: u32) -> char {
    if d < 10 {
        crate::text::digit_char(d as int)
    } else if d == 10 {
        'a'
    } else if d == 11 {
        'b'
    } else if d == 12 {
        'c'
    } else if d == 13 {
        'd'
    } else if d == 14 {
        'e'
    } else {
        'f'
    }
}

/// The escaped characters of `s`.
pub open spec fn json_escape(s: Seq<char>) -> Seq<char>
    decreases s.len(),
{
    if s.len() == 0 {
        Seq::<char>::empty()
    } else {
        json_escape(s.drop_last()) + json_escape_char(s.last())
    }
}

/// The JSON string literal of `s`.
pub open spec fn json_string(s: Seq<char>) -> Seq<char> {
    seq!['"'] + json_escape(s) + seq!['"']
}

/// The JSON string literal of `s` (`serde_json::to_string` on a `str`).
/// Claimed of it: the result is `s` between double quotes, each character
/// escaped as `json_escape_char` says; serialising a `str` cannot fail.
#[verifier::external_body]
fn json_quote(s: &str) -> (lit: String)
    ensures
        lit@ == json_string(s@),
{
    serde_json::to_string(s).unwrap_or_default()
}

/// The JSON text of a claim body: `{"agent_id":<agent id>}`.
pub open spec fn claim_json(agent_id: Seq<char>) -> Seq<char> {
    "{\"agent_id\":"@ + json_string(agent_id) + "}"@
}

/// The JSON text of a report body: `{"success":<bool>,"error":<string or null>}`.
pub open spec fn done_json(success: bool, error: Option<Seq<char>>) -> Seq<char> {
    "{\"success\":"@ + (if success {
        "true"@
    } else {
        "false"@
    }) + ",\"error\":"@ + match error {
        Some(e) => json_string(e),
        None => "null"@,
    } + "}"@
}

impl ClaimBody {
    /// The body as compact JSON, as serde_json serialises it.
    pub fn to_json(&self) -> (json: String)
        ensures
            json@ == claim_json(self.agent_id@),
    {
        let mut json = "{\"agent_id\":".to_string();
        let lit = json_quote(self.agent_id.as_str());
        json.append(lit.as_str());
        json.append("}");
        json
    }
}

impl DoneBody {
    /// The body as compact JSON, as serde_json serialises it.
    pub fn to_json(&self) -> (json: String)
        ensures
            json@ == done_json(
                self.success,
                match self.error {
                    Some(e) => Some(e@),
                    None => None,
                },
            ),
    {
        let mut json = "{\"success\":".to_string();
        if self.success {
            json.append("true");
        } else {
            json.append("false");
        }
        json.append(",\"error\":");
        match &self.error {
            Some(e) => {
                let lit = json_quote(e.as_str());
                json.append(lit.as_str());
            },
            None => {
                json.append("null");
            },
        }
        json.append("}");
        json
    }
}

/// The HTTP method of a request.
#[derive(Debug, Clone, Copy, PartialEq, Eq, Structural)]
pub enum HttpMethod {
    Get,
    Post,
}

/// A request to the print server, ready to send.
#[derive(Debug)]
pub struct HttpRequest {
    pub method: HttpMethod,
    pub url: String,
    pub headers: Vec<(String, String)>,
    pub body: Option<String>,
}

/// The header that carries the agent's API key.
pub open spec fn api_key_header() -> Seq<char> {
    "X-Agent-API-Key"@
}

/// The header that marks a JSON body.
pub open spec fn content_type_header() -> Seq<char> {
    "content-type"@
}

/// The media type of a JSON body.
pub open spec fn json_media_type() -> Seq<char> {
    "application/json"@
}

impl HttpRequest {
    /// This request is `method url`, carries the API key `key` and, with a
    /// body, marks it as JSON.
    pub open spec fn is_request(
        &self,
        method: HttpMethod,
        url: Seq<char>,
        key: Seq<char>,
        body: Option<Seq<char>>,
    ) -> bool {
        &&& self.method == method
        &&& self.url@ == url
        &&& match body {
            None => {
                &&& self.body is None
                &&& self.headers@.len() == 1
            },
            Some(b) => {
                &&& self.body matches Some(sent) && sent@ == b
                &&& self.headers@.len() == 2
                &&& self.headers@[1].0@ == content_type_header()
                &&& self.headers@[1].1@ == json_media_type()
            },
        }
        &&& self.headers@[0].0@ == api_key_header()
        &&& self.headers@[0].1@ == key
    }
}

/// The client's view of the print server: its base URL and the agent's API key.
#[derive(Debug)]
pub struct ApiClient {
    pub server_url: String,
    pub api_key: String,
}

/// The path of the open job list.
pub open spec fn queue_path() -> Seq<char> {
    "/api/print/queue"@
}

/// The path prefix of claims.
pub open spec fn claim_path() -> Seq<char> {
    "/api/print/claim/"@
}

/// The path prefix of PDF downloads.
pub open spec fn file_path() -> Seq<char> {
    "/api/print/file/"@
}

/// The path prefix of result reports.
pub open spec fn done_path() -> Seq<char> {
    "/api/print/done/"@
}

/// The path of the print configuration.
pub open spec fn config_path() -> Seq<char> {
    "/api/print/config"@
}

impl ApiClient {
    /// A client for the server at `server_url` (without its trailing
    /// slashes), sending `api_key`.
    pub fn new(server_url: &str, api_key: &str) -> (client: Self)
        ensures
            client.server_url@ == trim_end_char(server_url@, '/'),
            client.api_key@ == api_key@,
    {
        ApiClient { server_url: trim_end_matches(server_url, '/'), api_key: api_key.to_string() }
    }

    fn url(&self, path: &str, tail: &str) -> (url: String)
        ensures
            url@ == self.server_url@ + path@ + tail@,
    {
        let mut url = self.server_url.clone();
        url.append(path);
        url.append(tail);
        url
    }

    fn request(&self, method: HttpMethod, url: String, body: Option<String>) -> (req: HttpRequest)
        ensures
            req.is_request(
                method,
                url@,
                self.api_key@,
                match body {
                    Some(b) => Some(b@),
                    None => None,
                },
            ),
    {
        let mut headers: Vec<(String, String)> = Vec::new();
        headers.push(("X-Agent-API-Key".to_string(), self.api_key.clone()));
        if body.is_some() {
            headers.push(("content-type".to_string(), "application/json".to_string()));
        }
        HttpRequest { method, url, headers, body }
    }

    /// The request for the open job list: `GET <server>/api/print/queue`.
    pub fn queue_request(&self) -> (req: HttpRequest)
        ensures
            req.is_request(HttpMethod::Get, self.server_url@ + queue_path(), self.api_key@, None),
    {
        let url = self.url("/api/print/queue", "");
        proof {
            reveal_strlit("");
            assert(url@ =~= self.server_url@ + queue_path());
        }
        self.request(HttpMethod::Get, url, None)
    }

    /// The claim of job `queue_id` for agent `agent_id`:
    /// `POST <server>/api/print/claim/<queue_id>` with `{"agent_id":...}`.
    pub fn claim_request(&self, queue_id: &str, agent_id: &str) -> (req: HttpRequest)
        ensures
            req.is_request(
                HttpMethod::Post,
                self.server_url@ + claim_path() + queue_id@,
                self.api_key@,
                Some(claim_json(agent_id@)),
            ),
    {
        let url = self.url("/api/print/claim/", queue_id);
        let body = ClaimBody { agent_id: agent_id.to_string() };
        self.request(HttpMethod::Post, url, Some(body.to_json()))
    }

    /// The download of the PDF of job `queue_id`: `GET <server>/api/print/file/<queue_id>`.
    pub fn file_request(&self, queue_id: &str) -> (req: HttpRequest)
        ensures
            req.is_request(
                HttpMethod::Get,
                self.server_url@ + file_path() + queue_id@,
                self.api_key@,
                None,
            ),
    {
        let url = self.url("/api/print/file/", queue_id);
        self.request(HttpMethod::Get, url, None)
    }

    /// The report of the result of job `queue_id`:
    /// `POST <server>/api/print/done/<queue_id>` with `{"success":...,"error":...}`.
    pub fn done_request(&self, queue_id: &str, success: bool, error: Option<String>) -> (req:
        HttpRequest)
        ensures
            req.is_request(
                HttpMethod::Post,
                self.server_url@ + done_path() + queue_id@,
                self.api_key@,
                Some(
                    done_json(
                        success,
                        match error {
                            Some(e) => Some(e@),
                            None => None,
                        },
                    ),
                ),
            ),
    {
        let url = self.url("/api/print/done/", queue_id);
        let body = DoneBody { success, error };
        self.request(HttpMethod::Post, url, Some(body.to_json()))
    }

    /// The request for the server's print configuration, which also serves
    /// as the connection test: `GET <server>/api/print/config`.
    pub fn config_request(&self) -> (req: HttpRequest)
        ensures
            req.is_request(HttpMethod::Get, self.server_url@ + config_path(), self.api_key@, None),
    {
        let url = self.url("/api/print/config", "");
        proof {
            reveal_strlit("");
            assert(url@ =~= self.server_url@ + config_path());
        }
        self.request(HttpMethod::Get, url, None)
    }
}


/// The reason phrase that the HTTP standard gives status `code`, if it gives one.
pub uninterp spec fn canonical_reason(code: u16) -> Option<Seq<char>>;

/// The standard reason phrase of status `code`
/// (`reqwest::StatusCode::canonical_reason`). Claimed of it: the phrase is
/// the one named by `canonical_reason`, absent where the standard gives none.
#[verifier::external_body]
fn status_reason(code: u16) -> (reason: Option<String>)
    requires
        100 <= code <= 999,
    ensures
        match reason {
            Some(r) => canonical_reason(code) == Some(r@),
            None => canonical_reason(code) is None,
        },
{
    match reqwest::StatusCode::from_u16(code) {
        Ok(status) => match status.canonical_reason() {
            Some(r) => Some(r.to_string()),
            None => None,
        },
        Err(_) => None,
    }
}

/// Whether status `code` reports success, as `StatusCode::is_success` decides:
/// the codes from 200 to 299 do.
pub fn status_is_success(code: u16) -> (ok: bool)
    ensures
        ok == (200 <= code < 300),
{
    200 <= code && code < 300
}

/// The text of status `code` as a status line shows it: the number, a space
/// and the reason phrase (`<unknown status code>` where there is none).
pub open spec fn status_text(code: u16) -> Seq<char> {
    decimal(code as nat) + " "@ + match canonical_reason(code) {
        Some(r) => r,
        None => "<unknown status code>"@,
    }
}

/// The text of status `code`, as `StatusCode`'s `Display` writes it.
pub fn status_line(code: u16) -> (line: String)
    requires
        100 <= code <= 999,
    ensures
        line@ == status_text(code),
{
    let mut line = decimal_string(code as u64);
    line.append(" ");
    match status_reason(code) {
        Some(r) => line.append(r.as_str()),
        None => line.append("<unknown status code>"),
    }
    line
}

/// The server endpoints the agent calls.
#[derive(Debug, Clone, Copy, PartialEq, Eq, Structural)]
pub enum Endpoint {
    /// `GET /api/print/queue`
    Queue,
    /// `POST /api/print/claim/<id>`
    Claim,
    /// `GET /api/print/file/<id>`
    File,
    /// `POST /api/print/done/<id>`
    Done,
    /// `GET /api/print/config`
    Config,
}

/// A status code as the HTTP client hands it out.
pub open spec fn is_status_code(code: u16) -> bool {
    100 <= code <= 999
}

/// The message for a request to `ep` that could not be sent, for the
/// transport's error text `e`.
pub open spec fn send_failure_text(ep: Endpoint, e: Seq<char>) -> Seq<char> {
    if ep is Queue {
        "Verbindung fehlgeschlagen: "@ + e
    } else {
        e
    }
}

/// The message prefix for a reply from `ep` whose status is not a success;
/// none for the configuration, whose status is not checked.
pub open spec fn status_failure_prefix(ep: Endpoint) -> Option<Seq<char>> {
    match ep {
        Endpoint::Queue => Some("Server-Fehler: "@),
        Endpoint::Claim => Some("Claim fehlgeschlagen: "@),
        Endpoint::File => Some("Download fehlgeschlagen: "@),
        Endpoint::Done => Some("Report fehlgeschlagen: "@),
        Endpoint::Config => None,
    }
}

/// What a call of `ep` comes to, given the transport's outcome: the status
/// code of the reply, or the error text of a request that was not sent.
/// `Ok` means the reply's body may be read.
pub open spec fn reply_outcome(ep: Endpoint, sent: Result<u16, Seq<char>>) -> Result<(), Seq<char>> {
    match sent {
        Err(e) => Err(send_failure_text(ep, e)),
        Ok(code) => match status_failure_prefix(ep) {
            Some(prefix) => if 200 <= code < 300 {
                Ok(())
            } else {
                Err(prefix + status_text(code))
            },
            None => Ok(()),
        },
    }
}

/// The transport's outcome as a value of views.
pub open spec fn sent_view(sent: Result<u16, String>) -> Result<u16, Seq<char>> {
    match sent {
        Ok(code) => Ok(code),
        Err(e) => Err(e@),
    }
}

/// Judges the reply to a call of `ep`: `Ok` when its body may be read, or
/// the error message the call fails with.
pub fn check_reply(ep: Endpoint, sent: Result<u16, String>) -> (r: Result<(), String>)
    requires
        sent matches Ok(code) ==> is_status_code(code),
    ensures
        match r {
            Ok(()) => reply_outcome(ep, sent_view(sent)) == Ok::<(), Seq<char>>(()),
            Err(m) => reply_outcome(ep, sent_view(sent)) == Err::<(), Seq<char>>(m@),
        },
        match sent {
            Ok(code) => (r is Ok <==> (ep is Config || 200 <= code < 300)),
            Err(_) => r is Err,
        },
{
    match sent {
        Err(e) => {
            if ep == Endpoint::Queue {
                let mut m = "Verbindung fehlgeschlagen: ".to_string();
                m.append(e.as_str());
                Err(m)
            } else {
                Err(e)
            }
        },
        Ok(code) => {
            let prefix = match ep {
                Endpoint::Queue => "Server-Fehler: ",
                Endpoint::Claim => "Claim fehlgeschlagen: ",
                Endpoint::File => "Download fehlgeschlagen: ",
                Endpoint::Done => "Report fehlgeschlagen: ",
                Endpoint::Config => {
                    return Ok(());
                },
            };
            if status_is_success(code) {
                Ok(())
            } else {
                let mut m = prefix.to_string();
                let line = status_line(code);
                m.append(line.as_str());
                Err(m)
            }
        },
    }
}

/// What the connection test comes to: whether the server answered with a
/// success, or the message for a request that could not be sent.
pub open spec fn health_outcome(sent: Result<u16, Seq<char>>) -> Result<bool, Seq<char>> {
    match sent {
        Err(e) => Err("Verbindung fehlgeschlagen: "@ + e),
        Ok(code) => Ok(200 <= code < 300),
    }
}

/// Judges the reply to the connection test.
pub fn health_from_reply(sent: Result<u16, String>) -> (r: Result<bool, String>)
    requires
        sent matches Ok(code) ==> is_status_code(code),
    ensures
        match r {
            Ok(b) => health_outcome(sent_view(sent)) == Ok::<bool, Seq<char>>(b),
            Err(m) => health_outcome(sent_view(sent)) == Err::<bool, Seq<char>>(m@),
        },
        match sent {
            Ok(code) => r matches Ok(b) && b == (200 <= code < 300),
            Err(_) => r is Err,
        },
{
    match sent {
        Err(e) => {
            let mut m = "Verbindung fehlgeschlagen: ".to_string();
            m.append(e.as_str());
            Err(m)
        },
        Ok(code) => Ok(status_is_success(code)),
    }
}


/// A report body tells success and failure apart: the body of a success
/// report is never that of a failure report.
pub proof fn lemma_done_json_tells_success(e1: Option<Seq<char>>, e2: Option<Seq<char>>)
    ensures
        done_json(true, e1) != done_json(false, e2),
{
    reveal_strlit("{\"success\":");
    reveal_strlit("true");
    reveal_strlit("false");
    assert(done_json(true, e1)[11] == 't');
    assert(done_json(false, e2)[11] == 'f');
}


/// The client's base URL is the given server URL without its trailing
/// slashes: a prefix of it, followed there only by slashes, that does not end
/// with a slash itself, so that normalising it again changes nothing.
pub proof fn lemma_base_url_normal(server_url: Seq<char>, client: ApiClient)
    requires
        client.server_url@ == trim_end_char(server_url, '/'),
    ensures
        client.server_url@ == server_url.subrange(0, client.server_url@.len() as int),
        forall|i: int|
            client.server_url@.len() <= i < server_url.len() ==> #[trigger] server_url[i] == '/',
        client.server_url@.len() == 0 || client.server_url@.last() != '/',
        trim_end_char(client.server_url@, '/') == client.server_url@,
{
    lemma_trim_end_char(server_url, '/');
}


/// A reply is accepted exactly when its status is a success (200 to 299), for
/// every endpoint whose status is checked (all but the configuration, whose
/// reply is always read); a request that could not be sent always fails; and
/// a rejected reply's message ends with the reply's status text.
pub proof fn lemma_reply_accepted_iff_success(ep: Endpoint, code: u16, e: Seq<char>)
    ensures
        !(ep is Config) ==> (reply_outcome(ep, Ok(code)) is Ok <==> 200 <= code < 300),
        ep is Config ==> reply_outcome(ep, Ok(code)) is Ok,
        reply_outcome(ep, Err(e)) is Err,
        reply_outcome(ep, Ok(code)) matches Err(m) ==> m.len() >= status_text(code).len()
            && m.subrange(m.len() - status_text(code).len(), m.len() as int) == status_text(code),
{
    if let Err(m) = reply_outcome(ep, Ok(code)) {
        let p = status_failure_prefix(ep)->0;
        assert(m == p + status_text(code));
        assert(m.subrange(m.len() - status_text(code).len(), m.len() as int) =~= status_text(code));
    }
}

/// The connection test reports a working connection exactly when the server
/// answers with a success (200 to 299), and fails when the request could not
/// be sent.
pub proof fn lemma_health_iff_success(code: u16, e: Seq<char>)
    ensures
        health_outcome(Ok(code)) == Ok::<bool, Seq<char>>(200 <= code < 300),
        health_outcome(Err(e)) is Err,
{
}


/// A character that a JSON string literal holds as it is.
pub open spec fn json_plain_char(c: char) -> bool {
    c != '"' && c != '\\' && c as u32 >= 0x20
}

/// JSON escaping works character by character: escaping a text in two parts
/// gives the two escaped parts one after the other; a text of plain
/// characters stands in its literal as it is, between double quotes; and a
/// double quote or backslash is escaped with a backslash.
pub proof fn lemma_json_escape(s: Seq<char>, t: Seq<char>)
    ensures
        json_escape(s + t) == json_escape(s) + json_escape(t),
        (forall|i: int| 0 <= i < s.len() ==> json_plain_char(#[trigger] s[i])) ==> json_escape(s)
            == s && json_string(s) == seq!['"'] + s + seq!['"'],
        json_escape(seq!['"']) == seq!['\\', '"'],
        json_escape(seq!['\\']) == seq!['\\', '\\'],
    decreases s.len() + t.len(),
{
    assert(json_escape(Seq::<char>::empty()) == Seq::<char>::empty());
    assert(seq!['"'].drop_last() =~= Seq::<char>::empty());
    assert(seq!['\\'].drop_last() =~= Seq::<char>::empty());
    assert(Seq::<char>::empty() + seq!['\\', '"'] =~= seq!['\\', '"']);
    assert(Seq::<char>::empty() + seq!['\\', '\\'] =~= seq!['\\', '\\']);
    if t.len() > 0 {
        lemma_json_escape(s, t.drop_last());
        assert((s + t).drop_last() =~= s + t.drop_last());
        assert((s + t).last() == t.last());
    } else {
        assert(s + t =~= s);
        assert(json_escape(s) + json_escape(t) =~= json_escape(s));
    }
    if s.len() > 0 {
        lemma_json_escape(s.drop_last(), Seq::<char>::empty());
        if forall|i: int| 0 <= i < s.len() ==> json_plain_char(#[trigger] s[i]) {
            assert(json_plain_char(s[s.len() - 1]));
            assert forall|i: int| 0 <= i < s.drop_last().len() implies json_plain_char(
                #[trigger] s.drop_last()[i],
            ) by {
                assert(s.drop_last()[i] == s[i]);
            }
            assert(json_escape(s.drop_last()) == s.drop_last());
            assert(json_escape(s) =~= s);
        }
    } else {
        assert(json_escape(s) =~= s);
    }
}

} // verus!
