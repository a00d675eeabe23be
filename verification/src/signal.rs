//! The conversation with the signalling server: which requests are made, and what each reply
//! means. Sending a request and reading a reply is left to the caller.

use crate::text;
use vstd::prelude::*;

verus! {

/// How long the caller pauses between two polls for an answer, in milliseconds.
pub const ANSWER_POLL_PAUSE: u64 = 500;

/// For how many milliseconds the server's reply to a request is waited for.
pub const REPLY_TIMEOUT: u64 = 10000;

/// A failed exchange with the server or with a viewer.
#[derive(Debug)]
pub struct SignalError {
    pub status: Option<u16>,
    pub detail: String,
}

/// What is said after the number in the text of a status code, such as `Not Found`.
pub uninterp spec fn status_reason(code: u16) -> Seq<char>;

/// The text of a status code, through the `Display` of `reqwest::StatusCode`: the number, a
/// space and the reason that goes with it. Codes outside 100 to 999 are no status codes.
#[verifier::external_body]
fn status_line(code: u16) -> (line: String)
    requires
        100 <= code < 1000,
    ensures
        line@ == text::decimal(code as nat) + " "@ + status_reason(code),
{
    reqwest::StatusCode::from_u16(code).unwrap().to_string()
}

impl SignalError {
    /// The text that the error is shown as.
    pub open spec fn text(&self) -> Seq<char> {
        self.detail@
    }

    /// A request that got no reply, for the reason `source`.
    pub fn transport(status: Option<u16>, source: &str, action: &str) -> (error: Self)
        ensures
            error.status == status,
            error.text() == action@ + ": "@ + source@,
    {
        let mut detail = action.to_owned();
        detail.append(": ");
        detail.append(source);
        SignalError { status, detail }
    }

    /// A request that the server answered with the refusal `status`.
    pub fn refused(status: u16, action: &str) -> (error: Self)
        requires
            100 <= status < 1000,
        ensures
            error.status == Some(status),
            error.text() == action@ + ": server said "@ + text::decimal(status as nat) + " "@
                + status_reason(status),
    {
        let line = status_line(status);
        let error = Self::refused_with(status, line.as_str(), action);
        proof {
            assert(error.text() =~= action@ + ": server said "@ + text::decimal(status as nat)
                + " "@ + status_reason(status));
        }
        error
    }

    /// The refusal `status`, of which `line` is the text.
    pub fn refused_with(status: u16, line: &str, action: &str) -> (error: Self)
        ensures
            error.status == Some(status),
            error.text() == action@ + ": server said "@ + line@,
    {
        let mut detail = action.to_owned();
        detail.append(": server said ");
        detail.append(line);
        SignalError { status: Some(status), detail }
    }

    /// A failure that no status goes with.
    pub fn failed(action: String) -> (error: Self)
        ensures
            error == (SignalError { status: None, detail: action }),
    {
        SignalError { status: None, detail: action }
    }

    /// Whether the server does not know what was asked for.
    pub fn not_found(&self) -> (b: bool)
        ensures
            b == (self.status == Some(404u16)),
    {
        self.status == Some(404)
    }

    /// A line that ends in the text that the error is shown as.
    pub fn after(&self, opening: &str) -> (line: String)
        ensures
            line@ == opening@ + self.text(),
    {
        let mut line = opening.to_owned();
        line.append(self.detail.as_str());
        line
    }

    /// The text that the error is shown as.
    pub fn message(&self) -> (message: String)
        ensures
            message@ == self.text(),
    {
        self.detail.clone()
    }
}

impl From<String> for SignalError {
    fn from(detail: String) -> (error: Self) {
        SignalError::failed(detail)
    }
}

impl vstd::std_specs::convert::FromSpecImpl<String> for SignalError {
    open spec fn obeys_from_spec() -> bool {
        true
    }

    open spec fn from_spec(detail: String) -> Self {
        SignalError { status: None, detail }
    }
}

impl From<&str> for SignalError {
    fn from(detail: &str) -> (error: Self)
        ensures
            error.status is None,
            error.text() == detail@,
    {
        SignalError::failed(detail.to_owned())
    }
}

impl vstd::std_specs::convert::FromSpecImpl<&str> for SignalError {
    open spec fn obeys_from_spec() -> bool {
        false
    }

    open spec fn from_spec(detail: &str) -> Self {
        arbitrary()
    }
}

/// The servers through which a connection to a viewer may be found.
#[derive(Debug, Clone)]
pub struct IceConfig {
    pub stun_urls: Vec<String>,
    pub turn_url: String,
    pub turn_username: String,
    pub turn_password: String,
}

/// The kinds of request that the server is sent.
#[derive(Debug, Clone, Copy, PartialEq, Eq, Structural)]
pub enum Method {
    Get,
    Post,
}

/// A request to the server: where it goes, the token that it carries, and its JSON body.
#[derive(Debug)]
pub struct Request {
    pub method: Method,
    pub url: String,
    pub bearer: Option<String>,
    pub body: Option<String>,
}

impl Request {
    /// Whether the request is a `method` request to `url` that carries `bearer` and `body`.
    pub open spec fn is(
        &self,
        method: Method,
        url: Seq<char>,
        bearer: Option<Seq<char>>,
        body: Option<Seq<char>>,
    ) -> bool {
        &&& self.method == method
        &&& self.url@ == url
        &&& self.bearer is Some == bearer is Some
        &&& self.bearer matches Some(b) ==> bearer == Some(b@)
        &&& self.body is Some == body is Some
        &&& self.body matches Some(b) ==> body == Some(b@)
    }
}

/// What came of a request. `Lost` stands for a request without a reply, with the reason, and
/// `Answered` for a reply, with what reading its body gave: the value or the reason that there
/// is none.
pub enum Reply<T> {
    Lost { status: Option<u16>, source: String },
    Answered { code: u16, body: Result<T, String> },
}

impl<T> Reply<T> {
    /// Status codes lie between 100 and 999.
    pub open spec fn valid(self) -> bool {
        self matches Reply::Answered { code: status, .. } ==> 100 <= status < 1000
    }
}

/// The status codes that report success.
pub open spec fn is_success(status: u16) -> bool {
    200 <= status < 300
}

/// Whether a reply's body is worth reading: whether its status reports success.
pub fn succeeded(status: u16) -> (b: bool)
    ensures
        b == is_success(status),
        b == (status / 100 == 2),
{
    200 <= status && status < 300
}

/// The text of an error that a request to `action` was refused with.
pub open spec fn refusal(action: Seq<char>, status: u16) -> Seq<char> {
    action + ": server said "@ + text::decimal(status as nat) + " "@ + status_reason(status)
}

/// Whether `result` is what a reply comes to, where `action` names the request and `reading`
/// the reading of the reply: the value that the body held, if the server reports success and
/// the body could be read, and otherwise the error that tells which of these failed.
pub open spec fn settles<T>(
    reply: Reply<T>,
    action: Seq<char>,
    reading: Seq<char>,
    result: Result<T, SignalError>,
) -> bool {
    match reply {
        Reply::Lost { status, source } => {
            &&& result matches Err(error)
            &&& error.status == status
            &&& error.text() == action + ": "@ + source@
        },
        Reply::Answered { code: status, body } => if !is_success(status) {
            &&& result matches Err(error)
            &&& error.status == Some(status)
            &&& error.text() == refusal(action, status)
        } else {
            match body {
                Ok(value) => result == Ok::<T, SignalError>(value),
                Err(source) => {
                    &&& result matches Err(error)
                    &&& error.status is None
                    &&& error.text() == reading + ": "@ + source@
                },
            }
        },
    }
}

/// What a reply comes to, where `action` names the request and `reading` the reading of the
/// reply.
fn settle<T>(reply: Reply<T>, action: &str, reading: &str) -> (result: Result<T, SignalError>)
    requires
        reply.valid(),
    ensures
        settles(reply, action@, reading@, result),
{
    match reply {
        Reply::Lost { status, source } => Err(
            SignalError::transport(status, source.as_str(), action),
        ),
        Reply::Answered { code: status, body } => {
            if !succeeded(status) {
                return Err(SignalError::refused(status, action));
            }
            match body {
                Ok(value) => Ok(value),
                Err(source) => {
                    let mut detail = reading.to_owned();
                    detail.append(": ");
                    detail.append(source.as_str());
                    Err(SignalError::failed(detail))
                },
            }
        },
    }
}

/// What to do after a poll for a viewer's answer.
pub enum AnswerPoll {
    /// No answer yet: pause for so many milliseconds, then poll again.
    Pause(u64),
    /// The viewer answered with this description.
    Answer(String),
    /// There will be no answer.
    Fail(SignalError),
}

/// The hexadecimal digit of a number below sixteen.
pub open spec fn hex_digit(n: int) -> char {
    (if n < 10 {
        '0' as int + n
    } else {
        'a' as int + n - 10
    }) as char
}

/// How a character is written within a JSON string: quotes, backslashes and control characters
/// are escaped.
pub open spec fn json_escaped(c: char) -> Seq<char> {
    if c == '"' || c == '\\' {
        seq!['\\', c]
    } else if c == '\n' {
        seq!['\\', 'n']
    } else if c == '\r' {
        seq!['\\', 'r']
    } else if c == '\t' {
        seq!['\\', 't']
    } else if c == '\u{8}' {
        seq!['\\', 'b']
    } else if c == '\u{c}' {
        seq!['\\', 'f']
    } else if c as u32 <= 0x1f {
        seq!['\\', 'u', '0', '0', hex_digit(c as int / 16), hex_digit(c as int % 16)]
    } else {
        seq![c]
    }
}

/// What stands between the quotes of a JSON string.
pub open spec fn json_content(text: Seq<char>) -> Seq<char>
    decreases text.len(),
{
    if text.len() == 0 {
        Seq::empty()
    } else {
        json_content(text.drop_last()) + json_escaped(text.last())
    }
}

/// A text as a JSON string.
pub open spec fn json_string(text: Seq<char>) -> Seq<char> {
    seq!['"'] + json_content(text) + seq!['"']
}

/// A text as a JSON string, through the `Display` of `serde_json::Value`: between quotes, with
/// quotes, backslashes and control characters escaped and every other character as it is.
#[verifier::external_body]
fn quote_json(text: &str) -> (quoted: String)
    ensures
        quoted@ == json_string(text@),
{
    serde_json::Value::from(text).to_string()
}

/// The JSON object with the single member `sdp`, whose value is written as `quoted`.
pub fn offer_body(quoted: &str) -> (body: String)
    ensures
        body@ == "{\"sdp\":"@ + quoted@ + "}"@,
{
    let mut body = "{\"sdp\":".to_owned();
    body.append(quoted);
    body.append("}");
    body
}

/// The client's side of the signalling protocol.
#[derive(Clone)]
pub struct SignalClient {
    control_url: String,
    public_url: String,
    token: String,
}

impl SignalClient {
    /// The server's address for the operator, without a slash at its end.
    pub closed spec fn control(&self) -> Seq<char> {
        self.control_url@
    }

    /// The server's address for viewers, without a slash at its end.
    pub closed spec fn public(&self) -> Seq<char> {
        self.public_url@
    }

    /// The operator's token.
    pub closed spec fn operator(&self) -> Seq<char> {
        self.token@
    }

    /// A client for the server at the two addresses. `http` tells whether there is an HTTP
    /// client to send requests with, and if not, why.
    pub fn new(
        control_url: &str,
        public_url: &str,
        token: String,
        http: Result<(), String>,
    ) -> (result: Result<Self, SignalError>)
        ensures
            result is Ok <==> http is Ok,
            result matches Ok(client) ==> {
                &&& client.control() == text::without_trailing(control_url@, '/')
                &&& client.public() == text::without_trailing(public_url@, '/')
                &&& client.operator() == token@
                &&& client.control().len() == 0 || client.control().last() != '/'
                &&& client.public().len() == 0 || client.public().last() != '/'
                &&& control_url@.len() == 0 || control_url@.last() != '/' ==> client.control()
                    == control_url@
                &&& public_url@.len() == 0 || public_url@.last() != '/' ==> client.public()
                    == public_url@
            },
            result matches Err(error) ==> {
                &&& error.status is None
                &&& error.text() == "build http client: "@ + http->Err_0@
            },
    {
        match http {
            Ok(_) => Ok(
                SignalClient {
                    control_url: text::trim_trailing(control_url, '/').to_owned(),
                    public_url: text::trim_trailing(public_url, '/').to_owned(),
                    token,
                },
            ),
            Err(source) => {
                let mut detail = "build http client: ".to_owned();
                detail.append(source.as_str());
                Err(SignalError::failed(detail))
            },
        }
    }

    /// The address at which a viewer opens a link.
    pub fn ticket_url(&self, link_id: &str) -> (url: String)
        ensures
            url@ == self.public() + "/v/"@ + link_id@,
    {
        let mut url = self.public_url.clone();
        url.append("/v/");
        url.append(link_id);
        url
    }

    /// The address of one part of the exchange with a viewer.
    pub open spec fn session_url(
        &self,
        link_id: Seq<char>,
        session_id: Seq<char>,
        action: Seq<char>,
    ) -> Seq<char> {
        self.control() + "/api/session/"@ + link_id + "/"@ + session_id + "/"@ + action
    }

    fn session_path(&self, link_id: &str, session_id: &str, action: &str) -> (url: String)
        ensures
            url@ == self.session_url(link_id@, session_id@, action@),
    {
        let mut url = self.control_url.clone();
        url.append("/api/session/");
        url.append(link_id);
        url.append("/");
        url.append(session_id);
        url.append("/");
        url.append(action);
        url
    }

    /// The request for a new link.
    pub fn mint_link_request(&self) -> (request: Request)
        ensures
            request.is(
                Method::Post,
                self.control() + "/api/links"@,
                Some(self.operator()),
                None,
            ),
    {
        let mut url = self.control_url.clone();
        url.append("/api/links");
        Request { method: Method::Post, url, bearer: Some(self.token.clone()), body: None }
    }

    /// The new link that the server's reply holds.
    pub fn mint_link(&self, reply: Reply<String>) -> (result: Result<String, SignalError>)
        requires
            reply.valid(),
        ensures
            settles(reply, "mint link"@, "read link"@, result),
    {
        settle(reply, "mint link", "read link")
    }

    /// The request for the sessions that viewers opened on a link.
    pub fn list_sessions_request(&self, link_id: &str) -> (request: Request)
        ensures
            request.is(
                Method::Get,
                self.control() + "/api/links/"@ + link_id@ + "/sessions"@,
                Some(self.operator()),
                None,
            ),
    {
        let mut url = self.control_url.clone();
        url.append("/api/links/");
        url.append(link_id);
        url.append("/sessions");
        Request { method: Method::Get, url, bearer: Some(self.token.clone()), body: None }
    }

    /// The sessions that the server's reply lists.
    pub fn list_sessions(&self, reply: Reply<Vec<String>>) -> (result: Result<
        Vec<String>,
        SignalError,
    >)
        requires
            reply.valid(),
        ensures
            settles(reply, "list sessions"@, "read sessions"@, result),
    {
        settle(reply, "list sessions", "read sessions")
    }

    /// The request that hands the offer `sdp` to a viewer.
    pub fn publish_offer_request(&self, link_id: &str, session_id: &str, sdp: &str) -> (request:
        Request)
        ensures
            request.is(
                Method::Post,
                self.session_url(link_id@, session_id@, "offer"@),
                Some(self.operator()),
                Some("{\"sdp\":"@ + json_string(sdp@) + "}"@),
            ),
    {
        let quoted = quote_json(sdp);
        Request {
            method: Method::Post,
            url: self.session_path(link_id, session_id, "offer"),
            bearer: Some(self.token.clone()),
            body: Some(offer_body(quoted.as_str())),
        }
    }

    /// Whether the server took the offer: it says so with the status 204 and no other.
    pub fn publish_offer(&self, reply: Reply<()>) -> (result: Result<(), SignalError>)
        requires
            reply.valid(),
        ensures
            match reply {
                Reply::Lost { status, source } => {
                    &&& result matches Err(error)
                    &&& error.status == status
                    &&& error.text() == "publish offer"@ + ": "@ + source@
                },
                Reply::Answered { code: status, .. } => if status == 204 {
                    result is Ok
                } else {
                    &&& result matches Err(error)
                    &&& error.status == Some(status)
                    &&& error.text() == refusal("publish offer"@, status)
                },
            },
    {
        match reply {
            Reply::Lost { status, source } => Err(
                SignalError::transport(status, source.as_str(), "publish offer"),
            ),
            Reply::Answered { code: status, .. } => {
                if status == 204 {
                    Ok(())
                } else {
                    Err(SignalError::refused(status, "publish offer"))
                }
            },
        }
    }

    /// The request for the servers to connect through. It carries no token.
    pub fn fetch_ice_request(&self, link_id: &str) -> (request: Request)
        ensures
            request.is(
                Method::Get,
                self.control() + "/api/session/"@ + link_id@ + "/ice"@,
                None,
                None,
            ),
    {
        let mut url = self.control_url.clone();
        url.append("/api/session/");
        url.append(link_id);
        url.append("/ice");
        Request { method: Method::Get, url, bearer: None, body: None }
    }

    /// The servers to connect through that the server's reply names.
    pub fn fetch_ice(&self, reply: Reply<IceConfig>) -> (result: Result<IceConfig, SignalError>)
        requires
            reply.valid(),
        ensures
            settles(reply, "fetch ice"@, "read ice"@, result),
    {
        settle(reply, "fetch ice", "read ice")
    }

    /// The request for how often a viewer has left.
    pub fn leave_count_request(&self, link_id: &str, session_id: &str) -> (request: Request)
        ensures
            request.is(
                Method::Get,
                self.session_url(link_id@, session_id@, "leave"@),
                Some(self.operator()),
                None,
            ),
    {
        Request {
            method: Method::Get,
            url: self.session_path(link_id, session_id, "leave"),
            bearer: Some(self.token.clone()),
            body: None,
        }
    }

    /// How often a viewer has left, by the server's reply.
    pub fn leave_count(&self, reply: Reply<u64>) -> (result: Result<u64, SignalError>)
        requires
            reply.valid(),
        ensures
            settles(reply, "leave count"@, "read leaves"@, result),
    {
        settle(reply, "leave count", "read leaves")
    }

    /// The request for a viewer's answer.
    pub fn poll_answer_request(&self, link_id: &str, session_id: &str) -> (request: Request)
        ensures
            request.is(
                Method::Get,
                self.session_url(link_id@, session_id@, "answer"@),
                Some(self.operator()),
                None,
            ),
    {
        Request {
            method: Method::Get,
            url: self.session_path(link_id, session_id, "answer"),
            bearer: Some(self.token.clone()),
            body: None,
        }
    }

    /// What a poll for a viewer's answer comes to: 200 brings the answer, 204 means that there
    /// is none yet, which is worth another poll before `deadline`, and any other status is a
    /// refusal. `now` and `deadline` are readings of one clock.
    pub fn poll_answer(&self, reply: Reply<String>, now: u64, deadline: u64) -> (step: AnswerPoll)
        requires
            reply.valid(),
        ensures
            match reply {
                Reply::Lost { status, source } => {
                    &&& step matches AnswerPoll::Fail(error)
                    &&& error.status == status
                    &&& error.text() == "poll answer"@ + ": "@ + source@
                },
                Reply::Answered { code: status, body } => if status == 204 {
                    if now >= deadline {
                        &&& step matches AnswerPoll::Fail(error)
                        &&& error.status is None
                        &&& error.text() == "no viewer answered in time; open the link and retry"@
                    } else {
                        step == AnswerPoll::Pause(ANSWER_POLL_PAUSE)
                    }
                } else if status == 200 {
                    match body {
                        Ok(sdp) => step == AnswerPoll::Answer(sdp),
                        Err(source) => {
                            &&& step matches AnswerPoll::Fail(error)
                            &&& error.status is None
                            &&& error.text() == "read answer: "@ + source@
                        },
                    }
                } else {
                    &&& step matches AnswerPoll::Fail(error)
                    &&& error.status == Some(status)
                    &&& error.text() == refusal("poll answer"@, status)
                },
            },
    {
        match reply {
            Reply::Lost { status, source } => AnswerPoll::Fail(
                SignalError::transport(status, source.as_str(), "poll answer"),
            ),
            Reply::Answered { code: status, body } => {
                if status == 204 {
                    if now >= deadline {
                        return AnswerPoll::Fail(
                            SignalError::failed(
                                "no viewer answered in time; open the link and retry".to_owned(),
                            ),
                        );
                    }
                    return AnswerPoll::Pause(ANSWER_POLL_PAUSE);
                }
                if status == 200 {
                    return match body {
                        Ok(sdp) => AnswerPoll::Answer(sdp),
                        Err(source) => {
                            let mut detail = "read answer: ".to_owned();
                            detail.append(source.as_str());
                            AnswerPoll::Fail(SignalError::failed(detail))
                        },
                    };
                }
                AnswerPoll::Fail(SignalError::refused(status, "poll answer"))
            },
        }
    }
}

/// A request is what it is said to be exactly if it agrees in everything: in how it is made, where
/// it goes, and the token and the body, which are there or not.
pub proof fn requests_are_what_they_are_said_to_be(
    request: Request,
    method: Method,
    url: Seq<char>,
    bearer: Option<Seq<char>>,
    body: Option<Seq<char>>,
)
    ensures
        request.is(method, url, bearer, body) <==> {
            &&& request.method == method
            &&& request.url@ == url
            &&& match (request.bearer, bearer) {
                (Some(carried), Some(wanted)) => carried@ == wanted,
                (None, None) => true,
                _ => false,
            }
            &&& match (request.body, body) {
                (Some(carried), Some(wanted)) => carried@ == wanted,
                (None, None) => true,
                _ => false,
            }
        },
{
}

/// The address of a part of the exchange with a viewer begins with that of the server and ends with
/// the name of the part, and the link and the session stand in between.
pub proof fn session_addresses_name_the_session(
    client: SignalClient,
    link: Seq<char>,
    session: Seq<char>,
    action: Seq<char>,
)
    ensures
        client.session_url(link, session, action) == client.control() + ("/api/session/"@ + link
            + "/"@ + session + "/"@ + action),
{
    assert(client.session_url(link, session, action) =~= client.control() + ("/api/session/"@ + link
        + "/"@ + session + "/"@ + action));
}

/// Those replies report success whose status is in the two hundreds.
pub proof fn success_is_in_the_two_hundreds(status: u16)
    ensures
        is_success(status) <==> status / 100 == 2,
{
}

/// A reply gives a value exactly if the server reports success and the body could be read, and it
/// is that of the body. A refusal keeps its status, and says it after the name of the request. What
/// was lost keeps the status that there was, and what could not be read has none; both end with
/// the reason.
pub proof fn replies_give_what_they_hold<T>(
    reply: Reply<T>,
    action: Seq<char>,
    reading: Seq<char>,
    result: Result<T, SignalError>,
)
    requires
        settles(reply, action, reading, result),
    ensures
        match reply {
            Reply::Lost { status, source } => {
                &&& result matches Err(error)
                &&& error.status == status
                &&& error.detail@ == action + ": "@ + source@
            },
            Reply::Answered { code, body } => {
                &&& result is Ok <==> 200 <= code <= 299 && body is Ok
                &&& result matches Ok(value) ==> body->Ok_0 == value
                &&& result matches Err(error) ==> if 200 <= code <= 299 {
                    error.status is None && error.detail@ == reading + ": "@ + body->Err_0@
                } else {
                    error.status == Some(code) && error.detail@ == action + ": server said "@
                        + text::decimal(code as nat) + " "@ + status_reason(code)
                }
            },
        },
{
}

/// The value of a hexadecimal digit.
pub open spec fn hex_value(digit: char) -> int {
    if '0' <= digit <= '9' {
        digit as int - '0' as int
    } else {
        digit as int - 'a' as int + 10
    }
}

/// The character that an escape within a JSON string stands for.
pub open spec fn json_meaning(written: Seq<char>) -> char {
    if written.len() == 1 {
        written[0]
    } else if written[1] == 'n' {
        '\n'
    } else if written[1] == 'r' {
        '\r'
    } else if written[1] == 't' {
        '\t'
    } else if written[1] == 'b' {
        '\u{8}'
    } else if written[1] == 'f' {
        '\u{c}'
    } else if written[1] == 'u' {
        (4096 * hex_value(written[2]) + 256 * hex_value(written[3]) + 16 * hex_value(written[4])
            + hex_value(written[5])) as char
    } else {
        written[1]
    }
}

/// How a character is written within a JSON string can be read back. It holds no control character,
/// and a quote only after a backslash, with which it begins unless it is the character itself.
pub proof fn escapes_read_back(c: char)
    ensures
        json_meaning(json_escaped(c)) == c,
        forall|i: int|
            0 <= i < json_escaped(c).len() ==> #[trigger] json_escaped(c)[i] as u32 > 0x1f,
        forall|i: int|
            0 <= i < json_escaped(c).len() && #[trigger] json_escaped(c)[i] == '"' ==> i == 1,
        json_escaped(c).len() > 1 ==> json_escaped(c)[0] == '\\',
        json_escaped(c).len() == 1 ==> json_escaped(c)[0] == c && c != '\\' && c != '"',
{
}

/// What is written of a text within a JSON string is what is written of each of its characters, in
/// a row, and the string is that between quotes.
pub proof fn texts_are_written_in_a_row(first: Seq<char>, second: Seq<char>, one: char)
    ensures
        json_content(first + second) == json_content(first) + json_content(second),
        json_content(seq![one]) == json_escaped(one),
        json_string(first).len() == json_content(first).len() + 2,
        json_string(first)[0] == '"',
        json_string(first).last() == '"',
        json_string(first).subrange(1, json_string(first).len() - 1) == json_content(first),
    decreases second.len(),
{
    let alone = seq![one];
    assert(alone.drop_last() =~= Seq::empty());
    assert(json_content(alone.drop_last()) =~= Seq::empty());
    assert(json_content(alone) =~= json_escaped(one));
    assert(json_string(first).subrange(1, json_string(first).len() - 1) =~= json_content(first));
    if second.len() == 0 {
        assert(first + second =~= first);
        assert(json_content(first) + json_content(second) =~= json_content(first));
    } else {
        texts_are_written_in_a_row(first, second.drop_last(), one);
        assert((first + second).drop_last() =~= first + second.drop_last());
        assert(json_content(first + second) =~= json_content(first) + json_content(second));
    }
}

/// The server has ten seconds to reply, and half a second passes between two polls for an answer.
pub proof fn replies_are_waited_for()
    ensures
        REPLY_TIMEOUT == 10 * 1000,
        ANSWER_POLL_PAUSE * 2 == 1000,
{
}

/// A reply that was lost is one, and so is every reply with a status of three digits.
pub proof fn statuses_have_three_digits<T>(reply: Reply<T>)
    ensures
        reply is Lost ==> reply.valid(),
        reply matches Reply::Answered { code, .. } ==> (reply.valid() <==> 100 <= code <= 999),
{
}

} // verus!
