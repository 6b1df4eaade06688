//! Client library for the WebAbility HTTP API (https://api.webability.info).
//!
//! Every request is signed with HMAC-SHA256: the headers `X-WA-Client`,
//! `X-WA-Timestamp` and `X-WA-Digest` carry the client id, the UNIX time in
//! seconds and the lower-case hex digest of `"{METHOD}|{PATH}|{TIMESTAMP}|{CLIENTID}"`
//! under the account's token. The token itself never travels in a request.

pub mod dns;
pub mod json;
pub mod mac;
pub mod mail;
pub mod text;

use vstd::prelude::*;

use crate::mac::{hmac_sha256, hmac_sha256_tag};
use crate::text::{
    decimal, decimal_int, encode_hex, hex_lower, is_hex_lower_char, lemma_hex_lower_shape,
    push_char, push_decimal, push_decimal_i64,
};

verus! {

/// Default host of the WebAbility API.
pub const DEFAULT_BASE_URL: &'static str = "https://api.webability.info";

/// The canonical message that a request's digest signs.
pub open spec fn message_spec(
    method: Seq<char>,
    path: Seq<char>,
    timestamp: Seq<char>,
    client_id: Seq<char>,
) -> Seq<char> {
    method + seq!['|'] + path + seq!['|'] + timestamp + seq!['|'] + client_id
}

/// Builds the canonical message to sign: `"{METHOD}|{PATH}|{TIMESTAMP}|{CLIENTID}"`.
/// `path` is the request path without query string.
pub fn build_message(method: &str, path: &str, timestamp: &str, client_id: &str) -> (m: String)
    ensures
        m@ == message_spec(method@, path@, timestamp@, client_id@),
{
    let mut m = String::new();
    m.append(method);
    push_char(&mut m, '|');
    m.append(path);
    push_char(&mut m, '|');
    m.append(timestamp);
    push_char(&mut m, '|');
    m.append(client_id);
    assert(m@ =~= message_spec(method@, path@, timestamp@, client_id@));
    m
}

/// The digest of `message` under `token`: hex(HMAC-SHA256(token, message)),
/// both taken as their UTF-8 bytes.
pub open spec fn digest_spec(token: Seq<char>, message: Seq<char>) -> Seq<char> {
    hex_lower(hmac_sha256_tag(vstd::utf8::encode_utf8(token), vstd::utf8::encode_utf8(message)))
}

/// Credentials and host of an account.
pub struct WaApi {
    pub client_id: String,
    pub token: String,
    pub base_url: String,
}

impl WaApi {
    /// An account on the default host.
    pub fn new(client_id: &str, token: &str) -> (api: Self)
        ensures
            api.client_id@ == client_id@,
            api.token@ == token@,
            api.base_url@ == DEFAULT_BASE_URL@,
    {
        WaApi {
            client_id: client_id.to_owned(),
            token: token.to_owned(),
            base_url: DEFAULT_BASE_URL.to_owned(),
        }
    }

    /// An account on another host (useful for tests).
    pub fn new_with_url(base_url: &str, client_id: &str, token: &str) -> (api: Self)
        ensures
            api.client_id@ == client_id@,
            api.token@ == token@,
            api.base_url@ == base_url@,
    {
        WaApi {
            client_id: client_id.to_owned(),
            token: token.to_owned(),
            base_url: base_url.to_owned(),
        }
    }

    /// hex(HMAC-SHA256(token, message)): 64 lower-case hexadecimal digits.
    pub fn digest(&self, message: &str) -> (d: String)
        ensures
            d@ == digest_spec(self.token@, message@),
            d@.len() == 64,
            forall|i: int| 0 <= i < d@.len() ==> is_hex_lower_char(#[trigger] d@[i]),
    {
        let tag = hmac_sha256(self.token.as_str().as_bytes(), message.as_bytes());
        proof {
            lemma_hex_lower_shape(tag@);
        }
        encode_hex(tag.as_slice())
    }
}

/// An HTTP header.
pub struct Header {
    pub name: String,
    pub value: String,
}

/// A signed request, ready for the transport: method, full URL, headers in
/// the order they are set, and the JSON body when there is one.
pub struct HttpRequest {
    pub method: String,
    pub url: String,
    pub headers: Vec<Header>,
    pub body: Option<String>,
}

/// The view of an optional string.
pub open spec fn opt_view(s: Option<String>) -> Option<Seq<char>> {
    match s {
        Some(t) => Some(t@),
        None => None,
    }
}

impl HttpRequest {
    /// The headers as (name, value) pairs.
    pub open spec fn header_views(&self) -> Seq<(Seq<char>, Seq<char>)> {
        self.headers@.map_values(|h: Header| (h.name@, h.value@))
    }
}

impl WaApi {
    /// The headers of a request signed at `timestamp`: client id, timestamp,
    /// digest of the canonical message, then the JSON content type when the
    /// request has a body.
    pub open spec fn signed_headers(
        &self,
        method: Seq<char>,
        path: Seq<char>,
        timestamp: u64,
        has_body: bool,
    ) -> Seq<(Seq<char>, Seq<char>)> {
        let ts = decimal(timestamp as nat);
        let base = seq![
            ("X-WA-Client"@, self.client_id@),
            ("X-WA-Timestamp"@, ts),
            ("X-WA-Digest"@, digest_spec(self.token@, message_spec(method, path, ts, self.client_id@))),
        ];
        if has_body {
            base.push(("Content-Type"@, "application/json"@))
        } else {
            base
        }
    }

    /// `req` is the request for `method` on `path` with `body`, signed by this
    /// account at `timestamp`.
    pub open spec fn is_signed_request(
        &self,
        req: HttpRequest,
        method: Seq<char>,
        path: Seq<char>,
        timestamp: u64,
        body: Option<Seq<char>>,
    ) -> bool {
        &&& req.method@ == method
        &&& req.url@ == self.base_url@ + path
        &&& req.header_views() == self.signed_headers(method, path, timestamp, body is Some)
        &&& opt_view(req.body) == body
    }

    /// Signs a request for `method` on `path` at `timestamp` (UNIX seconds).
    pub fn sign(&self, method: &str, path: &str, timestamp: u64, body: Option<String>) -> (req:
        HttpRequest)
        ensures
            self.is_signed_request(req, method@, path@, timestamp, opt_view(body)),
    {
        let mut ts = String::new();
        push_decimal(&mut ts, timestamp);
        let message = build_message(method, path, ts.as_str(), self.client_id.as_str());
        let digest = self.digest(message.as_str());
        let mut url = self.base_url.clone();
        url.append(path);
        let mut headers: Vec<Header> = Vec::new();
        headers.push(Header { name: "X-WA-Client".to_owned(), value: self.client_id.clone() });
        headers.push(Header { name: "X-WA-Timestamp".to_owned(), value: ts });
        headers.push(Header { name: "X-WA-Digest".to_owned(), value: digest });
        let has_body = body.is_some();
        if has_body {
            headers.push(Header { name: "Content-Type".to_owned(), value: "application/json".to_owned() });
        }
        let req = HttpRequest { method: method.to_owned(), url, headers, body };
        assert(req.header_views() =~= self.signed_headers(method@, path@, timestamp, has_body));
        req
    }

    /// A signed GET of `path`.
    pub fn get(&self, path: &str, timestamp: u64) -> (req: HttpRequest)
        ensures
            self.is_signed_request(req, "GET"@, path@, timestamp, None),
    {
        self.sign("GET", path, timestamp, None)
    }

    /// A signed POST of the JSON text `payload` to `path`.
    pub fn post(&self, path: &str, payload: String, timestamp: u64) -> (req: HttpRequest)
        ensures
            self.is_signed_request(req, "POST"@, path@, timestamp, Some(payload@)),
    {
        self.sign("POST", path, timestamp, Some(payload))
    }

    /// A signed PUT of the JSON text `payload` to `path`.
    pub fn put(&self, path: &str, payload: String, timestamp: u64) -> (req: HttpRequest)
        ensures
            self.is_signed_request(req, "PUT"@, path@, timestamp, Some(payload@)),
    {
        self.sign("PUT", path, timestamp, Some(payload))
    }

    /// A signed DELETE of `path`.
    pub fn delete(&self, path: &str, timestamp: u64) -> (req: HttpRequest)
        ensures
            self.is_signed_request(req, "DELETE"@, path@, timestamp, None),
    {
        self.sign("DELETE", path, timestamp, None)
    }
}

/// What a receiver holding the token checks: the digest header is the digest
/// of the canonical message rebuilt from the method, the path and the other
/// two signing headers.
pub proof fn lemma_digest_header_checks(
    api: WaApi,
    method: Seq<char>,
    path: Seq<char>,
    timestamp: u64,
    has_body: bool,
)
    ensures
        ({
            let h = api.signed_headers(method, path, timestamp, has_body);
            &&& h[0].0 == "X-WA-Client"@
            &&& h[1].0 == "X-WA-Timestamp"@
            &&& h[2].0 == "X-WA-Digest"@
            &&& h[2].1 == digest_spec(api.token@, message_spec(method, path, h[1].1, h[0].1))
        }),
{
}

/// The token never travels: two accounts with the same client id and host
/// sign requests that agree in every header but the digest, and agree in full
/// when their digests of the canonical message agree.
pub proof fn lemma_token_only_in_digest(
    a: WaApi,
    b: WaApi,
    method: Seq<char>,
    path: Seq<char>,
    timestamp: u64,
    has_body: bool,
)
    requires
        a.client_id@ == b.client_id@,
        a.base_url@ == b.base_url@,
    ensures
        ({
            let ha = a.signed_headers(method, path, timestamp, has_body);
            let hb = b.signed_headers(method, path, timestamp, has_body);
            &&& ha.len() == hb.len()
            &&& forall|i: int| 0 <= i < ha.len() && i != 2 ==> ha[i] == hb[i]
            &&& ha[2].1 == hb[2].1 ==> ha == hb
        }),
{
    let ha = a.signed_headers(method, path, timestamp, has_body);
    let hb = b.signed_headers(method, path, timestamp, has_body);
    if ha[2].1 == hb[2].1 {
        assert(ha =~= hb);
    }
}

/// Error of the library: from the API (its `{status, code, message}` format),
/// from the transport (network), or from (de)serialization.
#[derive(Debug)]
pub enum WaError {
    Api { status_code: u16, code: Option<i64>, message: String },
    Transport(String),
    Decode(String),
}

/// How `{:?}` renders an optional code: `None` or `Some(n)`.
pub open spec fn debug_code(code: Option<i64>) -> Seq<char> {
    match code {
        Some(c) => "Some("@ + decimal_int(c as int) + ")"@,
        None => "None"@,
    }
}

impl WaError {
    /// The human-readable text of an error.
    pub open spec fn text_spec(&self) -> Seq<char> {
        match self {
            WaError::Api { code, message, .. } => "wa api error "@ + debug_code(*code) + ": "@
                + message@,
            WaError::Transport(msg) => "enviando request: "@ + msg@,
            WaError::Decode(msg) => "decodificando respuesta: "@ + msg@,
        }
    }

    /// Renders the error as text (what the error's `Display` shows).
    pub fn describe(&self) -> (s: String)
        ensures
            s@ == self.text_spec(),
    {
        match self {
            WaError::Api { code, message, .. } => {
                let mut s = "wa api error ".to_owned();
                match code {
                    Some(c) => {
                        s.append("Some(");
                        push_decimal_i64(&mut s, *c);
                        s.append(")");
                    },
                    None => {
                        s.append("None");
                    },
                }
                s.append(": ");
                s.append(message.as_str());
                s
            },
            WaError::Transport(msg) => {
                let mut s = "enviando request: ".to_owned();
                s.append(msg.as_str());
                s
            },
            WaError::Decode(msg) => {
                let mut s = "decodificando respuesta: ".to_owned();
                s.append(msg.as_str());
                s
            },
        }
    }
}

/// The error body of the API: `{code, message}`, both optional.
pub struct ErrorBody {
    pub code: Option<i64>,
    pub message: Option<String>,
}

/// Raw response of a request to the API.
pub struct Response {
    pub status_code: u16,
    pub body: Vec<u8>,
}

/// What the transport reports after sending a request. The transport splits
/// answers by status: below 400 an answer is `Received`, from 400 on it is
/// `Refused` (see `is_consistent`).
pub enum Reply {
    /// The server answered with a success status (below 400); `text` is the
    /// body.
    Received { status_code: u16, text: String },
    /// The server answered with an error status (400 or above); `error_body`
    /// is the body read as the API's error JSON, when it reads as one.
    Refused { status_code: u16, error_body: Option<ErrorBody> },
    /// The exchange did not complete (network failure, or a body that could
    /// not be read); `detail` describes why.
    Failed { detail: String },
}

impl Reply {
    /// The status agrees with the kind of answer: below 400 when received,
    /// 400 or above when refused.
    pub open spec fn is_consistent(&self) -> bool {
        match self {
            Reply::Received { status_code, .. } => *status_code < 400,
            Reply::Refused { status_code, .. } => *status_code >= 400,
            Reply::Failed { .. } => true,
        }
    }
}

/// The outcome of a request, given what the transport reported.
pub open spec fn reply_outcome(reply: Reply, res: Result<Response, WaError>) -> bool {
    match reply {
        Reply::Received { status_code, text } => res matches Ok(r) && r.status_code == status_code
            && r.body@ == vstd::utf8::encode_utf8(text@),
        Reply::Refused { status_code, error_body } => match error_body {
            Some(ErrorBody { code, message: Some(m) }) => res matches Err(
                WaError::Api { status_code: s, code: c, message: msg },
            ) && s == status_code && c == code && msg@ == m@,
            _ => res matches Err(WaError::Transport(msg)) && msg@ == "error HTTP "@ + decimal(
                status_code as nat,
            ),
        },
        Reply::Failed { detail } => res matches Err(WaError::Transport(msg)) && msg@ == detail@,
    }
}

/// Turns the transport's report into the request's result: the response on
/// success; on an error status, the API's error when its body carries a
/// message, else a transport error naming the status; the transport's own
/// failure otherwise.
pub fn interpret_reply(reply: Reply) -> (res: Result<Response, WaError>)
    requires
        reply.is_consistent(),
    ensures
        reply_outcome(reply, res),
        res matches Ok(r) ==> r.status_code < 400,
{
    match reply {
        Reply::Received { status_code, text } => {
            let body = text.as_str().as_bytes_vec();
            Ok(Response { status_code, body })
        },
        Reply::Refused { status_code, error_body } => {
            match error_body {
                Some(ErrorBody { code, message: Some(message) }) => {
                    Err(WaError::Api { status_code, code, message })
                },
                _ => {
                    let mut msg = "error HTTP ".to_owned();
                    push_decimal(&mut msg, status_code as u64);
                    Err(WaError::Transport(msg))
                },
            }
        },
        Reply::Failed { detail } => Err(WaError::Transport(detail)),
    }
}

/// What a reply means, for every reply the transport can give: a received
/// answer (any status below 400) is kept whole, its status and the UTF-8
/// bytes of its text; a refused answer whose error body has a message is the
/// API's error with that status, code and message; any other refused answer
/// is a transport error naming the status; a failed exchange is a transport
/// error with its detail.
pub proof fn lemma_reply_meaning(reply: Reply, res: Result<Response, WaError>)
    requires
        reply.is_consistent(),
        reply_outcome(reply, res),
    ensures
        match reply {
            Reply::Received { status_code, text } => {
                &&& res is Ok
                &&& res->Ok_0.status_code == status_code
                &&& res->Ok_0.body@ == vstd::utf8::encode_utf8(text@)
            },
            Reply::Refused { status_code, error_body } => match error_body {
                Some(ErrorBody { code, message: Some(m) }) => {
                    &&& res matches Err(WaError::Api { status_code: s, code: c, message: msg })
                    &&& s == status_code
                    &&& c == code
                    &&& msg@ == m@
                },
                _ => {
                    &&& res matches Err(WaError::Transport(msg))
                    &&& msg@ == "error HTTP "@ + decimal(status_code as nat)
                },
            },
            Reply::Failed { detail } => res matches Err(WaError::Transport(msg)) && msg@
                == detail@,
        },
{
}

/// Two received answers with the same text give the same body, whatever
/// their success statuses.
pub proof fn lemma_received_body_independent_of_status(
    r1: Reply,
    res1: Result<Response, WaError>,
    r2: Reply,
    res2: Result<Response, WaError>,
)
    requires
        r1 is Received,
        r2 is Received,
        r1.is_consistent(),
        r2.is_consistent(),
        reply_outcome(r1, res1),
        reply_outcome(r2, res2),
        r1->text@ == r2->text@,
    ensures
        res1 is Ok,
        res2 is Ok,
        res1->Ok_0.body@ == res2->Ok_0.body@,
{
}

/// The headers of every signed request: the client id, the timestamp in
/// decimal, the digest of `METHOD|PATH|TIMESTAMP|CLIENTID` under the token,
/// and then `Content-Type: application/json` exactly when there is a body,
/// whatever the method; the URL is the host followed by the path.
pub proof fn lemma_signed_request_headers(
    api: WaApi,
    req: HttpRequest,
    method: Seq<char>,
    path: Seq<char>,
    timestamp: u64,
    body: Option<Seq<char>>,
)
    requires
        api.is_signed_request(req, method, path, timestamp, body),
    ensures
        req.url@ == api.base_url@ + path,
        req.headers@.len() == (if body is Some {
            4int
        } else {
            3int
        }),
        req.headers@[0].name@ == "X-WA-Client"@,
        req.headers@[0].value@ == api.client_id@,
        req.headers@[1].name@ == "X-WA-Timestamp"@,
        req.headers@[1].value@ == decimal(timestamp as nat),
        req.headers@[2].name@ == "X-WA-Digest"@,
        req.headers@[2].value@ == digest_spec(
            api.token@,
            message_spec(method, path, decimal(timestamp as nat), api.client_id@),
        ),
        body is Some ==> req.headers@[3].name@ == "Content-Type"@ && req.headers@[3].value@
            == "application/json"@,
        opt_view(req.body) == body,
{
    let hv = req.header_views();
    assert(hv.len() == req.headers@.len());
    assert(hv[0] == (req.headers@[0].name@, req.headers@[0].value@));
    assert(hv[1] == (req.headers@[1].name@, req.headers@[1].value@));
    assert(hv[2] == (req.headers@[2].name@, req.headers@[2].value@));
    if body is Some {
        assert(hv[3] == (req.headers@[3].name@, req.headers@[3].value@));
    }
}

/// The method enters a signed request only through the digest: requests for
/// two methods on the same path, at the same time and with the same body have
/// the same URL and the same headers but the digest.
pub proof fn lemma_method_only_in_digest(
    api: WaApi,
    r1: HttpRequest,
    m1: Seq<char>,
    r2: HttpRequest,
    m2: Seq<char>,
    path: Seq<char>,
    timestamp: u64,
    body: Option<Seq<char>>,
)
    requires
        api.is_signed_request(r1, m1, path, timestamp, body),
        api.is_signed_request(r2, m2, path, timestamp, body),
    ensures
        r1.url@ == r2.url@,
        r1.headers@.len() == r2.headers@.len(),
        forall|i: int|
            0 <= i < r1.headers@.len() && i != 2 ==> (#[trigger] r1.headers@[i]).name@
                == r2.headers@[i].name@ && r1.headers@[i].value@ == r2.headers@[i].value@,
        r1.headers@[2].name@ == r2.headers@[2].name@,
{
    lemma_signed_request_headers(api, r1, m1, path, timestamp, body);
    lemma_signed_request_headers(api, r2, m2, path, timestamp, body);
}

} // verus!
