//! The plugin's HTTP side: which handler serves a request, what a request asks of zenoh,
//! and the response that answers it.
use vstd::prelude::*;
use vstd::utf8::encode_utf8;
use crate::encoding::{Encoding, KnownEncoding, encoding_of_text};
use crate::number::{decimal_string, decimal_text};
use crate::sample::{
    Sample, SampleKind, kind_name, kind_text, sample_json, sample_to_json, samples_html,
    samples_json, to_html, to_json,
};
use crate::text::{
    before_first, chars_of, owned, position_of, push_str, same_text, starts_with_text, string_of,
};

verus! {

/// The HTTP status of a successful request.
pub const STATUS_OK: u16 = 200;

/// The HTTP status of a write whose body could not be read.
pub const STATUS_NO_CONTENT: u16 = 204;

/// The HTTP status of a request that zenoh failed to serve.
pub const STATUS_INTERNAL_SERVER_ERROR: u16 = 500;

/// The request methods, as far as the plugin tells them apart.
#[derive(PartialEq, Eq, Structural, Debug, Clone, Copy)]
pub enum HttpMethod {
    Get,
    Head,
    Post,
    Put,
    Patch,
    Delete,
    Connect,
    Options,
    Trace,
    Other,
}

/// The kind of the sample that a write request publishes: `PATCH` patches, `DELETE`
/// deletes, and every other method puts.
pub open spec fn kind_of_method(m: HttpMethod) -> SampleKind {
    match m {
        HttpMethod::Put => SampleKind::Put,
        HttpMethod::Patch => SampleKind::Patch,
        HttpMethod::Delete => SampleKind::Delete,
        _ => SampleKind::Put,
    }
}

/// The kind of the sample that a write request with method `m` publishes.
pub fn method_to_kind(m: HttpMethod) -> (k: SampleKind)
    ensures
        k == kind_of_method(m),
{
    match m {
        HttpMethod::Put => SampleKind::Put,
        HttpMethod::Patch => SampleKind::Patch,
        HttpMethod::Delete => SampleKind::Delete,
        _ => SampleKind::default(),
    }
}

/// The handlers of the plugin's routes.
#[derive(PartialEq, Eq, Structural, Debug, Clone, Copy)]
pub enum Handler {
    /// Answers a `GET`: a query, or a subscription streamed as server-sent events.
    Query,
    /// Answers a `PUT`, `PATCH` or `DELETE`: a publication.
    Write,
}

/// The handler that serves a method on every path, if any.
pub open spec fn handler_of(m: HttpMethod) -> Option<Handler> {
    match m {
        HttpMethod::Get => Some(Handler::Query),
        HttpMethod::Put | HttpMethod::Patch | HttpMethod::Delete => Some(Handler::Write),
        _ => None,
    }
}

/// The handler that serves a request with method `m`, if any.
pub fn route(m: HttpMethod) -> (h: Option<Handler>)
    ensures
        h == handler_of(m),
{
    match m {
        HttpMethod::Get => Some(Handler::Query),
        HttpMethod::Put | HttpMethod::Patch | HttpMethod::Delete => Some(Handler::Write),
        _ => None,
    }
}

/// A response to an HTTP request.
pub struct HttpResponse {
    pub status: u16,
    pub headers: Vec<(String, String)>,
    pub content_type: Option<String>,
    pub body: String,
}

/// The view of a header list.
pub open spec fn headers_view(h: Seq<(String, String)>) -> Seq<(Seq<char>, Seq<char>)> {
    h.map_values(|e: (String, String)| (e.0@, e.1@))
}

/// The length in bytes of the UTF-8 encoding of `body`, as `str::len` gives it.
pub open spec fn byte_length(body: Seq<char>) -> nat {
    (encode_utf8(body).len() as usize) as nat
}

/// The headers of a response with body `body`: its length in bytes, and an
/// `Access-Control-Allow-Origin` that admits every origin.
pub open spec fn body_headers(body: Seq<char>) -> Seq<(Seq<char>, Seq<char>)> {
    seq![
        ("content-length"@, decimal_text(byte_length(body))),
        ("Access-Control-Allow-Origin"@, "*"@),
    ]
}

/// Whether `r` is the response with status `status`, content type `content_type` and body
/// `body`.
pub open spec fn is_response(r: HttpResponse, status: u16, content_type: Seq<char>, body: Seq<char>) -> bool {
    &&& r.status == status
    &&& headers_view(r.headers@) == body_headers(body)
    &&& r.content_type matches Some(c) && c@ == content_type
    &&& r.body@ == body
}

/// Whether `r` is the bare response with status `status`: no header, no content type, no
/// body.
pub open spec fn is_bare_response(r: HttpResponse, status: u16) -> bool {
    &&& r.status == status
    &&& r.headers@.len() == 0
    &&& r.content_type is None
    &&& r.body@.len() == 0
}

/// A response with the given status, content type and body.
pub fn response(status: u16, content_type: &str, body: &str) -> (r: HttpResponse)
    ensures
        is_response(r, status, content_type@, body@),
{
    let n = body.len();
    assert(n as nat == byte_length(body@));
    let length = decimal_string(n as u64);
    let mut headers: Vec<(String, String)> = Vec::new();
    headers.push((owned("content-length"), length));
    headers.push((owned("Access-Control-Allow-Origin"), owned("*")));
    assert(headers_view(headers@) =~= body_headers(body@));
    HttpResponse { status, headers, content_type: Some(owned(content_type)), body: owned(body) }
}

/// A bare response with the given status.
pub fn bare_response(status: u16) -> (r: HttpResponse)
    ensures
        is_bare_response(r, status),
{
    HttpResponse { status, headers: Vec::new(), content_type: None, body: String::new() }
}

/// The media type that a request prefers: the first one of its `Accept` header, parameters
/// left out; JSON when it has no such header.
pub open spec fn first_accept_of(accept: Option<Seq<char>>) -> Seq<char> {
    match accept {
        Some(a) => before_first(before_first(a, ';'), ','),
        None => "application/json"@,
    }
}

/// The media type that a request with the `Accept` header `accept` prefers.
pub fn first_accept(accept: Option<&str>) -> (t: String)
    ensures
        t@ == first_accept_of(match accept {
            Some(a) => Some(a@),
            None => None,
        }),
{
    match accept {
        None => owned("application/json"),
        Some(a) => {
            let v = chars_of(a);
            let n = position_of(&v, ';');
            let w = string_of(&v, 0, n);
            let u = chars_of(w.as_str());
            let m = position_of(&u, ',');
            assert(u@.take(m as int) =~= u@.subrange(0, m as int));
            assert(v@.take(n as int) =~= v@.subrange(0, n as int));
            string_of(&u, 0, m)
        },
    }
}

/// The preferred media type holds neither a `;` nor a `,`: parameters and further media
/// types are left out.
pub proof fn lemma_first_accept_bare(accept: Option<Seq<char>>)
    ensures
        !first_accept_of(accept).contains(';'),
        !first_accept_of(accept).contains(','),
{
    match accept {
        Some(a) => {
            let b = before_first(a, ';');
            let c = before_first(b, ',');
            crate::text::lemma_count_before_bounds(a, ';');
            crate::text::lemma_count_before_bounds(b, ',');
            assert forall|i: int| 0 <= i < c.len() implies c[i] != ';' && c[i] != ',' by {
                assert(c[i] == b[i]);
                assert(b[i] == a[i]);
            }
        },
        None => {
            reveal_strlit("application/json");
        },
    }
}

/// How a `GET` is answered, by the media type that it prefers.
#[derive(PartialEq, Eq, Structural, Debug, Clone, Copy)]
pub enum QueryMode {
    /// A subscription whose samples are streamed as server-sent events.
    EventStream,
    /// A query answered with an HTML definition list.
    Html,
    /// A query answered with a JSON array.
    Json,
}

/// How a `GET` that prefers `accept` is answered.
pub open spec fn query_mode_of(accept: Seq<char>) -> QueryMode {
    if accept == "text/event-stream"@ {
        QueryMode::EventStream
    } else if accept == "text/html"@ {
        QueryMode::Html
    } else {
        QueryMode::Json
    }
}

/// How a `GET` that prefers `accept` is answered.
pub fn query_mode(accept: &str) -> (m: QueryMode)
    ensures
        m == query_mode_of(accept@),
{
    if same_text(accept, "text/event-stream") {
        QueryMode::EventStream
    } else if same_text(accept, "text/html") {
        QueryMode::Html
    } else {
        QueryMode::Json
    }
}

/// The key expression that a request path names: the path itself, except that the local
/// router's admin space `/@/router/local` names the router with id `pid`.
pub open spec fn key_expr_of(path: Seq<char>, pid: Seq<char>) -> Seq<char> {
    if path == "/@/router/local"@ {
        "/@/router/"@ + pid
    } else if "/@/router/local/"@.is_prefix_of(path) {
        "/@/router/"@ + pid + "/"@ + path.skip(16)
    } else {
        path
    }
}

/// `/@/router/local` names the local router: the path `/@/router/local` and every path
/// `/@/router/local/` + `s` name the same key under the router's own id, with the whole rest
/// `s` of the path kept; every path outside `/@/router/local` names itself.
pub proof fn lemma_local_router_paths(pid: Seq<char>, s: Seq<char>, path: Seq<char>)
    ensures
        key_expr_of("/@/router/local"@, pid) == "/@/router/"@ + pid,
        key_expr_of("/@/router/local/"@ + s, pid) == "/@/router/"@ + pid + "/"@ + s,
        !"/@/router/local"@.is_prefix_of(path) ==> key_expr_of(path, pid) == path,
{
    reveal_strlit("/@/router/local/");
    reveal_strlit("/@/router/local");
    let p = "/@/router/local/"@ + s;
    assert(p.subrange(0, 16) =~= "/@/router/local/"@);
    assert(p.len() != "/@/router/local"@.len());
    assert(p.skip(16) =~= s);
    if !"/@/router/local"@.is_prefix_of(path) {
        if "/@/router/local/"@.is_prefix_of(path) {
            assert(path.subrange(0, 15) =~= "/@/router/local/"@.subrange(0, 15));
            assert("/@/router/local/"@.subrange(0, 15) =~= "/@/router/local"@);
        }
        assert(path != "/@/router/local"@ || path.subrange(0, 15) =~= path);
    }
}

/// The key expression that a request path names, on the router with id `pid`.
pub fn path_to_key_expr(path: &str, pid: &str) -> (k: String)
    ensures
        k@ == key_expr_of(path@, pid@),
{
    proof {
        reveal_strlit("/@/router/local/");
    }
    if same_text(path, "/@/router/local") {
        let mut k = owned("/@/router/");
        push_str(&mut k, pid);
        k
    } else if starts_with_text(path, "/@/router/local/") {
        let v = chars_of(path);
        let suffix = string_of(&v, 16, v.len());
        assert(suffix@ =~= path@.skip(16));
        let mut k = owned("/@/router/");
        push_str(&mut k, pid);
        push_str(&mut k, "/");
        push_str(&mut k, suffix.as_str());
        k
    } else {
        owned(path)
    }
}

/// What a query asks of zenoh: a key expression and, when the request has a query string,
/// the value selector `?query`.
pub struct QuerySelector {
    pub key_expr: String,
    pub value_selector: Option<String>,
}

/// The selector of a query on `path` with query string `query`, on the router `pid`.
pub fn query_selector(path: &str, pid: &str, query: Option<&str>) -> (s: QuerySelector)
    ensures
        s.key_expr@ == key_expr_of(path@, pid@),
        match query {
            Some(q) => s.value_selector matches Some(v) && v@ == seq!['?'] + q@,
            None => s.value_selector is None,
        },
{
    proof {
        reveal_strlit("?");
    }
    let key_expr = path_to_key_expr(path, pid);
    let value_selector = match query {
        Some(q) => {
            let mut v = owned("?");
            push_str(&mut v, q);
            Some(v)
        },
        None => None,
    };
    QuerySelector { key_expr, value_selector }
}

/// How the replies to a query are consolidated.
#[derive(PartialEq, Eq, Structural, Debug, Clone, Copy)]
pub enum QueryConsolidation {
    /// No consolidation: every reply is kept, as a query over a range of times needs.
    Disabled,
    /// The session's default consolidation.
    SessionDefault,
}

/// The consolidation of a query: none when its selector has a time range, so that every
/// sample of the range comes back; the default otherwise.
pub fn query_consolidation(has_time_range: bool) -> (c: QueryConsolidation)
    ensures
        c == (if has_time_range { QueryConsolidation::Disabled } else { QueryConsolidation::SessionDefault }),
{
    if has_time_range {
        QueryConsolidation::Disabled
    } else {
        QueryConsolidation::SessionDefault
    }
}

/// The response to a query that received `result`: the HTML list of its samples when the
/// request prefers `text/html`, their JSON array otherwise; the error's text when the query
/// failed.
pub fn query_reply(accept: &str, result: &Result<Vec<Sample>, String>) -> (r: HttpResponse)
    ensures
        match result {
            Ok(samples) => if accept@ == "text/html"@ {
                is_response(r, STATUS_OK, "text/html"@, samples_html(samples@))
            } else {
                is_response(r, STATUS_OK, "application/json"@, samples_json(samples@))
            },
            Err(e) => is_response(r, STATUS_INTERNAL_SERVER_ERROR, "text/plain"@, e@),
        },
{
    match result {
        Ok(samples) => {
            if same_text(accept, "text/html") {
                let body = to_html(samples);
                response(STATUS_OK, "text/html", body.as_str())
            } else {
                let body = to_json(samples);
                response(STATUS_OK, "application/json", body.as_str())
            }
        },
        Err(e) => response(STATUS_INTERNAL_SERVER_ERROR, "text/plain", e.as_str()),
    }
}

/// An event of a server-sent event stream.
pub struct SseEvent {
    pub name: String,
    pub data: String,
}

/// The event that streams a sample: named by its kind, carrying its JSON object.
pub fn sse_event(s: &Sample) -> (e: SseEvent)
    ensures
        e.name@ == kind_text(s.kind),
        e.data@ == sample_json(*s),
{
    SseEvent { name: owned(kind_name(s.kind)), data: sample_to_json(s) }
}

/// How long, in seconds, an event may take to be sent before the stream is closed.
pub const SSE_SEND_TIMEOUT_SECS: u64 = 10;

/// What a stream does after an attempt to send an event.
#[derive(PartialEq, Eq, Structural, Debug, Clone, Copy)]
pub enum SseStep {
    /// Waits for the next sample.
    Continue,
    /// Undeclares the subscriber and ends the stream.
    Close,
}

/// What a stream does once sending an event finished (`true`; failures to send included) or
/// timed out (`false`).
pub fn sse_after_send(sent_in_time: bool) -> (s: SseStep)
    ensures
        s == (if sent_in_time { SseStep::Continue } else { SseStep::Close }),
{
    if sent_in_time {
        SseStep::Continue
    } else {
        SseStep::Close
    }
}

/// What a write asks of zenoh: the key expression, the encoding and the kind of the sample to
/// publish.
pub struct PutRequest {
    pub key_expr: String,
    pub encoding: Encoding,
    pub kind: SampleKind,
}

/// The publication that a write request on `path` with content type `content_type` and
/// method `method` asks for, on the router `pid`. Without content type the encoding is the
/// empty one.
pub fn put_request(path: &str, pid: &str, content_type: Option<&str>, method: HttpMethod) -> (p: PutRequest)
    ensures
        p.key_expr@ == key_expr_of(path@, pid@),
        match content_type {
            Some(c) => (p.encoding.prefix, p.encoding.suffix@) == encoding_of_text(c@),
            None => p.encoding.prefix == KnownEncoding::Empty && p.encoding.suffix@.len() == 0,
        },
        p.kind == kind_of_method(method),
{
    let key_expr = path_to_key_expr(path, pid);
    let encoding = match content_type {
        Some(c) => Encoding::from_mime(c),
        None => Encoding::exact(KnownEncoding::Empty),
    };
    PutRequest { key_expr, encoding, kind: method_to_kind(method) }
}

/// How a write request went.
pub enum WriteOutcome {
    /// Its body could not be read, for the given reason.
    BodyUnreadable(String),
    /// Zenoh refused the publication, for the given reason.
    PutFailed(String),
    /// The sample was published.
    Published,
}

/// The response to a write request.
pub fn write_reply(outcome: &WriteOutcome) -> (r: HttpResponse)
    ensures
        match outcome {
            WriteOutcome::BodyUnreadable(e) => is_response(r, STATUS_NO_CONTENT, "text/plain"@, e@),
            WriteOutcome::PutFailed(e) => is_response(r, STATUS_INTERNAL_SERVER_ERROR, "text/plain"@, e@),
            WriteOutcome::Published => is_bare_response(r, STATUS_OK),
        },
{
    match outcome {
        WriteOutcome::BodyUnreadable(e) => response(STATUS_NO_CONTENT, "text/plain", e.as_str()),
        WriteOutcome::PutFailed(e) => response(STATUS_INTERNAL_SERVER_ERROR, "text/plain", e.as_str()),
        WriteOutcome::Published => bare_response(STATUS_OK),
    }
}

} // verus!
