use zenoh_plugin_rest::http::{query_consolidation, QueryConsolidation};
use zenoh_plugin_rest::http::{
    bare_response, sse_after_send, SseStep, STATUS_INTERNAL_SERVER_ERROR, STATUS_NO_CONTENT,
    STATUS_OK,
};
use zenoh_plugin_rest::{
    first_accept, method_to_kind, path_to_key_expr, put_request, query_mode, query_reply,
    query_selector, response, route, sample_to_json, sse_event, write_reply, Encoding, Handler,
    HttpMethod, HttpResponse, KnownEncoding, QueryMode, Sample, SampleKind, Value, WriteOutcome,
};

fn headers(r: &HttpResponse) -> Vec<(&str, &str)> {
    r.headers.iter().map(|(k, v)| (k.as_str(), v.as_str())).collect()
}

#[test]
fn methods_give_kinds() {
    assert_eq!(method_to_kind(HttpMethod::Put), SampleKind::Put);
    assert_eq!(method_to_kind(HttpMethod::Patch), SampleKind::Patch);
    assert_eq!(method_to_kind(HttpMethod::Delete), SampleKind::Delete);
    assert_eq!(method_to_kind(HttpMethod::Get), SampleKind::Put);
    assert_eq!(method_to_kind(HttpMethod::Other), SampleKind::Put);
}

#[test]
fn routes() {
    assert_eq!(route(HttpMethod::Get), Some(Handler::Query));
    assert_eq!(route(HttpMethod::Put), Some(Handler::Write));
    assert_eq!(route(HttpMethod::Patch), Some(Handler::Write));
    assert_eq!(route(HttpMethod::Delete), Some(Handler::Write));
    assert_eq!(route(HttpMethod::Post), None);
    assert_eq!(route(HttpMethod::Head), None);
}

#[test]
fn response_headers_count_bytes() {
    let r = response(STATUS_OK, "text/plain", "héllo");
    assert_eq!(r.status, 200);
    assert_eq!(headers(&r), vec![("content-length", "6"), ("Access-Control-Allow-Origin", "*")]);
    assert_eq!(r.content_type.as_deref(), Some("text/plain"));
    assert_eq!(r.body, "héllo");
    let r = response(STATUS_OK, "text/html", "");
    assert_eq!(headers(&r)[0], ("content-length", "0"));
    let r = bare_response(STATUS_OK);
    assert!(r.headers.is_empty() && r.content_type.is_none() && r.body.is_empty());
}

#[test]
fn preferred_media_type() {
    assert_eq!(first_accept(None), "application/json");
    assert_eq!(first_accept(Some("text/html,application/xhtml+xml;q=0.9")), "text/html");
    assert_eq!(first_accept(Some("text/event-stream;q=1,text/html")), "text/event-stream");
    assert_eq!(first_accept(Some("")), "");
    assert_eq!(first_accept(Some("*/*")), "*/*");
    for a in ["a;b,c", "a,b;c", ";", ","] {
        let t = first_accept(Some(a));
        assert!(!t.contains(';') && !t.contains(','));
    }
}

#[test]
fn query_modes() {
    assert_eq!(query_mode("text/event-stream"), QueryMode::EventStream);
    assert_eq!(query_mode("text/html"), QueryMode::Html);
    assert_eq!(query_mode("application/json"), QueryMode::Json);
    assert_eq!(query_mode("text/html "), QueryMode::Json);
}

#[test]
fn admin_space_paths() {
    assert_eq!(path_to_key_expr("/@/router/local", "ab12"), "/@/router/ab12");
    assert_eq!(path_to_key_expr("/@/router/local/linkstate", "ab12"), "/@/router/ab12/linkstate");
    assert_eq!(path_to_key_expr("/@/router/local/", "ab12"), "/@/router/ab12/");
    assert_eq!(path_to_key_expr("/@/router/localhost", "ab12"), "/@/router/localhost");
    assert_eq!(path_to_key_expr("/demo/**", "ab12"), "/demo/**");
}

#[test]
fn selectors() {
    let s = query_selector("/demo/*", "p", Some("starttime=now()-1h"));
    assert_eq!(s.key_expr, "/demo/*");
    assert_eq!(s.value_selector.as_deref(), Some("?starttime=now()-1h"));
    let s = query_selector("/@/router/local", "p", None);
    assert_eq!(s.key_expr, "/@/router/p");
    assert_eq!(s.value_selector, None);
}

fn int_sample(key: &str, n: &str) -> Sample {
    Sample {
        key_expr: key.to_string(),
        value: Value { payload: n.as_bytes().to_vec(), encoding: Encoding::exact(KnownEncoding::AppInteger) },
        kind: SampleKind::Patch,
        timestamp: None,
    }
}

#[test]
fn query_replies() {
    let ok: Result<Vec<Sample>, String> = Ok(vec![int_sample("/a", "1")]);
    let r = query_reply("text/html", &ok);
    assert_eq!(r.status, 200);
    assert_eq!(r.content_type.as_deref(), Some("text/html"));
    assert_eq!(r.body, "<dl>\n<dt>/a</dt>\n<dd>1</dd>\n\n</dl>\n");
    let r = query_reply("application/json", &ok);
    assert_eq!(r.content_type.as_deref(), Some("application/json"));
    assert!(r.body.starts_with("[\n{ \"key\": \"/a\", \"value\": 1,"));
    let err: Result<Vec<Sample>, String> = Err("timeout".to_string());
    let r = query_reply("text/html", &err);
    assert_eq!(r.status, STATUS_INTERNAL_SERVER_ERROR);
    assert_eq!(r.content_type.as_deref(), Some("text/plain"));
    assert_eq!(r.body, "timeout");
    assert_eq!(headers(&r)[0], ("content-length", "7"));
}

#[test]
fn sse_events() {
    let s = int_sample("/a", "5");
    let e = sse_event(&s);
    assert_eq!(e.name, "PATCH");
    assert_eq!(e.data, sample_to_json(&s));
    assert_eq!(sse_after_send(true), SseStep::Continue);
    assert_eq!(sse_after_send(false), SseStep::Close);
}

#[test]
fn put_requests() {
    let p = put_request("/demo/x", "p", Some("text/plain;charset=utf-8"), HttpMethod::Put);
    assert_eq!(p.key_expr, "/demo/x");
    assert_eq!(p.encoding.prefix, KnownEncoding::TextPlain);
    assert_eq!(p.encoding.suffix, ";charset=utf-8");
    assert_eq!(p.kind, SampleKind::Put);
    let p = put_request("/@/router/local/x", "p", None, HttpMethod::Delete);
    assert_eq!(p.key_expr, "/@/router/p/x");
    assert_eq!(p.encoding.prefix, KnownEncoding::Empty);
    assert_eq!(p.encoding.suffix, "");
    assert_eq!(p.kind, SampleKind::Delete);
}

#[test]
fn write_replies() {
    let r = write_reply(&WriteOutcome::Published);
    assert_eq!(r.status, STATUS_OK);
    assert!(r.headers.is_empty() && r.content_type.is_none() && r.body.is_empty());
    let r = write_reply(&WriteOutcome::BodyUnreadable("bad body".to_string()));
    assert_eq!(r.status, STATUS_NO_CONTENT);
    assert_eq!(r.body, "bad body");
    assert_eq!(r.content_type.as_deref(), Some("text/plain"));
    let r = write_reply(&WriteOutcome::PutFailed("refused".to_string()));
    assert_eq!(r.status, 500);
    assert_eq!(r.body, "refused");
}

#[test]
fn text_written_is_read_back_as_a_json_string() {
    let put = put_request("/demo/t", "p", Some("text/plain;charset=utf-8"), HttpMethod::Put);
    let stored = Sample {
        key_expr: put.key_expr,
        value: Value { payload: b"a \"b\"".to_vec(), encoding: put.encoding },
        kind: put.kind,
        timestamp: None,
    };
    let r = query_reply("application/json", &Ok(vec![stored]));
    assert_eq!(
        r.body,
        "[\n{ \"key\": \"/demo/t\", \"value\": \"a \\\"b\\\"\", \"encoding\": \"text/plain;charset=utf-8\", \"time\": \"None\" }\n]\n"
    );
}

#[test]
fn consolidation_follows_time_range() {
    assert_eq!(query_consolidation(true), QueryConsolidation::Disabled);
    assert_eq!(query_consolidation(false), QueryConsolidation::SessionDefault);
}
