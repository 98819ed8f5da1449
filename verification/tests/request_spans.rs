//! The fields of request spans, and what is reported of requests.

use dropshot_otel::attribute::{Attribute, AttributeValue};
use dropshot_otel::instrument::{RequestInstrumentation, ResponseInfo};
use dropshot_otel::metrics::CompletedRequest;
use dropshot_otel::propagation::TraceHeaders;
use dropshot_otel::request_span::{
    parse_host, report_method, server_of, HttpVersion, RequestHead, ServerInfo, SocketAddress,
    SPAN_NAME, SPAN_TARGET,
};
use std::collections::BTreeMap;

const TRACEPARENT: &str = "00-0af7651916cd43dd8448eb211c80319c-b7ad6b7169203331-01";

/// A span field value.
#[derive(Clone, Debug, PartialEq)]
enum Value {
    Str(String),
    I64(i64),
}

/// The fields recorded on a span.
#[derive(Debug, Default)]
struct Fields(BTreeMap<String, Value>);

impl Fields {
    fn record(&mut self, fields: Vec<Attribute>) {
        for field in fields {
            let value = match field.value {
                AttributeValue::Text(text) => Value::Str(text),
                AttributeValue::Integer(number) => Value::I64(number),
            };
            self.0.insert(field.key, value);
        }
    }

    /// Asserts the value of a field, or its absence (`None`).
    fn assert_field(&self, field: &str, expected: Option<Value>) {
        assert_eq!(self.0.get(field), expected.as_ref(), "field {:?} of {:#?}", field, self);
    }
}

fn text(value: &str) -> Option<Value> {
    Some(Value::Str(value.to_string()))
}

fn number(value: i64) -> Option<Value> {
    Some(Value::I64(value))
}

fn address(port: u16) -> SocketAddress {
    SocketAddress { ip: "127.0.0.1".to_string(), port }
}

/// A server with an endpoint for a method outside the standard list.
fn server() -> ServerInfo {
    ServerInfo {
        local_addr: address(8080),
        https: false,
        methods: vec!["GET".to_string(), "PROPFIND".to_string()],
    }
}

/// A request without any headers but `Host`.
fn request(method: &str, path: &str, host: Option<&str>) -> RequestHead {
    RequestHead {
        method: method.to_string(),
        path: path.to_string(),
        query: None,
        version: HttpVersion::Http11,
        authority: None,
        host: host.map(str::to_string),
        user_agent: None,
        traceparent: None,
        tracestate: None,
    }
}

/// The fields of the span of a request that has started, and its handle.
fn start(request: &RequestHead) -> (RequestInstrumentation<'static>, Fields) {
    let started = RequestInstrumentation::start(&server(), request, "id-1", address(4711));
    let mut fields = Fields::default();
    fields.record(started.span);
    (started.instrumentation, fields)
}

#[test]
fn test_request_span_success() {
    let mut head = request("GET", "/items/7", Some("127.0.0.1:8080"));
    head.query = Some("color=blue".to_string());
    head.user_agent = Some("span-test/1.0".to_string());
    head.traceparent = Some(TRACEPARENT.to_string());
    head.tracestate = Some("vendor=value".to_string());
    let (handle, mut span) = start(&head);
    span.record(handle.routed("/items/{id}", "get_item"));
    span.record(handle.responded(200).span);

    span.assert_field("otel.kind", text("server"));
    span.assert_field("otel.name", text("GET /items/{id}"));
    span.assert_field("http.request.method", text("GET"));
    span.assert_field("http.request.method_original", None);
    span.assert_field("url.path", text("/items/7"));
    span.assert_field("url.query", text("color=blue"));
    span.assert_field("url.scheme", text("http"));
    span.assert_field("network.protocol.version", text("1.1"));
    span.assert_field("server.address", text("127.0.0.1"));
    span.assert_field("server.port", number(8080));
    span.assert_field("client.address", text("127.0.0.1"));
    span.assert_field("network.peer.address", text("127.0.0.1"));
    span.assert_field("network.peer.port", number(4711));
    span.assert_field("client.port", None);
    span.assert_field("user_agent.original", text("span-test/1.0"));
    span.assert_field("http.request.header.traceparent", text(TRACEPARENT));
    span.assert_field("http.request.header.tracestate", text("vendor=value"));
    span.assert_field("dropshot.request_id", text("id-1"));
    span.assert_field("http.route", text("/items/{id}"));
    span.assert_field("dropshot.operation_id", text("get_item"));
    span.assert_field("http.response.status_code", number(200));
    for field in [
        "error.type",
        "otel.status_code",
        "otel.status_description",
        "dropshot.error.message",
        "dropshot.error.message_external",
        "http.request.uri",
        "http.request.id",
        "traceparent",
        "error",
    ] {
        span.assert_field(field, None);
    }
    assert_eq!(SPAN_TARGET, "dropshot::instrument");
    assert_eq!(SPAN_NAME, "dropshot_request");
}

#[test]
fn test_request_span_minimal_request() {
    // HTTP/1.0 without a Host header, query string, or other headers.
    let mut head = request("GET", "/items/7", None);
    head.version = HttpVersion::Http10;
    let (_, span) = start(&head);
    span.assert_field("network.protocol.version", text("1.0"));
    span.assert_field("url.path", text("/items/7"));
    for field in [
        "url.query",
        "server.address",
        "server.port",
        "user_agent.original",
        "http.request.header.traceparent",
        "http.request.header.tracestate",
    ] {
        span.assert_field(field, None);
    }
}

#[test]
fn test_request_span_server_address() {
    // Without a port, the port is the scheme's default.
    let (_, span) = start(&request("GET", "/items/1", Some("example.com")));
    span.assert_field("server.address", text("example.com"));
    span.assert_field("server.port", number(80));
    // IPv6 literals are reported without their brackets.
    let (_, span) = start(&request("GET", "/items/2", Some("[::1]:8080")));
    span.assert_field("server.address", text("::1"));
    span.assert_field("server.port", number(8080));
}

#[test]
fn test_request_span_client_error() {
    let (handle, mut span) = start(&request("GET", "/bad", Some("h")));
    span.record(handle.errored(400, Some("bad thing"), "bad thing").span);
    span.assert_field("http.response.status_code", number(400));
    // 4xx responses are not errors on server spans.
    span.assert_field("error.type", None);
    span.assert_field("otel.status_code", None);
    span.assert_field("otel.status_description", None);
    span.assert_field("dropshot.error.message", text("bad thing"));
    span.assert_field("dropshot.error.message_external", text("bad thing"));
}

#[test]
fn test_request_span_server_error() {
    let (handle, mut span) = start(&request("GET", "/broken", Some("h")));
    span.record(handle.errored(500, Some("Internal Server Error"), "it broke").span);
    span.assert_field("http.response.status_code", number(500));
    span.assert_field("error.type", text("500"));
    span.assert_field("otel.status_code", text("ERROR"));
    span.assert_field("otel.status_description", text("it broke"));
    span.assert_field("dropshot.error.message", text("it broke"));
    span.assert_field("dropshot.error.message_external", text("Internal Server Error"));
}

#[test]
fn test_request_span_unrouted() {
    let (handle, mut span) = start(&request("GET", "/nowhere", Some("h")));
    span.record(handle.errored(404, Some("Not Found"), "Not Found").span);
    // No route: the span is named for the method alone.
    span.assert_field("otel.name", text("GET"));
    span.assert_field("http.route", None);
    span.assert_field("dropshot.operation_id", None);
    span.assert_field("http.response.status_code", number(404));
}

#[test]
fn test_request_span_unknown_method() {
    let (_, span) = start(&request("FROB", "/items/1", Some("h")));
    span.assert_field("http.request.method", text("_OTHER"));
    span.assert_field("http.request.method_original", text("FROB"));
    span.assert_field("otel.name", text("HTTP"));
    span.assert_field("http.route", None);
}

#[test]
fn test_request_span_method_case() {
    // Methods are routed case-insensitively, and the span reports the canonical
    // method.
    let (handle, mut span) = start(&request("get", "/items/1", Some("h")));
    span.record(handle.routed("/items/{id}", "get_item"));
    span.assert_field("http.request.method", text("GET"));
    span.assert_field("http.request.method_original", text("get"));
    span.assert_field("otel.name", text("GET /items/{id}"));
}

#[test]
fn test_request_span_routed_custom_method() {
    // A method some endpoint handles counts as known, even if it's not a
    // standard one.
    let (handle, mut span) = start(&request("PROPFIND", "/dav", Some("h")));
    span.record(handle.routed("/dav", "propfind_dav"));
    span.assert_field("http.request.method", text("PROPFIND"));
    span.assert_field("http.request.method_original", None);
    span.assert_field("otel.name", text("PROPFIND /dav"));
}

#[test]
fn test_request_span_client_disconnect() {
    let (handle, mut span) = start(&request("GET", "/hang", Some("h")));
    span.record(handle.disconnected().span);
    // No response was sent, so there is no status code to report.
    span.assert_field("http.response.status_code", None);
    span.assert_field("error.type", text("client_disconnect"));
    span.assert_field("otel.status_code", text("ERROR"));
    span.assert_field(
        "otel.status_description",
        text("client disconnected before response returned"),
    );
}

#[test]
fn responses_with_server_errors_fail_the_span() {
    for (status_code, failed) in [(200, false), (499, false), (500, true), (599, true), (600, false)]
    {
        let (handle, mut span) = start(&request("GET", "/", None));
        span.record(handle.responded(status_code).span);
        span.assert_field("http.response.status_code", number(i64::from(status_code)));
        span.assert_field("error.type", if failed { text(&status_code.to_string()) } else { None });
        span.assert_field("otel.status_code", if failed { text("ERROR") } else { None });
        span.assert_field("otel.status_description", None);
        span.assert_field("dropshot.error.message", None);
    }
    let (handle, mut span) = start(&request("GET", "/", None));
    span.record(handle.errored(503, None, "overloaded").span);
    span.assert_field("error.type", text("503"));
    span.assert_field("dropshot.error.message_external", None);
}

/// Takes the fields of a span in as what was recorded of a request.
fn take_in(completed: &mut CompletedRequest, fields: Vec<Attribute>) {
    for field in fields {
        match field.value {
            AttributeValue::Text(text) => completed.record_str(&field.key, &text),
            AttributeValue::Integer(number) => completed.record_i64(&field.key, number),
        }
    }
}

#[test]
fn span_fields_reach_completed_requests() {
    let head = request("GET", "/broken", Some("example.com:81"));
    let started = RequestInstrumentation::start(&server(), &head, "id-1", address(4711));
    let mut completed = CompletedRequest::default();
    take_in(&mut completed, started.span);
    take_in(&mut completed, started.instrumentation.routed("/broken", "broken"));
    take_in(&mut completed, started.instrumentation.errored(500, None, "it broke").span);
    assert_eq!(completed.method, "GET");
    assert_eq!(completed.url_path, "/broken");
    assert_eq!(completed.url_scheme, "http");
    assert_eq!(completed.protocol_version.as_deref(), Some("1.1"));
    assert_eq!(completed.server_address.as_deref(), Some("example.com"));
    assert_eq!(completed.server_port, Some(81));
    assert_eq!(completed.route.as_deref(), Some("/broken"));
    assert_eq!(completed.operation_id.as_deref(), Some("broken"));
    assert_eq!(completed.status_code, Some(500));
    assert_eq!(completed.error_type.as_deref(), Some("500"));

    let mut completed = CompletedRequest::default();
    take_in(&mut completed, started.instrumentation.disconnected().span);
    assert_eq!(completed.status_code, None);
    assert_eq!(completed.error_type.as_deref(), Some("client_disconnect"));
}

#[test]
fn span_fields_carry_the_trace_context() {
    let mut head = request("GET", "/", None);
    head.traceparent = Some(TRACEPARENT.to_string());
    let started = RequestInstrumentation::start(&server(), &head, "id-1", address(4711));
    let mut headers = TraceHeaders::default();
    for field in started.span {
        if let AttributeValue::Text(text) = field.value {
            headers.record_str(&field.key, &text);
        }
    }
    assert_eq!(headers.get("traceparent"), Some(TRACEPARENT));
    assert_eq!(headers.get("tracestate"), None);
    assert_eq!(headers.remote_parent().unwrap().span_id, 0xb7ad6b7169203331);
}

#[test]
fn hosts_name_an_address_and_a_port() {
    let parsed = |host, https| parse_host(host, https);
    let endpoint = |address: &str, port| Some((address.to_string(), port));
    assert_eq!(parsed("example.com", true), endpoint("example.com", 443));
    assert_eq!(parsed("example.com:", false), endpoint("example.com", 80));
    assert_eq!(parsed("example.com:65535", false), endpoint("example.com", 65535));
    assert_eq!(parsed("example.com:00080", true), endpoint("example.com", 80));
    assert_eq!(parsed("[::1]", true), endpoint("::1", 443));
    for host in ["", ":80", "[]", "[]:80", "[::1", "[::1]80", "h:65536", "h:8x", "h:1:2", "::1"] {
        assert_eq!(parsed(host, false), None, "{:?}", host);
    }
}

#[test]
fn authorities_come_before_hosts() {
    let mut head = request("GET", "/", Some("example.com"));
    head.authority = Some("user:secret@[::1]:8443".to_string());
    assert_eq!(server_of(&head, true), Some(("::1".to_string(), 8443)));
    head.authority = Some("example.org".to_string());
    let (_, span) = start(&head);
    span.assert_field("server.address", text("example.org"));
    span.assert_field("server.port", number(80));
    head.authority = None;
    assert_eq!(server_of(&head, true), Some(("example.com".to_string(), 443)));
    head.host = None;
    assert_eq!(server_of(&head, true), None);
}

#[test]
fn methods_are_reported_in_canonical_form() {
    for method in
        ["GET", "HEAD", "POST", "PUT", "DELETE", "CONNECT", "OPTIONS", "TRACE", "PATCH", "PROPFIND"]
    {
        assert_eq!(report_method(&server(), method), method);
        assert_eq!(report_method(&server(), &method.to_lowercase()), method);
    }
    assert_eq!(report_method(&server(), "GETS"), "_OTHER");
    assert_eq!(report_method(&server(), ""), "_OTHER");
}

#[test]
fn versions_and_schemes_are_reported() {
    for (version, expected) in [
        (HttpVersion::Http09, "0.9"),
        (HttpVersion::Http10, "1.0"),
        (HttpVersion::Http11, "1.1"),
        (HttpVersion::Http2, "2"),
        (HttpVersion::Http3, "3"),
    ] {
        let mut head = request("GET", "/", None);
        head.version = version;
        start(&head).1.assert_field("network.protocol.version", text(expected));
    }
    let server = ServerInfo { https: true, ..server() };
    let started =
        RequestInstrumentation::start(&server, &request("GET", "/", None), "id-1", address(1));
    let mut fields = Fields::default();
    fields.record(started.span);
    fields.assert_field("url.scheme", text("https"));
}

#[test]
fn requests_are_reported_as_they_start() {
    let mut head = request("get", "/items/7", None);
    head.query = Some("color=blue".to_string());
    let info = RequestInstrumentation::start(&server(), &head, "id-1", address(4711)).info;
    assert_eq!(info.id, "id-1");
    assert_eq!(info.local_addr.port, 8080);
    assert_eq!(info.remote_addr.port, 4711);
    assert_eq!(info.remote_addr.ip, "127.0.0.1");
    assert_eq!(info.method, "get");
    assert_eq!(info.path, "/items/7");
    assert_eq!(info.query.as_deref(), Some("color=blue"));
    let head = request("GET", "/", None);
    let info = RequestInstrumentation::start(&server(), &head, "id-2", address(4711)).info;
    assert_eq!(info.query, None);
}

#[test]
fn requests_are_reported_as_they_end() {
    let (handle, _) = start(&request("GET", "/items/7", None));
    let check = |info: ResponseInfo, status_code, message| {
        assert_eq!(info.id, "id-1");
        assert_eq!(info.local_addr.port, 8080);
        assert_eq!(info.remote_addr.port, 4711);
        assert_eq!(info.status_code, status_code);
        assert_eq!(info.message, message);
    };
    check(handle.responded(200).info, 200, "");
    check(
        handle.errored(500, Some("Internal Server Error"), "it broke").info,
        500,
        "Internal Server Error",
    );
    check(handle.errored(500, None, "it broke").info, 500, "it broke");
    check(handle.disconnected().info, 499, "client disconnected before response returned");
}
