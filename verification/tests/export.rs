//! Scrubbed spans, forwarded events and reports on requests.

use dropshot_otel::attribute::{text_attribute, to_key_value};
use dropshot_otel::instrument::{RequestInfo, ResponseInfo};
use dropshot_otel::otel::{
    request_span_attributes, response_span_attributes, TraceRequest, TraceResponse,
};
use dropshot_otel::request_span::SocketAddress;
use dropshot_otel::scrub::scrub_batch;
use dropshot_otel::slog_bridge::{
    on_event, EventLevel, EventVisitor, FieldKV, FieldValue, LogLevel,
};
use opentelemetry::global::{BoxedSpan, BoxedTracer};
use opentelemetry::trace::{Span, Status, Tracer, TracerProvider};
use opentelemetry::KeyValue;
use opentelemetry_sdk::error::OTelSdkResult;
use opentelemetry_sdk::trace::{
    InMemorySpanExporter, SdkTracerProvider, SpanData, SpanExporter,
};

/// A span exporter that scrubs each span before passing it on.
struct ScrubbingExporter {
    inner: InMemorySpanExporter,
    scrubber: Option<fn(SpanData) -> SpanData>,
}

impl std::fmt::Debug for ScrubbingExporter {
    fn fmt(&self, f: &mut std::fmt::Formatter<'_>) -> std::fmt::Result {
        f.write_str("ScrubbingExporter")
    }
}

impl SpanExporter for ScrubbingExporter {
    fn export(
        &self,
        batch: Vec<SpanData>,
    ) -> impl std::future::Future<Output = OTelSdkResult> + Send {
        self.inner.export(scrub_batch(&self.scrubber, batch))
    }
}

fn redact(mut span: SpanData) -> SpanData {
    for attribute in &mut span.attributes {
        if attribute.key.as_str() == "url.query" {
            attribute.value = "REDACTED".into();
        }
    }
    span
}

fn exported_with(scrubber: Option<fn(SpanData) -> SpanData>) -> Vec<SpanData> {
    let exporter = InMemorySpanExporter::default();
    let provider = SdkTracerProvider::builder()
        .with_simple_exporter(ScrubbingExporter { inner: exporter.clone(), scrubber })
        .build();
    let tracer = provider.tracer("test");
    tracer
        .span_builder("request")
        .with_attributes([
            KeyValue::new("url.query", "token=s3cret"),
            KeyValue::new("url.path", "/items"),
        ])
        .start(&tracer)
        .end();
    exporter.get_finished_spans().unwrap()
}

fn attribute(span: &SpanData, key: &str) -> Option<String> {
    span.attributes
        .iter()
        .find(|kv| kv.key.as_str() == key)
        .map(|kv| kv.value.as_str().into_owned())
}

#[test]
fn test_scrubbing_exporter() {
    let spans = exported_with(Some(redact));
    assert_eq!(spans.len(), 1);
    assert_eq!(attribute(&spans[0], "url.query").as_deref(), Some("REDACTED"));
    assert_eq!(attribute(&spans[0], "url.path").as_deref(), Some("/items"));
}

#[test]
fn spans_are_exported_unchanged_without_a_scrubber() {
    let spans = exported_with(None);
    assert_eq!(spans.len(), 1);
    assert_eq!(attribute(&spans[0], "url.query").as_deref(), Some("token=s3cret"));
}

#[test]
fn every_span_of_a_batch_is_scrubbed_in_order() {
    let double = |x: u8| -> u8 { x.wrapping_mul(2) };
    assert_eq!(scrub_batch(&Some(double), vec![1, 2, 3]), [2, 4, 6]);
    assert_eq!(scrub_batch(&None::<fn(u8) -> u8>, vec![1, 2, 3]), [1, 2, 3]);
    assert!(scrub_batch(&Some(double), Vec::new()).is_empty());
}

/// Emits fields to a serializer that refuses the field with the given key.
fn emit(kv: &FieldKV, refused: &str) -> (Vec<String>, bool) {
    let mut emitted = Vec::new();
    let mut emission = kv.serialize();
    while let Some((key, value)) = emission.field() {
        let text = match value {
            FieldValue::Str(v) => format!("{}={:?}", key, v),
            FieldValue::I64(v) => format!("{}={}i64", key, v),
            FieldValue::U64(v) => format!("{}={}u64", key, v),
            FieldValue::F64(bits) => format!("{}={}f64", key, f64::from_bits(*bits)),
            FieldValue::Bool(v) => format!("{}={}", key, v),
        };
        let accepted = key != refused;
        if accepted {
            emitted.push(text);
        }
        emission.advance(accepted);
    }
    (emitted, emission.failed())
}

fn hello() -> EventVisitor {
    let mut visitor = EventVisitor::default();
    visitor.record_debug("message", "hello from tracing");
    visitor.record_str("string_field", "value");
    visitor.record_i64("int_field", -3);
    visitor.record_u64("uint_field", 7);
    visitor.record_f64("float_field", 0.5f64.to_bits());
    visitor.record_bool("bool_field", true);
    visitor
}

#[test]
fn test_bridge_forwards_events_with_fields() {
    let record = on_event(EventLevel::Info, hello());
    assert_eq!(record.message, "hello from tracing");
    assert_eq!(record.level, LogLevel::Info);
    let (emitted, failed) = emit(&record.fields, "");
    assert_eq!(
        emitted,
        [
            "string_field=\"value\"",
            "int_field=-3i64",
            "uint_field=7u64",
            "float_field=0.5f64",
            "bool_field=true",
        ]
    );
    assert!(!failed);
}

#[test]
fn emission_ends_at_a_refused_field() {
    let record = on_event(EventLevel::Info, hello());
    let (emitted, failed) = emit(&record.fields, "uint_field");
    assert_eq!(emitted, ["string_field=\"value\"", "int_field=-3i64"]);
    assert!(failed);
}

#[test]
fn levels_are_forwarded() {
    for (level, expected) in [
        (EventLevel::Trace, LogLevel::Trace),
        (EventLevel::Debug, LogLevel::Debug),
        (EventLevel::Info, LogLevel::Info),
        (EventLevel::Warn, LogLevel::Warning),
        (EventLevel::Error, LogLevel::Error),
    ] {
        assert_eq!(on_event(level, EventVisitor::default()).level, expected);
    }
}

#[test]
fn only_texts_become_the_message() {
    let mut visitor = EventVisitor::default();
    visitor.record_i64("message", 1);
    visitor.record_debug("other", "Some(1)");
    let record = on_event(EventLevel::Warn, visitor);
    assert_eq!(record.message, "");
    assert_eq!(emit(&record.fields, "").0, ["message=1i64", "other=\"Some(1)\""]);
    let mut visitor = EventVisitor::default();
    visitor.record_str("message", "first");
    visitor.record_str("message", "second");
    visitor.push("pushed", FieldValue::Bool(false));
    let record = on_event(EventLevel::Warn, visitor);
    assert_eq!(record.message, "second");
    assert_eq!(emit(&record.fields, "").0, ["pushed=false"]);
}

/// Traces with a recording span of an SDK tracer, and returns the span.
fn traced(trace: fn(&mut BoxedSpan)) -> SpanData {
    let exporter = InMemorySpanExporter::default();
    let provider =
        SdkTracerProvider::builder().with_simple_exporter(exporter.clone()).build();
    let tracer = BoxedTracer::new(Box::new(provider.tracer("test")));
    let mut span = tracer.start("request");
    trace(&mut span);
    span.end();
    exporter.get_finished_spans().unwrap().remove(0)
}

fn address(port: u16) -> SocketAddress {
    SocketAddress { ip: "127.0.0.1".to_string(), port }
}

fn request_info(method: &str, path: &str) -> RequestInfo {
    RequestInfo {
        id: "id-1".to_string(),
        local_addr: address(1),
        remote_addr: address(2),
        method: method.to_string(),
        path: path.to_string(),
        query: None,
    }
}

fn response_info(status_code: u16, message: &str) -> ResponseInfo {
    ResponseInfo {
        id: "id-1".to_string(),
        local_addr: address(1),
        remote_addr: address(2),
        status_code,
        message: message.to_string(),
    }
}

#[test]
fn spans_describe_requests_and_responses() {
    let span = traced(|span| {
        span.trace_request(request_info("GET", "/items/7"));
        span.trace_response(response_info(500, "it broke"));
    });
    assert_eq!(
        span.attributes,
        [
            KeyValue::new("http.id", "id-1"),
            KeyValue::new("http.method", "GET"),
            KeyValue::new("http.path", "/items/7"),
            KeyValue::new("http.response.status_code", 500),
            KeyValue::new("http.message", "it broke"),
        ]
    );
    assert!(span.events.events.is_empty());
    // Whatever the code, the span keeps its status and its name.
    assert_eq!(span.status, Status::Unset);
    assert_eq!(span.name, "request");
}

#[test]
fn spans_record_errors() {
    let span = traced(|span| span.trace_error("it broke"));
    assert!(span.attributes.is_empty());
    assert_eq!(span.events.events.len(), 1);
    assert_eq!(span.events.events[0].name, "exception");
    assert_eq!(
        span.events.events[0].attributes,
        [KeyValue::new("exception.message", "it broke")]
    );
    assert_eq!(span.status, Status::Unset);
    assert_eq!(span.name, "request");
}

#[test]
fn attributes_become_key_values() {
    let attributes = request_span_attributes(&request_info("PUT", "/"));
    assert_eq!(attributes.len(), 3);
    assert_eq!(attributes[1].key, "http.method");
    let attributes = response_span_attributes(&response_info(65535, ""));
    assert_eq!(attributes.len(), 2);
    let key_values: Vec<KeyValue> = attributes.into_iter().map(to_key_value).collect();
    assert_eq!(key_values[0], KeyValue::new("http.response.status_code", 65535));
    assert_eq!(to_key_value(text_attribute("a", "b")), KeyValue::new("a", "b"));
}
