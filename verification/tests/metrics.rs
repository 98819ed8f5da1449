//! What is recorded and reported of a request.

use dropshot_otel::metrics::{
    is_request_span, nearest_request_span, request_attributes, request_key_values,
    CompletedRequest, RequestState, SpanMetadata, DURATION_DESCRIPTION, DURATION_METRIC,
    DURATION_UNIT,
};
use opentelemetry::metrics::MeterProvider;
use opentelemetry::KeyValue;
use opentelemetry_sdk::metrics::data::{AggregatedMetrics, MetricData};
use opentelemetry_sdk::metrics::{InMemoryMetricExporter, SdkMeterProvider};
use std::time::Duration;

#[test]
fn test_duration_histogram() {
    let exporter = InMemoryMetricExporter::default();
    let provider =
        SdkMeterProvider::builder().with_periodic_exporter(exporter.clone()).build();
    let histogram = provider
        .meter("test")
        .f64_histogram(DURATION_METRIC)
        .with_unit(DURATION_UNIT)
        .with_description(DURATION_DESCRIPTION)
        .with_boundaries(vec![
            0.005, 0.01, 0.025, 0.05, 0.075, 0.1, 0.25, 0.5, 0.75, 1.0, 2.5, 5.0, 7.5, 10.0,
        ])
        .build();
    let record = |request: &CompletedRequest| {
        histogram.record(request.duration.as_secs_f64(), &request_key_values(request));
    };

    let mut ok = CompletedRequest::default();
    ok.method = "GET".to_string();
    ok.url_path = "/items/1".to_string();
    ok.url_scheme = "http".to_string();
    ok.protocol_version = Some("1.1".to_string());
    ok.server_address = Some("localhost".to_string());
    ok.server_port = Some(8080);
    ok.route = Some("/items/{id}".to_string());
    ok.operation_id = Some("get_item".to_string());
    ok.status_code = Some(200);
    ok.error_type = None;
    ok.duration = Duration::from_millis(30);
    ok.labels.insert("tenant".to_string(), "acme".to_string());
    // Labels can't override the standard attributes.
    ok.labels.insert("http.route".to_string(), "/elsewhere".to_string());
    record(&ok);
    let mut disconnected = CompletedRequest::default();
    disconnected.method = "_OTHER".to_string();
    disconnected.url_path = "/hang".to_string();
    disconnected.url_scheme = "https".to_string();
    disconnected.error_type = Some("client_disconnect".to_string());
    disconnected.duration = Duration::from_secs(2);
    record(&disconnected);
    provider.force_flush().unwrap();

    let metrics = exporter.get_finished_metrics().unwrap();
    let metric = metrics
        .iter()
        .flat_map(|rm| rm.scope_metrics())
        .flat_map(|sm| sm.metrics())
        .find(|m| m.name() == "http.server.request.duration")
        .expect("no http.server.request.duration metric");
    assert_eq!(metric.unit(), "s");
    assert_eq!(metric.description(), "Duration of HTTP server requests.");
    let AggregatedMetrics::F64(MetricData::Histogram(histogram)) = metric.data() else {
        panic!("not an f64 histogram: {:?}", metric.data());
    };
    let points: Vec<_> = histogram
        .data_points()
        .map(|point| {
            let mut attributes: Vec<KeyValue> = point.attributes().cloned().collect();
            attributes.sort_by(|a, b| a.key.cmp(&b.key));
            (attributes, point)
        })
        .collect();
    assert_eq!(points.len(), 2, "{:#?}", histogram);
    let find = |method: &str| {
        points
            .iter()
            .find(|(attributes, _)| {
                attributes.contains(&KeyValue::new("http.request.method", method.to_string()))
            })
            .unwrap_or_else(|| panic!("no data point for {}", method))
    };

    let (attributes, point) = find("GET");
    assert_eq!(
        *attributes,
        [
            KeyValue::new("http.request.method", "GET"),
            KeyValue::new("http.response.status_code", 200),
            KeyValue::new("http.route", "/items/{id}"),
            KeyValue::new("network.protocol.version", "1.1"),
            KeyValue::new("tenant", "acme"),
            KeyValue::new("url.scheme", "http"),
        ]
    );
    assert_eq!(point.count(), 1);
    assert!((point.sum() - 0.030).abs() < 1e-9, "{}", point.sum());
    assert_eq!(
        point.bounds().collect::<Vec<_>>(),
        [0.005, 0.01, 0.025, 0.05, 0.075, 0.1, 0.25, 0.5, 0.75, 1.0, 2.5, 5.0, 7.5, 10.0]
    );

    let (attributes, point) = find("_OTHER");
    assert_eq!(
        *attributes,
        [
            KeyValue::new("error.type", "client_disconnect"),
            KeyValue::new("http.request.method", "_OTHER"),
            KeyValue::new("url.scheme", "https"),
        ]
    );
    assert_eq!(point.count(), 1);
    assert!((point.sum() - 2.0).abs() < 1e-9, "{}", point.sum());
}

#[test]
fn fields_are_taken_in_by_name() {
    let mut request = CompletedRequest::default();
    assert_eq!(request.duration, Duration::ZERO);
    for (field, value) in [
        ("http.request.method", "GET"),
        ("url.path", "/items/7"),
        ("url.scheme", "https"),
        ("network.protocol.version", "2"),
        ("server.address", "example.com"),
        ("http.route", "/items/{id}"),
        ("dropshot.operation_id", "get_item"),
        ("error.type", "500"),
        ("user_agent.original", "span-test/1.0"),
    ] {
        request.record_str(field, value);
    }
    request.record_i64("server.port", 8080);
    request.record_i64("http.response.status_code", 500);
    request.record_i64("network.peer.port", 1);
    request.record_debug("http.route", "/elsewhere");
    // Fields are taken in only with values of their own type.
    request.record_str("server.port", "1");
    request.record_i64("url.path", 1);
    assert_eq!(request.method, "GET");
    assert_eq!(request.url_path, "/items/7");
    assert_eq!(request.url_scheme, "https");
    assert_eq!(request.protocol_version.as_deref(), Some("2"));
    assert_eq!(request.server_address.as_deref(), Some("example.com"));
    assert_eq!(request.route.as_deref(), Some("/items/{id}"));
    assert_eq!(request.operation_id.as_deref(), Some("get_item"));
    assert_eq!(request.error_type.as_deref(), Some("500"));
    assert_eq!(request.server_port, Some(8080));
    assert_eq!(request.status_code, Some(500));
    assert!(request.labels.is_empty());
}

#[test]
fn later_fields_replace_earlier_ones() {
    let mut request = CompletedRequest::default();
    request.record_str("http.route", "/a");
    request.record_str("http.route", "/b");
    assert_eq!(request.route.as_deref(), Some("/b"));
    request.record_i64("http.response.status_code", 65535);
    assert_eq!(request.status_code, Some(65535));
    // A number that is no status code is not taken for one.
    request.record_i64("http.response.status_code", 65536);
    assert_eq!(request.status_code, None);
    request.record_i64("http.response.status_code", 0);
    assert_eq!(request.status_code, Some(0));
    request.record_i64("http.response.status_code", -1);
    assert_eq!(request.status_code, None);
}

#[test]
fn request_spans_have_their_target_and_name() {
    assert!(is_request_span("dropshot::instrument", "dropshot_request"));
    assert!(!is_request_span("dropshot::instrument", "request"));
    assert!(!is_request_span("myapp", "dropshot_request"));
}

fn metadata(target: &str, name: &str) -> SpanMetadata {
    SpanMetadata { target: target.to_string(), name: name.to_string() }
}

#[test]
fn labels_attach_to_the_nearest_request_span() {
    let request = || metadata("dropshot::instrument", "dropshot_request");
    let other = || metadata("myapp", "handler");
    assert_eq!(nearest_request_span(&vec![request()]), Some(0));
    assert_eq!(nearest_request_span(&vec![other(), other(), request(), request()]), Some(2));
    assert_eq!(nearest_request_span(&vec![other()]), None);
    assert_eq!(nearest_request_span(&Vec::new()), None);
}

#[test]
fn state_is_kept_for_request_spans_only() {
    assert!(RequestState::on_new_span("myapp", "handler", 3).is_none());
    let mut state =
        RequestState::on_new_span("dropshot::instrument", "dropshot_request", 3).unwrap();
    assert_eq!(state.start, 3);
    state.request.record_str("http.request.method", "GET");
    state.label("tenant", "acme");
    state.label("plan", "free");
    // A later label with the same key replaces an earlier one.
    state.label("plan", "pro");
    let request = state.on_close(Duration::from_millis(5));
    assert_eq!(request.method, "GET");
    assert_eq!(request.duration, Duration::from_millis(5));
    assert_eq!(request.labels.len(), 2);
    assert_eq!(request.labels.get("plan").map(String::as_str), Some("pro"));
    assert_eq!(request.labels.get("tenant").map(String::as_str), Some("acme"));
    let copy = request.clone();
    assert_eq!(copy.method, "GET");
    assert_eq!(copy.labels.get("plan").map(String::as_str), Some("pro"));
}

#[test]
fn labels_follow_standard_attributes_in_key_order() {
    let mut request = CompletedRequest::default();
    request.method = "GET".to_string();
    request.url_scheme = "http".to_string();
    request.status_code = Some(404);
    for key in ["b", "a", "url.scheme", "error.type", "http.response.status_code", "http.route"] {
        request.labels.insert(key.to_string(), "label".to_string());
    }
    assert_eq!(
        request_key_values(&request),
        [
            KeyValue::new("http.request.method", "GET"),
            KeyValue::new("url.scheme", "http"),
            KeyValue::new("http.response.status_code", 404),
            KeyValue::new("a", "label"),
            KeyValue::new("b", "label"),
        ]
    );
    assert_eq!(request_attributes(&request).len(), 5);
    assert_eq!(request_attributes(&request)[3].key, "a");
}

#[test]
fn attributes_ignore_what_the_client_chose() {
    let mut request = CompletedRequest::default();
    request.record_str("http.request.method", "GET");
    let before = request_key_values(&request);
    request.record_str("url.path", "/items/7");
    request.record_str("server.address", "example.com");
    request.record_i64("server.port", 80);
    assert_eq!(request_key_values(&request), before);
}
