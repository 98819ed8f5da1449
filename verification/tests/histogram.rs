//! Histogram aggregations, with the OpenTelemetry SDK.

use dropshot_otel::histogram::{HistogramAggregation, HistogramView, Instrument, InstrumentKind};
use dropshot_otel::text_map::TextMap;
use dropshot_otel::{builder, Builder};
use opentelemetry::metrics::MeterProvider;
use opentelemetry_sdk::metrics::data::{AggregatedMetrics, MetricData};
use std::collections::BTreeMap;

use HistogramAggregation::{Explicit, Exponential};

/// Returns what an instrument of the SDK is to the view.
fn described(instrument: &opentelemetry_sdk::metrics::Instrument) -> Instrument {
    let kind = match instrument.kind() {
        opentelemetry_sdk::metrics::InstrumentKind::Histogram => InstrumentKind::Histogram,
        _ => InstrumentKind::Counter,
    };
    Instrument { name: instrument.name().to_string(), kind }
}

/// Returns the aggregation that `view` gives each of a few instruments:
/// histograms named `a` and `B` (with advised boundaries), and a counter.
fn aggregations(view: HistogramView) -> BTreeMap<String, String> {
    let exporter = opentelemetry_sdk::metrics::InMemoryMetricExporter::default();
    let provider = opentelemetry_sdk::metrics::SdkMeterProvider::builder()
        .with_periodic_exporter(exporter.clone())
        .with_view(move |instrument: &opentelemetry_sdk::metrics::Instrument| {
            view.stream(&described(instrument))
        })
        .build();
    let meter = provider.meter("test");
    for name in ["a", "B"] {
        let histogram = meter.f64_histogram(name).with_boundaries(vec![1.0, 10.0]).build();
        histogram.record(0.5, &[]);
    }
    meter.u64_counter("requests").build().add(4, &[]);
    provider.force_flush().unwrap();

    exporter
        .get_finished_metrics()
        .unwrap()
        .iter()
        .flat_map(|rm| rm.scope_metrics())
        .flat_map(|sm| sm.metrics())
        .map(|metric| {
            let aggregation = match metric.data() {
                AggregatedMetrics::F64(MetricData::Histogram(h)) => {
                    let point = h.data_points().next().unwrap();
                    format!("explicit {:?}", point.bounds().collect::<Vec<_>>())
                }
                AggregatedMetrics::F64(MetricData::ExponentialHistogram(_)) => {
                    "exponential".to_string()
                }
                AggregatedMetrics::U64(MetricData::Sum(_)) => "sum".to_string(),
                other => format!("{:?}", other),
            };
            (metric.name().to_string(), aggregation)
        })
        .collect()
}

fn overrides(settings: &[(&str, HistogramAggregation)]) -> TextMap<HistogramAggregation> {
    let mut map = TextMap::new();
    for (name, aggregation) in settings {
        map.insert(name.to_string(), *aggregation);
    }
    map
}

#[test]
fn test_with_histogram_aggregation() {
    let builder: Builder<(), (), ()> = builder("test")
        .with_histogram_aggregation("Payload.Size", Explicit)
        // A later setting for the same instrument wins.
        .with_histogram_aggregation("payload.size", Exponential);
    assert_eq!(builder.histogram_aggregations.len(), 1);
    assert_eq!(builder.histogram_aggregations.key_at(0), "payload.size");
    assert_eq!(builder.histogram_aggregations.get("payload.size"), Some(&Exponential));
}

#[test]
fn test_histogram_view() {
    // Explicit histograms keep their advised boundaries; overrides match
    // instrument names case-insensitively; other kinds of instrument are
    // unaffected.
    let view = HistogramView { default: Explicit, overrides: overrides(&[("b", Exponential)]) };
    assert_eq!(
        aggregations(view),
        [("B", "exponential"), ("a", "explicit [1.0, 10.0]"), ("requests", "sum")]
            .map(|(k, v)| (k.to_string(), v.to_string()))
            .into_iter()
            .collect()
    );

    let view = HistogramView {
        default: Exponential,
        // Keys are lowercased (by `Builder::with_histogram_aggregation`).
        overrides: overrides(&[("a", Explicit)]),
    };
    assert_eq!(
        aggregations(view),
        [("B", "exponential"), ("a", "explicit [1.0, 10.0]"), ("requests", "sum")]
            .map(|(k, v)| (k.to_string(), v.to_string()))
            .into_iter()
            .collect()
    );
}

#[test]
fn exponential_streams_have_the_default_limits() {
    let view = HistogramView { default: Exponential, overrides: TextMap::new() };
    let instrument = Instrument { name: "a".to_string(), kind: InstrumentKind::Histogram };
    let stream = format!("{:?}", view.stream(&instrument).unwrap());
    assert!(stream.contains("max_size: 160"), "{}", stream);
    assert!(stream.contains("max_scale: 20"), "{}", stream);
    assert!(stream.contains("record_min_max: true"), "{}", stream);
}

#[test]
fn only_histograms_have_an_aggregation() {
    let view = HistogramView { default: Exponential, overrides: TextMap::new() };
    for kind in [
        InstrumentKind::Counter,
        InstrumentKind::UpDownCounter,
        InstrumentKind::ObservableCounter,
        InstrumentKind::ObservableUpDownCounter,
        InstrumentKind::Gauge,
        InstrumentKind::ObservableGauge,
    ] {
        let instrument = Instrument { name: "a".to_string(), kind };
        assert_eq!(view.aggregation(&instrument), None);
        assert!(view.stream(&instrument).is_none());
    }
    let instrument = Instrument { name: "a".to_string(), kind: InstrumentKind::Histogram };
    assert_eq!(view.aggregation(&instrument), Some(Exponential));
    assert!(view.stream(&instrument).is_some());
}

#[test]
fn names_match_in_any_case_beyond_ascii() {
    let builder: Builder<(), (), ()> =
        builder("test").with_histogram_aggregation("GR\u{d6}SSE", Exponential);
    assert_eq!(builder.histogram_aggregations.key_at(0), "gr\u{f6}sse");
    let view = HistogramView { default: Explicit, overrides: builder.histogram_aggregations };
    let instrument =
        Instrument { name: "Gr\u{f6}SSe".to_string(), kind: InstrumentKind::Histogram };
    assert_eq!(view.aggregation(&instrument), Some(Exponential));
}

#[test]
fn text_maps_are_kept_in_key_order() {
    let mut map: TextMap<u8> = TextMap::new();
    assert!(map.is_empty());
    map.insert("b".to_string(), 1);
    map.insert("a".to_string(), 2);
    map.insert("ab".to_string(), 3);
    map.insert("".to_string(), 4);
    map.insert("b".to_string(), 5);
    let entries: Vec<(String, u8)> =
        (0..map.len()).map(|i| (map.key_at(i).to_string(), *map.value_at(i))).collect();
    assert_eq!(
        entries,
        [
            ("".to_string(), 4),
            ("a".to_string(), 2),
            ("ab".to_string(), 3),
            ("b".to_string(), 5)
        ]
    );
    assert_eq!(map.get("ab"), Some(&3));
    assert_eq!(map.get("c"), None);
    assert_eq!(map.clone().get("b"), Some(&5));
}
