//! What an installation consists of, and how it goes.

use dropshot_otel::builder::{builder, Builder, InstallPlan, InstallStep, SubscriberLayer};
use dropshot_otel::environment::{
    default_histogram_aggregation, env_unset, export_enabled, filter_directives, filter_from,
    ignored_aggregation_warning, resource_service_name, Environment, AGGREGATION_VARIABLE,
    DEFAULT_FILTER,
};
use dropshot_otel::filter::can_use;
use dropshot_otel::metrics::{CompletedRequest, RequestState};
use dropshot_otel::slog_bridge::{on_event, EventLevel, EventVisitor};
use dropshot_otel::{HistogramAggregation, InitError};
use std::sync::{Arc, Mutex};
use std::time::Duration;
use tracing::Level;
use tracing_subscriber::EnvFilter;

/// An endpoint that any spans a test exports would go to.
const ENDPOINT: (&str, &str) = ("OTEL_EXPORTER_OTLP_ENDPOINT", "http://127.0.0.1:9");

type Recorder = Box<dyn Fn(&CompletedRequest)>;
type TestBuilder = Builder<Arc<Mutex<Vec<String>>>, (), Recorder>;
type TestPlan = InstallPlan<Arc<Mutex<Vec<String>>>, (), Recorder>;

/// The process-global state that an installation may change.
#[derive(Debug, Default, PartialEq)]
struct Globals {
    subscriber: bool,
    tracer_provider: bool,
    propagator: bool,
    meter_provider: bool,
}

fn environment(variables: &[(&str, &str)]) -> Environment {
    let mut env = Environment::new();
    for (name, value) in variables {
        env.set(name, value);
    }
    env
}

fn test_builder() -> TestBuilder {
    builder("test")
}

/// Carries a plan out on `globals`, with exporters that can all be built.
fn carry_out(plan: &TestPlan, globals: &mut Globals) -> Result<(), InitError> {
    let mut steps = plan.steps();
    loop {
        let step = steps.step();
        let succeeded = match step {
            InstallStep::BuildSpanExporter | InstallStep::BuildMetricExporter => true,
            InstallStep::SetSubscriber => !std::mem::replace(&mut globals.subscriber, true),
            InstallStep::SetTracerProvider => {
                globals.tracer_provider = true;
                true
            }
            InstallStep::SetPropagator => {
                globals.propagator = true;
                true
            }
            InstallStep::SetMeterProvider => {
                globals.meter_provider = true;
                true
            }
            InstallStep::Finished => return Ok(()),
            InstallStep::Failed => unreachable!("a failed step ends the installation"),
        };
        steps.advance(succeeded);
        if steps.step() == InstallStep::Failed {
            return Err(step.failure("there is a subscriber").unwrap());
        }
    }
}

/// Installs what a builder without settings asks for in an environment.
fn install(variables: &[(&str, &str)], globals: &mut Globals) -> Result<(), InitError> {
    match test_builder().install(&environment(variables), false)? {
        Some(plan) => carry_out(&plan, globals),
        None => Ok(()),
    }
}

fn installs(variables: &[(&str, &str)]) {
    let mut globals = Globals::default();
    install(variables, &mut globals).unwrap();
    assert!(globals.tracer_provider);
    assert!(globals.subscriber);
}

fn installs_without_tracer(variables: &[(&str, &str)]) {
    let mut globals = Globals::default();
    install(variables, &mut globals).unwrap();
    assert!(!globals.tracer_provider);
    assert!(globals.subscriber);
}

fn installs_nothing(variables: &[(&str, &str)]) {
    let mut globals = Globals::default();
    install(variables, &mut globals).unwrap();
    assert_eq!(globals, Globals::default());
}

fn unsupported_protocol(variables: &[(&str, &str)]) {
    let mut globals = Globals::default();
    let result = install(variables, &mut globals);
    match result {
        Err(error @ InitError::UnsupportedProtocol(_)) => {
            assert!(error.message().contains("grpc"), "{}", error.message());
        }
        other => panic!("expected UnsupportedProtocol: {:?}", other),
    }
    assert_eq!(globals, Globals::default());
}

#[test]
fn test_install_exports() {
    installs(&[ENDPOINT]);
}

#[test]
fn child_installs() {
    installs(&[ENDPOINT]);
}

#[test]
fn test_install_without_endpoint_is_inert() {
    installs_nothing(&[]);
}

#[test]
fn child_installs_nothing() {
    installs_nothing(&[]);
}

#[test]
fn test_install_honors_sdk_disabled() {
    installs_nothing(&[ENDPOINT, ("OTEL_SDK_DISABLED", "true")]);
}

#[test]
fn test_install_honors_traces_exporter_none() {
    // Metrics are still exported, so a subscriber is installed.
    installs_without_tracer(&[ENDPOINT, ("OTEL_TRACES_EXPORTER", "none")]);
}

#[test]
fn child_installs_without_tracer() {
    installs_without_tracer(&[ENDPOINT, ("OTEL_TRACES_EXPORTER", "none")]);
}

#[test]
fn test_install_honors_traces_exporter_none_in_any_case() {
    installs_without_tracer(&[ENDPOINT, ("OTEL_TRACES_EXPORTER", "NONE")]);
}

#[test]
fn test_install_with_all_exporters_none() {
    installs_nothing(&[
        ENDPOINT,
        ("OTEL_TRACES_EXPORTER", "none"),
        ("OTEL_METRICS_EXPORTER", "none"),
    ]);
}

#[test]
fn test_install_protocol_precedence() {
    // The signal-specific settings win over the general one.
    installs(&[
        ENDPOINT,
        ("OTEL_EXPORTER_OTLP_TRACES_PROTOCOL", "http/protobuf"),
        ("OTEL_EXPORTER_OTLP_METRICS_PROTOCOL", "http/protobuf"),
        ("OTEL_EXPORTER_OTLP_PROTOCOL", "grpc"),
    ]);
}

#[test]
fn test_install_subscriber_already_set() {
    let mut globals = Globals { subscriber: true, ..Globals::default() };
    let result = install(&[ENDPOINT], &mut globals);
    assert!(matches!(result, Err(InitError::SubscriberAlreadySet)), "{:?}", result);
    // The failed install must leave no OpenTelemetry globals behind.
    assert_eq!(globals, Globals { subscriber: true, ..Globals::default() });
}

#[test]
fn child_subscriber_already_set() {
    let mut globals = Globals::default();
    install(&[ENDPOINT], &mut globals).unwrap();
    assert!(globals.subscriber);
    let mut globals = Globals { subscriber: true, ..Globals::default() };
    let result = install(&[ENDPOINT], &mut globals);
    assert!(matches!(result, Err(InitError::SubscriberAlreadySet)), "{:?}", result);
    assert!(!globals.tracer_provider);
}

#[test]
fn test_install_unsupported_protocol() {
    unsupported_protocol(&[ENDPOINT, ("OTEL_EXPORTER_OTLP_PROTOCOL", "grpc")]);
    unsupported_protocol(&[ENDPOINT, ("OTEL_EXPORTER_OTLP_TRACES_PROTOCOL", "grpc")]);
    unsupported_protocol(&[ENDPOINT, ("OTEL_EXPORTER_OTLP_METRICS_PROTOCOL", "grpc")]);
}

#[test]
fn child_unsupported_protocol() {
    unsupported_protocol(&[ENDPOINT, ("OTEL_EXPORTER_OTLP_PROTOCOL", "grpc")]);
}

/// A request that was answered with the given status.
fn answered(status_code: i64) -> CompletedRequest {
    let mut state =
        RequestState::on_new_span("dropshot::instrument", "dropshot_request", ()).unwrap();
    state.request.record_str("http.request.method", "GET");
    state.request.record_i64("http.response.status_code", status_code);
    state.on_close(Duration::from_millis(1))
}

#[test]
fn child_request_metrics() {
    // Request metrics don't depend on RUST_LOG, which does still filter the
    // slog bridge.
    let completed: Arc<Mutex<Vec<u16>>> = Default::default();
    let sink = Arc::clone(&completed);
    let recorder: Recorder = Box::new(move |request| {
        sink.lock().unwrap().push(request.status_code.unwrap());
    });
    let plan = test_builder()
        .with_slog_bridge(Default::default())
        .with_request_metrics(recorder)
        .install(&environment(&[("RUST_LOG", "warn")]), false)
        .unwrap()
        .unwrap();
    let directives = plan.filter_of(SubscriberLayer::SlogBridge).unwrap();
    let passes = EnvFilter::builder().parse_lossy(directives).max_level_hint().unwrap();
    let messages = plan.slog_logger.as_ref().unwrap();
    for (level, tracing_level, message) in [
        (EventLevel::Info, Level::INFO, "info from handler"),
        (EventLevel::Warn, Level::WARN, "warn from handler"),
    ] {
        if passes >= tracing_level {
            let mut visitor = EventVisitor::default();
            visitor.record_str("message", message);
            messages.lock().unwrap().push(on_event(level, visitor).message);
        }
    }
    assert_eq!(*messages.lock().unwrap(), ["warn from handler"]);
    assert!(plan.watches_requests());
    (plan.request_metrics.unwrap())(&answered(200));
    assert_eq!(*completed.lock().unwrap(), [200]);
}

#[test]
fn child_request_metrics_alone() {
    // Request metrics alone are reason enough to install a subscriber.
    let completed: Arc<Mutex<Vec<u16>>> = Default::default();
    let sink = Arc::clone(&completed);
    let recorder: Recorder = Box::new(move |request| {
        sink.lock().unwrap().push(request.status_code.unwrap());
    });
    let plan = test_builder()
        .with_request_metrics(recorder)
        .install(&Environment::new(), false)
        .unwrap()
        .unwrap();
    let mut globals = Globals::default();
    carry_out(&plan, &mut globals).unwrap();
    assert_eq!(globals, Globals { subscriber: true, ..Globals::default() });
    (plan.request_metrics.unwrap())(&answered(200));
    assert_eq!(*completed.lock().unwrap(), [200]);
}

#[test]
fn slog_bridge_alone_is_reason_to_install() {
    let plan = test_builder()
        .with_slog_bridge(Default::default())
        .install(&Environment::new(), false)
        .unwrap()
        .unwrap();
    assert!(plan.traces.is_none());
    assert!(plan.metrics.is_none());
    assert!(!plan.watches_requests());
}

#[test]
fn scrubber_alone_is_no_reason_to_install() {
    let plan =
        test_builder().with_span_scrubber(()).install(&Environment::new(), false).unwrap();
    assert!(plan.is_none());
    let plan =
        test_builder().with_span_scrubber(()).install(&environment(&[ENDPOINT]), false).unwrap();
    assert!(plan.unwrap().traces.unwrap().scrubber.is_some());
}

#[test]
fn signals_are_exported_independently() {
    let plan = |variables: &[(&str, &str)]| {
        let plan = test_builder().install(&environment(variables), false).unwrap();
        match plan {
            Some(plan) => (plan.traces.is_some(), plan.metrics.is_some()),
            None => (false, false),
        }
    };
    assert_eq!(plan(&[ENDPOINT]), (true, true));
    assert_eq!(plan(&[ENDPOINT, ("OTEL_METRICS_EXPORTER", "none")]), (true, false));
    assert_eq!(plan(&[ENDPOINT, ("OTEL_TRACES_EXPORTER", "none")]), (false, true));
    // A signal-specific endpoint applies only to that signal.
    let custom = ("OTEL_EXPORTER_OTLP_METRICS_ENDPOINT", "http://127.0.0.1:9/custom/metrics");
    assert_eq!(plan(&[custom]), (false, true));
    let custom = ("OTEL_EXPORTER_OTLP_TRACES_ENDPOINT", "http://127.0.0.1:9/custom/traces");
    assert_eq!(plan(&[custom]), (true, false));
}

#[test]
fn metrics_do_not_depend_on_rust_log() {
    let plan = test_builder()
        .install(&environment(&[ENDPOINT, ("RUST_LOG", "warn")]), false)
        .unwrap()
        .unwrap();
    assert_eq!(plan.filter_of(SubscriberLayer::Traces), Some("warn"));
    assert_eq!(plan.filter_of(SubscriberLayer::RequestMetrics), None);
    assert!(plan.metrics.is_some());
    assert!(plan.watches_requests());
}

#[test]
fn layers_and_their_filters() {
    let plan = test_builder().install(&environment(&[ENDPOINT]), false).unwrap().unwrap();
    assert!(!plan.installs(SubscriberLayer::SlogBridge));
    assert!(plan.installs(SubscriberLayer::RequestMetrics));
    assert!(plan.installs(SubscriberLayer::Traces));
    assert_eq!(plan.filter_of(SubscriberLayer::Traces), Some(DEFAULT_FILTER));
    let plan = test_builder()
        .with_slog_bridge(Default::default())
        .install(&environment(&[("RUST_LOG", "warn")]), false)
        .unwrap()
        .unwrap();
    assert!(plan.installs(SubscriberLayer::SlogBridge));
    assert!(!plan.installs(SubscriberLayer::RequestMetrics));
    assert!(!plan.installs(SubscriberLayer::Traces));
    assert_eq!(plan.filter_of(SubscriberLayer::SlogBridge), Some("warn"));
    assert_eq!(plan.filter_of(SubscriberLayer::RequestMetrics), None);
}

#[test]
fn globals_follow_subscriber() {
    let plan = test_builder().install(&environment(&[ENDPOINT]), false).unwrap().unwrap();
    let mut steps = plan.steps();
    let mut performed = Vec::new();
    while steps.step() != InstallStep::Finished {
        performed.push(steps.step());
        steps.advance(true);
    }
    assert_eq!(
        performed,
        [
            InstallStep::BuildSpanExporter,
            InstallStep::BuildMetricExporter,
            InstallStep::SetSubscriber,
            InstallStep::SetTracerProvider,
            InstallStep::SetPropagator,
            InstallStep::SetMeterProvider,
        ]
    );
    steps.advance(false);
    assert_eq!(steps.step(), InstallStep::Finished);
}

#[test]
fn failing_exporter_ends_installation() {
    for failing in 0..3 {
        let plan = test_builder().install(&environment(&[ENDPOINT]), false).unwrap().unwrap();
        let mut steps = plan.steps();
        for _ in 0..failing {
            steps.advance(true);
        }
        let failing_step = steps.step();
        steps.advance(false);
        assert_eq!(steps.step(), InstallStep::Failed);
        assert_eq!(
            failing_step.failure("why"),
            Some(match failing_step {
                InstallStep::SetSubscriber => InitError::SubscriberAlreadySet,
                _ => InitError::Exporter("why".to_string()),
            })
        );
        steps.advance(true);
        assert_eq!(steps.step(), InstallStep::Failed);
    }
}

#[test]
fn export_settings_ignore_white_space_and_case() {
    let enabled = |variables: &[(&str, &str)]| export_enabled("TRACES", &environment(variables));
    assert_eq!(enabled(&[ENDPOINT, ("OTEL_SDK_DISABLED", " True\n")]), Ok(false));
    assert_eq!(enabled(&[ENDPOINT, ("OTEL_SDK_DISABLED", "yes")]), Ok(true));
    assert_eq!(enabled(&[ENDPOINT, ("OTEL_TRACES_EXPORTER", "\u{3000}NoNe\t")]), Ok(false));
    // The protocol is taken as it stands.
    assert_eq!(
        enabled(&[ENDPOINT, ("OTEL_EXPORTER_OTLP_PROTOCOL", "HTTP/protobuf")]),
        Err(InitError::UnsupportedProtocol("HTTP/protobuf".to_string()))
    );
}

#[test]
fn empty_variables_are_unset() {
    assert!(env_unset("A", &Environment::new()));
    assert!(env_unset("A", &environment(&[("A", "")])));
    assert!(!env_unset("A", &environment(&[("A", " ")])));
    assert_eq!(
        export_enabled("TRACES", &environment(&[("OTEL_EXPORTER_OTLP_ENDPOINT", "")])),
        Ok(false)
    );
    assert_eq!(
        export_enabled("TRACES", &environment(&[ENDPOINT, ("OTEL_EXPORTER_OTLP_PROTOCOL", "")])),
        Ok(true)
    );
    // An empty setting for one signal leaves the general one in force.
    assert_eq!(
        export_enabled(
            "TRACES",
            &environment(&[
                ENDPOINT,
                ("OTEL_EXPORTER_OTLP_TRACES_PROTOCOL", ""),
                ("OTEL_EXPORTER_OTLP_PROTOCOL", "grpc"),
            ])
        ),
        Err(InitError::UnsupportedProtocol("grpc".to_string()))
    );
}

#[test]
fn unexported_signal_never_fails() {
    let env = environment(&[("OTEL_EXPORTER_OTLP_PROTOCOL", "grpc")]);
    assert_eq!(export_enabled("TRACES", &env), Ok(false));
    let env = environment(&[
        ENDPOINT,
        ("OTEL_EXPORTER_OTLP_TRACES_PROTOCOL", "grpc"),
        ("OTEL_TRACES_EXPORTER", "none"),
    ]);
    assert_eq!(export_enabled("TRACES", &env), Ok(false));
    assert_eq!(export_enabled("METRICS", &env), Ok(true));
}

#[test]
fn traces_protocol_is_reported_first() {
    let env = environment(&[
        ENDPOINT,
        ("OTEL_EXPORTER_OTLP_TRACES_PROTOCOL", "grpc"),
        ("OTEL_EXPORTER_OTLP_METRICS_PROTOCOL", "http/json"),
    ]);
    let error = test_builder().install(&env, false).err();
    assert_eq!(error, Some(InitError::UnsupportedProtocol("grpc".to_string())));
}

#[test]
fn error_messages() {
    assert_eq!(
        InitError::UnsupportedProtocol("g\"rpc".to_string()).message(),
        "unsupported OTLP protocol \"g\\\"rpc\" (only \"http/protobuf\" is supported)"
    );
    assert_eq!(
        InitError::SubscriberAlreadySet.message(),
        "a global tracing subscriber is already installed"
    );
    assert_eq!(
        InitError::Exporter("no client".to_string()).message(),
        "failed to build an OTLP exporter: no client"
    );
}

#[test]
fn test_default_histogram_aggregation() {
    // Explicit buckets unless configured otherwise, and an unrecognized setting
    // is ignored with a warning.
    for (value, expected) in [
        (None, "Explicit"),
        (Some(""), "Explicit"),
        (Some("explicit_bucket_histogram"), "Explicit"),
        (Some("base2_exponential_bucket_histogram"), "Exponential"),
        (Some("summary"), "Explicit"),
    ] {
        let mut env = Environment::new();
        if let Some(value) = value {
            env.set("OTEL_EXPORTER_OTLP_METRICS_DEFAULT_HISTOGRAM_AGGREGATION", value);
        }
        let default = default_histogram_aggregation(&env);
        assert_eq!(format!("{:?}", default.aggregation), expected);
        let warning = default.ignored.map(|value| ignored_aggregation_warning(&value));
        assert_eq!(
            warning.is_some_and(|w| w.contains("dropshot-otel: ignoring unsupported")),
            value == Some("summary"),
            "{:?}",
            value
        );
    }
}

#[test]
fn ignored_aggregation_is_quoted_in_warning() {
    assert_eq!(
        ignored_aggregation_warning("a\"b"),
        "dropshot-otel: ignoring unsupported \
         OTEL_EXPORTER_OTLP_METRICS_DEFAULT_HISTOGRAM_AGGREGATION value \"a\\\"b\""
    );
    let env = environment(&[(AGGREGATION_VARIABLE, " base2_exponential_bucket_histogram ")]);
    let default = default_histogram_aggregation(&env);
    assert_eq!(default.aggregation, HistogramAggregation::Exponential);
    assert_eq!(default.ignored, None);
    // The warning shows the value as it was set.
    let env = environment(&[(AGGREGATION_VARIABLE, " summary ")]);
    assert_eq!(default_histogram_aggregation(&env).ignored.as_deref(), Some(" summary "));
}

#[test]
fn settings_reach_the_metrics_plan() {
    let env = environment(&[
        ENDPOINT,
        (AGGREGATION_VARIABLE, "base2_exponential_bucket_histogram"),
    ]);
    let plan = test_builder()
        .with_histogram_aggregation("Payload.Size", HistogramAggregation::Explicit)
        .install(&env, false)
        .unwrap()
        .unwrap();
    let metrics = plan.metrics.unwrap();
    assert_eq!(metrics.view.default, HistogramAggregation::Exponential);
    assert_eq!(
        metrics.view.overrides.get("payload.size"),
        Some(&HistogramAggregation::Explicit)
    );
    assert_eq!(metrics.ignored_aggregation, None);
}

#[test]
fn test_service_name() {
    let name = |env: &Environment, detected| {
        resource_service_name("from-builder".to_string(), env, detected)
    };
    assert_eq!(name(&Environment::new(), false).as_deref(), Some("from-builder"));
    // The environment provides the name.
    assert_eq!(name(&environment(&[("OTEL_SERVICE_NAME", "from-env")]), false), None);
    let attributes = environment(&[("OTEL_RESOURCE_ATTRIBUTES", "service.name=from-attrs")]);
    assert_eq!(name(&attributes, true), None);
    // An empty variable provides none.
    assert_eq!(
        name(&environment(&[("OTEL_SERVICE_NAME", "")]), false).as_deref(),
        Some("from-builder")
    );
}

#[test]
fn service_name_reaches_the_plan() {
    let plan = test_builder().install(&environment(&[ENDPOINT]), false).unwrap().unwrap();
    assert_eq!(plan.service_name.as_deref(), Some("test"));
    let plan = test_builder().install(&environment(&[ENDPOINT]), true).unwrap().unwrap();
    assert_eq!(plan.service_name, None);
}

#[test]
fn invalid_filter_is_replaced_by_the_default() {
    let directives = |value| filter_directives(&environment(&[("RUST_LOG", value)]));
    assert_eq!(directives("warn,myapp=debug").as_deref(), Some("warn,myapp=debug"));
    assert_eq!(directives("").as_deref(), Some(""));
    assert_eq!(directives("myapp=verbose"), None);
    assert_eq!(filter_directives(&Environment::new()), None);
    assert_eq!(
        DEFAULT_FILTER,
        "info,h2=warn,hyper=warn,reqwest=warn,rustls=warn,tower=warn"
    );
    let env = environment(&[("RUST_LOG", DEFAULT_FILTER)]);
    assert_eq!(filter_directives(&env).as_deref(), Some(DEFAULT_FILTER));
}

#[test]
fn blank_before_non_ascii_directive_is_harmless() {
    let directives = |value| filter_directives(&environment(&[("RUST_LOG", value)]));
    assert_eq!(directives(" \u{e9}=info"), None);
    assert_eq!(directives("info, \u{e9}=debug"), None);
    assert_eq!(directives("\u{3000}a=info"), None);
    assert_eq!(directives("info, \u{e9}[span]"), None);
    assert_eq!(directives(" \u{e9}abc[sp]=info"), None);
    assert_eq!(directives(" [\u{e9}]"), None);
    assert_eq!(directives(" \u{e9}a[sp"), None);
    assert_eq!(directives(" \u{e9}a[sp{f"), None);
    // These can be parsed.
    for value in [
        "\u{e9}=info",
        "info,\u{e9}=debug",
        " \u{e9}",
        " a",
        "\u{e9}=info, warn",
        // Every cut falls between two characters.
        " \u{e9}abc[sp]",
        " \u{e9}a[s]",
        " [\u{e9}[aa]",
        " \u{e9}abc[sp{ff}]",
        "\u{3000}aaa[sss]\u{3000}",
    ] {
        assert_eq!(directives(value).as_deref(), Some(value));
    }
    // Nor does it stop request metrics, for which the filter is not consulted.
    let recorder: Recorder = Box::new(|_| ());
    let plan = test_builder()
        .with_request_metrics(recorder)
        .install(&environment(&[("RUST_LOG", " \u{e9}=info")]), false)
        .unwrap()
        .unwrap();
    assert_eq!(plan.filter, None);
    assert!(plan.installs(SubscriberLayer::RequestMetrics));
}

#[test]
fn no_short_filter_is_too_much_for_the_parser() {
    let alphabet = [' ', '\u{3000}', 'a', '\u{e9}', '[', ']', '{', '}', '='];
    let mut texts = vec![String::new()];
    for _ in 0..5 {
        let longer: Vec<String> = texts
            .iter()
            .flat_map(|text| alphabet.iter().map(move |c| format!("{}{}", text, c)))
            .collect();
        for text in &longer {
            // What can be used is what the parser accepts.
            if can_use(text) {
                assert!(EnvFilter::try_new(text).is_ok(), "{:?}", text);
            }
        }
        texts = longer;
    }
    assert!(can_use(""));
}

#[test]
fn filter_is_consulted_only_where_it_is_honored() {
    let recorder: Recorder = Box::new(|_| ());
    let plan = test_builder()
        .with_request_metrics(recorder)
        .install(&environment(&[("RUST_LOG", "warn")]), false)
        .unwrap()
        .unwrap();
    assert_eq!(plan.filter, None);
    let traces_none = environment(&[ENDPOINT, ("OTEL_TRACES_EXPORTER", "none"), ("RUST_LOG", "warn")]);
    assert_eq!(test_builder().install(&traces_none, false).unwrap().unwrap().filter, None);
}

#[test]
fn filter_follows_validity() {
    let env = environment(&[("RUST_LOG", "warn")]);
    assert_eq!(filter_from(&env, true).as_deref(), Some("warn"));
    assert_eq!(filter_from(&env, false), None);
    assert_eq!(filter_from(&Environment::new(), true), None);
}
