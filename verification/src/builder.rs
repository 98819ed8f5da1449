//! Configuring an installation and deciding what it consists of.

use crate::environment::{
    default_histogram_aggregation, export_enabled, filter_directives, resource_service_name,
    Environment, DEFAULT_FILTER,
};
#[allow(unused_imports)]
use crate::environment::{
    default_aggregation, export_decision, ignored_aggregation,
    law_filter_variable_changes_only_the_filter, own_service_name_used, usable_filter,
};
use crate::error::InitError;
#[allow(unused_imports)]
use crate::filter::{parseable, usable_directives, valid_filter};
use crate::histogram::{set_override, HistogramAggregation, HistogramView};
#[allow(unused_imports)]
use crate::histogram::with_override;
#[allow(unused_imports)]
use crate::text::lowercase;
use crate::text_map::TextMap;
use vstd::prelude::*;

verus! {

/// The name under which spans and measurements are recorded.
pub const SCOPE_NAME: &'static str = "dropshot-otel";

/// Configures an installation; see [`builder`] to construct one.
///
/// `L` is the logger that events are forwarded to, `S` the function applied to
/// spans before export, and `R` the function given each completed request.
#[derive(Debug)]
pub struct Builder<L, S, R> {
    pub service_name: String,
    pub slog_logger: Option<L>,
    pub scrubber: Option<S>,
    pub request_metrics: Option<R>,
    /// Aggregations by lowercased instrument name.
    pub histogram_aggregations: TextMap<HistogramAggregation>,
}

/// Returns a [`Builder`] with nothing configured but the service name.
///
/// `service_name` becomes the OpenTelemetry `service.name` resource attribute
/// unless the environment provides one.
pub fn builder<L, S, R>(service_name: &str) -> (r: Builder<L, S, R>)
    ensures
        r.service_name@ == service_name@,
        r.slog_logger is None,
        r.scrubber is None,
        r.request_metrics is None,
        r.histogram_aggregations@ == Map::<Seq<char>, HistogramAggregation>::empty(),
{
    Builder {
        service_name: service_name.to_owned(),
        slog_logger: None,
        scrubber: None,
        request_metrics: None,
        histogram_aggregations: TextMap::new(),
    }
}

/// How exported spans are treated.
#[derive(Debug)]
pub struct TracePlan<S> {
    /// The function to apply to each span before it is exported.
    pub scrubber: Option<S>,
}

/// How exported metrics are aggregated.
#[derive(Debug)]
pub struct MetricsPlan {
    /// The view that chooses each histogram's aggregation.
    pub view: HistogramView,
    /// A default aggregation that the environment asks for and that was
    /// ignored, to be warned about.
    pub ignored_aggregation: Option<String>,
}

/// What an installation consists of.
#[derive(Debug)]
pub struct InstallPlan<L, S, R> {
    /// The service name to give the resource, unless the environment provides
    /// one.
    pub service_name: Option<String>,
    /// The filter directives of the layers that honor `RUST_LOG`, unless the
    /// default ones are to be used or there is no such layer.
    pub filter: Option<String>,
    /// The export of traces, if they are exported.
    pub traces: Option<TracePlan<S>>,
    /// The export of metrics, if they are exported.
    pub metrics: Option<MetricsPlan>,
    /// The logger to forward events to.
    pub slog_logger: Option<L>,
    /// The function to give each completed request.
    pub request_metrics: Option<R>,
}

/// Whether there is anything to install.
pub open spec fn something_to_install<L, S, R>(
    builder: Builder<L, S, R>,
    traces: bool,
    metrics: bool,
) -> bool {
    traces || metrics || builder.slog_logger is Some || builder.request_metrics is Some
}

/// Whether a plan is the one that a builder makes in an environment in which
/// these signals are exported.
pub open spec fn planned<L, S, R>(
    plan: InstallPlan<L, S, R>,
    builder: Builder<L, S, R>,
    env: Map<Seq<char>, Seq<char>>,
    detected: bool,
    traces: bool,
    metrics: bool,
) -> bool {
    &&& plan.service_name == (if own_service_name_used(env, detected) {
        Some(builder.service_name)
    } else {
        None
    })
    &&& match plan.filter {
        Some(directives) => {
            &&& traces || builder.slog_logger is Some
            &&& usable_filter(env, usable_directives(env["RUST_LOG"@])) == Some(directives@)
        },
        None => traces || builder.slog_logger is Some ==> usable_filter(
            env,
            usable_directives(env["RUST_LOG"@]),
        ) is None,
    }
    &&& plan.traces == (if traces {
        Some(TracePlan { scrubber: builder.scrubber })
    } else {
        None
    })
    &&& match plan.metrics {
        Some(exported) => {
            &&& metrics
            &&& exported.view.default == default_aggregation(env)
            &&& exported.view.overrides@ == builder.histogram_aggregations@
            &&& match exported.ignored_aggregation {
                Some(value) => ignored_aggregation(env) == Some(value@),
                None => ignored_aggregation(env) is None,
            }
        },
        None => !metrics,
    }
    &&& plan.slog_logger == builder.slog_logger
    &&& plan.request_metrics == builder.request_metrics
}

impl<L, S, R> Builder<L, S, R> {
    /// Also forward `tracing` events (not spans) to the given logger, so that
    /// instrumented libraries' log output lands in the same place as the rest
    /// of an application's logging.
    pub fn with_slog_bridge(self, logger: L) -> (r: Self)
        ensures
            r == (Builder { slog_logger: Some(logger), ..self }),
    {
        Builder { slog_logger: Some(logger), ..self }
    }

    /// Applies `scrubber` to every span just before it is exported, so it can
    /// redact or remove sensitive attributes.
    ///
    /// The scrubber sees only exported spans: it has no effect when traces are
    /// not exported.
    pub fn with_span_scrubber(self, scrubber: S) -> (r: Self)
        ensures
            r == (Builder { scrubber: Some(scrubber), ..self }),
    {
        Builder { scrubber: Some(scrubber), ..self }
    }

    /// Reports every request handled to `recorder`, as it completes.  Unlike
    /// span export and the slog bridge, this does not depend on `RUST_LOG`.
    pub fn with_request_metrics(self, recorder: R) -> (r: Self)
        ensures
            r == (Builder { request_metrics: Some(recorder), ..self }),
    {
        Builder { request_metrics: Some(recorder), ..self }
    }

    /// Exports the histogram named `instrument` with the given aggregation,
    /// whatever the default.  Instrument names match case-insensitively.
    pub fn with_histogram_aggregation(
        self,
        instrument: &str,
        aggregation: HistogramAggregation,
    ) -> (r: Self)
        ensures
            r.histogram_aggregations@ == with_override(
                self.histogram_aggregations@,
                instrument@,
                aggregation,
            ),
            r.histogram_aggregations@ == self.histogram_aggregations@.insert(
                lowercase(instrument@),
                aggregation,
            ),
            r == (Builder { histogram_aggregations: r.histogram_aggregations, ..self }),
    {
        let mut histogram_aggregations = self.histogram_aggregations;
        set_override(&mut histogram_aggregations, instrument, aggregation);
        Builder {
            service_name: self.service_name,
            slog_logger: self.slog_logger,
            scrubber: self.scrubber,
            request_metrics: self.request_metrics,
            histogram_aggregations,
        }
    }

    /// Decides what to install in the given environment, where `detected` tells
    /// whether the SDK detected a `service.name` in it.
    ///
    /// If there is nothing to do (neither traces nor metrics to export, and
    /// neither the slog bridge nor request metrics requested) there is nothing
    /// to install.  Fails if the environment asks for an OTLP protocol that is
    /// not supported, first of all for traces.
    pub fn install(self, env: &Environment, detected: bool) -> (r: Result<
        Option<InstallPlan<L, S, R>>,
        InitError,
    >)
        ensures
            match (export_decision(env@, "TRACES"@), export_decision(env@, "METRICS"@)) {
                (Err(protocol), _) => r matches Err(InitError::UnsupportedProtocol(p)) && p@
                    == protocol,
                (Ok(_), Err(protocol)) => r matches Err(InitError::UnsupportedProtocol(p)) && p@
                    == protocol,
                (Ok(traces), Ok(metrics)) => match r {
                    Ok(Some(plan)) => {
                        &&& something_to_install(self, traces, metrics)
                        &&& planned(plan, self, env@, detected, traces, metrics)
                    },
                    Ok(None) => !something_to_install(self, traces, metrics),
                    Err(_) => false,
                },
            },
            r matches Err(error) ==> {
                &&& error is UnsupportedProtocol
                &&& export_decision(env@, "TRACES"@) == Err::<bool, Seq<char>>(
                    error->UnsupportedProtocol_0@,
                ) || (export_decision(env@, "TRACES"@) is Ok && export_decision(
                    env@,
                    "METRICS"@,
                ) == Err::<bool, Seq<char>>(error->UnsupportedProtocol_0@))
            },
            r matches Ok(None) ==> {
                &&& self.slog_logger is None
                &&& self.request_metrics is None
                &&& export_decision(env@, "TRACES"@) == Ok::<bool, Seq<char>>(false)
                &&& export_decision(env@, "METRICS"@) == Ok::<bool, Seq<char>>(false)
            },
            r matches Ok(Some(plan)) ==> {
                &&& plan.slog_logger == self.slog_logger
                &&& plan.request_metrics == self.request_metrics
                &&& plan.traces is Some <==> export_decision(env@, "TRACES"@) == Ok::<
                    bool,
                    Seq<char>,
                >(true)
                &&& plan.traces matches Some(traces) ==> traces.scrubber == self.scrubber
                &&& plan.metrics is Some <==> export_decision(env@, "METRICS"@) == Ok::<
                    bool,
                    Seq<char>,
                >(true)
                &&& plan.metrics matches Some(metrics) ==> {
                    &&& metrics.view.default == default_aggregation(env@)
                    &&& metrics.view.overrides@ == self.histogram_aggregations@
                    &&& match metrics.ignored_aggregation {
                        Some(value) => ignored_aggregation(env@) == Some(value@),
                        None => ignored_aggregation(env@) is None,
                    }
                }
                &&& plan.service_name == (if detected || (env@.contains_key("OTEL_SERVICE_NAME"@)
                    && env@["OTEL_SERVICE_NAME"@].len() > 0) {
                    None
                } else {
                    Some(self.service_name)
                })
                &&& plan.filter matches Some(directives) ==> {
                    &&& plan.traces is Some || plan.slog_logger is Some
                    &&& env@.contains_key("RUST_LOG"@)
                    &&& directives@ == env@["RUST_LOG"@]
                    &&& parseable(directives@)
                    &&& valid_filter(directives@)
                }
                &&& plan.filter is None && (plan.traces is Some || plan.slog_logger is Some) ==> {
                    ||| !env@.contains_key("RUST_LOG"@)
                    ||| !parseable(env@["RUST_LOG"@])
                    ||| !valid_filter(env@["RUST_LOG"@])
                }
                &&& plan.traces is Some || plan.metrics is Some || plan.slog_logger is Some
                    || plan.request_metrics is Some
            },
    {
        let export_traces = match export_enabled("TRACES", env) {
            Ok(enabled) => enabled,
            Err(error) => return Err(error),
        };
        let export_metrics = match export_enabled("METRICS", env) {
            Ok(enabled) => enabled,
            Err(error) => return Err(error),
        };
        if !export_traces && !export_metrics && self.slog_logger.is_none()
            && self.request_metrics.is_none() {
            return Ok(None);
        }
        let service_name = resource_service_name(self.service_name, env, detected);
        let filter = if export_traces || self.slog_logger.is_some() {
            filter_directives(env)
        } else {
            None
        };
        let traces = if export_traces {
            Some(TracePlan { scrubber: self.scrubber })
        } else {
            None
        };
        let metrics = if export_metrics {
            let default = default_histogram_aggregation(env);
            Some(
                MetricsPlan {
                    view: HistogramView {
                        default: default.aggregation,
                        overrides: self.histogram_aggregations,
                    },
                    ignored_aggregation: default.ignored,
                },
            )
        } else {
            None
        };
        Ok(
            Some(
                InstallPlan {
                    service_name,
                    filter,
                    traces,
                    metrics,
                    slog_logger: self.slog_logger,
                    request_metrics: self.request_metrics,
                },
            ),
        )
    }
}

/// A layer of the global subscriber.
#[derive(Clone, Copy, Debug, PartialEq, Eq, Structural)]
pub enum SubscriberLayer {
    /// Forwards events to the logger.
    SlogBridge,
    /// Reports each request as it completes.
    RequestMetrics,
    /// Exports spans.
    Traces,
}

/// Whether a layer is part of the subscriber that a plan asks for.
pub open spec fn has_layer<L, S, R>(plan: InstallPlan<L, S, R>, layer: SubscriberLayer) -> bool {
    match layer {
        SubscriberLayer::SlogBridge => plan.slog_logger is Some,
        SubscriberLayer::RequestMetrics => plan.request_metrics is Some || plan.metrics is Some,
        SubscriberLayer::Traces => plan.traces is Some,
    }
}

/// The filter directives of a layer, if it is filtered at all.  `RUST_LOG`
/// filters each layer that honors it, rather than the whole subscriber, so that
/// it cannot stop request metrics.
pub open spec fn layer_filter<L, S, R>(
    plan: InstallPlan<L, S, R>,
    layer: SubscriberLayer,
) -> Option<Seq<char>> {
    match layer {
        SubscriberLayer::RequestMetrics => None,
        _ => match plan.filter {
            Some(directives) => Some(directives@),
            None => Some(DEFAULT_FILTER@),
        },
    }
}

impl<L, S, R> InstallPlan<L, S, R> {
    /// Returns whether a layer is part of the subscriber.
    pub fn installs(&self, layer: SubscriberLayer) -> (r: bool)
        ensures
            r == has_layer(*self, layer),
            r <==> match layer {
                SubscriberLayer::SlogBridge => self.slog_logger is Some,
                SubscriberLayer::RequestMetrics => self.request_metrics is Some
                    || self.metrics is Some,
                SubscriberLayer::Traces => self.traces is Some,
            },
    {
        match layer {
            SubscriberLayer::SlogBridge => self.slog_logger.is_some(),
            SubscriberLayer::RequestMetrics => self.watches_requests(),
            SubscriberLayer::Traces => self.traces.is_some(),
        }
    }

    /// Returns the filter directives of a layer, or `None` if the layer is not
    /// filtered.
    pub fn filter_of(&self, layer: SubscriberLayer) -> (r: Option<&str>)
        ensures
            match r {
                Some(directives) => layer_filter(*self, layer) == Some(directives@),
                None => layer_filter(*self, layer) is None,
            },
            r is None <==> layer == SubscriberLayer::RequestMetrics,
            r matches Some(directives) ==> directives@ == (match self.filter {
                Some(own) => own@,
                None => DEFAULT_FILTER@,
            }),
    {
        match layer {
            SubscriberLayer::RequestMetrics => None,
            _ => match &self.filter {
                Some(directives) => Some(directives.as_str()),
                None => Some(DEFAULT_FILTER),
            },
        }
    }

    /// Returns whether requests are watched: to be given to a recorder, to be
    /// recorded in the request duration histogram, or both.
    pub fn watches_requests(&self) -> (r: bool)
        ensures
            r == (self.request_metrics is Some || self.metrics is Some),
    {
        self.request_metrics.is_some() || self.metrics.is_some()
    }

    /// Returns the steps that carry the plan out.
    pub fn steps(&self) -> (r: InstallSequence)
        ensures
            r.traces() == (self.traces is Some),
            r.metrics() == (self.metrics is Some),
            r.current() == first_step(self.traces is Some, self.metrics is Some),
    {
        InstallSequence::new(self.traces.is_some(), self.metrics.is_some())
    }
}

/// One step of an installation.
#[derive(Clone, Copy, Debug, PartialEq, Eq, Structural)]
pub enum InstallStep {
    /// Build the exporter of traces, and their provider.
    BuildSpanExporter,
    /// Build the exporter of metrics, and their provider.
    BuildMetricExporter,
    /// Make the assembled subscriber the global one.
    SetSubscriber,
    /// Make the tracer provider the global one.
    SetTracerProvider,
    /// Make the trace context propagator the global one.
    SetPropagator,
    /// Make the meter provider the global one.
    SetMeterProvider,
    /// Everything is installed.
    Finished,
    /// A step failed, and nothing more is done.
    Failed,
}

/// Whether an installation that fails at a step, for the given reason, fails
/// with this error.
pub open spec fn fails_with(step: InstallStep, reason: Seq<char>, error: InitError) -> bool {
    match (step, error) {
        (InstallStep::BuildSpanExporter, InitError::Exporter(text)) => text@ == reason,
        (InstallStep::BuildMetricExporter, InitError::Exporter(text)) => text@ == reason,
        (InstallStep::SetSubscriber, InitError::SubscriberAlreadySet) => true,
        _ => false,
    }
}

/// Whether a step can fail.
pub open spec fn can_fail(step: InstallStep) -> bool {
    ||| step == InstallStep::BuildSpanExporter
    ||| step == InstallStep::BuildMetricExporter
    ||| step == InstallStep::SetSubscriber
}

impl InstallStep {
    /// Returns the error that an installation ends in when this step fails for
    /// the given reason, or `None` if the step cannot fail.
    pub fn failure(self, reason: &str) -> (r: Option<InitError>)
        ensures
            match r {
                Some(error) => can_fail(self) && fails_with(self, reason@, error),
                None => !can_fail(self),
            },
            match self {
                InstallStep::BuildSpanExporter | InstallStep::BuildMetricExporter => {
                    r matches Some(InitError::Exporter(text)) && text@ == reason@
                },
                InstallStep::SetSubscriber => r == Some(InitError::SubscriberAlreadySet),
                _ => r is None,
            },
    {
        match self {
            InstallStep::BuildSpanExporter => Some(InitError::Exporter(reason.to_owned())),
            InstallStep::BuildMetricExporter => Some(InitError::Exporter(reason.to_owned())),
            InstallStep::SetSubscriber => Some(InitError::SubscriberAlreadySet),
            _ => None,
        }
    }
}

/// The first step of an installation that exports these signals.
pub open spec fn first_step(traces: bool, metrics: bool) -> InstallStep {
    if traces {
        InstallStep::BuildSpanExporter
    } else if metrics {
        InstallStep::BuildMetricExporter
    } else {
        InstallStep::SetSubscriber
    }
}

/// The step that follows a step, given whether the step succeeded.  Setting an
/// OpenTelemetry global cannot fail.
pub open spec fn next_step(
    traces: bool,
    metrics: bool,
    step: InstallStep,
    succeeded: bool,
) -> InstallStep {
    match step {
        InstallStep::BuildSpanExporter => if !succeeded {
            InstallStep::Failed
        } else if metrics {
            InstallStep::BuildMetricExporter
        } else {
            InstallStep::SetSubscriber
        },
        InstallStep::BuildMetricExporter => if succeeded {
            InstallStep::SetSubscriber
        } else {
            InstallStep::Failed
        },
        InstallStep::SetSubscriber => if !succeeded {
            InstallStep::Failed
        } else if traces {
            InstallStep::SetTracerProvider
        } else if metrics {
            InstallStep::SetMeterProvider
        } else {
            InstallStep::Finished
        },
        InstallStep::SetTracerProvider => InstallStep::SetPropagator,
        InstallStep::SetPropagator => if metrics {
            InstallStep::SetMeterProvider
        } else {
            InstallStep::Finished
        },
        InstallStep::SetMeterProvider => InstallStep::Finished,
        InstallStep::Finished => InstallStep::Finished,
        InstallStep::Failed => InstallStep::Failed,
    }
}

/// The step reached after steps with the given outcomes.
pub open spec fn step_after(traces: bool, metrics: bool, outcomes: Seq<bool>) -> InstallStep
    decreases outcomes.len(),
{
    if outcomes.len() == 0 {
        first_step(traces, metrics)
    } else {
        next_step(
            traces,
            metrics,
            step_after(traces, metrics, outcomes.drop_last()),
            outcomes.last(),
        )
    }
}

/// Whether a step sets an OpenTelemetry global.
pub open spec fn sets_opentelemetry_global(step: InstallStep) -> bool {
    ||| step == InstallStep::SetTracerProvider
    ||| step == InstallStep::SetPropagator
    ||| step == InstallStep::SetMeterProvider
}

/// The steps of an installation, in the order that leaves no global state
/// behind when it fails: exporters first, then the subscriber, and the
/// OpenTelemetry globals only once the subscriber is in place.
#[derive(Debug)]
pub struct InstallSequence {
    traces: bool,
    metrics: bool,
    step: InstallStep,
}

impl InstallSequence {
    /// Whether traces are exported.
    pub closed spec fn traces(self) -> bool {
        self.traces
    }

    /// Whether metrics are exported.
    pub closed spec fn metrics(self) -> bool {
        self.metrics
    }

    /// The step to perform.
    pub closed spec fn current(self) -> InstallStep {
        self.step
    }

    /// Returns the steps of an installation that exports the given signals.
    pub fn new(traces: bool, metrics: bool) -> (r: Self)
        ensures
            r.traces() == traces,
            r.metrics() == metrics,
            r.current() == first_step(traces, metrics),
    {
        let step = if traces {
            InstallStep::BuildSpanExporter
        } else if metrics {
            InstallStep::BuildMetricExporter
        } else {
            InstallStep::SetSubscriber
        };
        InstallSequence { traces, metrics, step }
    }

    /// Returns the step to perform.
    pub fn step(&self) -> (r: InstallStep)
        ensures
            r == self.current(),
    {
        self.step
    }

    /// Moves on to the next step, given whether the current one succeeded.
    pub fn advance(&mut self, succeeded: bool)
        ensures
            final(self).traces() == old(self).traces(),
            final(self).metrics() == old(self).metrics(),
            final(self).current() == next_step(
                old(self).traces(),
                old(self).metrics(),
                old(self).current(),
                succeeded,
            ),
    {
        self.step =
        match self.step {
            InstallStep::BuildSpanExporter => if !succeeded {
                InstallStep::Failed
            } else if self.metrics {
                InstallStep::BuildMetricExporter
            } else {
                InstallStep::SetSubscriber
            },
            InstallStep::BuildMetricExporter => if succeeded {
                InstallStep::SetSubscriber
            } else {
                InstallStep::Failed
            },
            InstallStep::SetSubscriber => if !succeeded {
                InstallStep::Failed
            } else if self.traces {
                InstallStep::SetTracerProvider
            } else if self.metrics {
                InstallStep::SetMeterProvider
            } else {
                InstallStep::Finished
            },
            InstallStep::SetTracerProvider => InstallStep::SetPropagator,
            InstallStep::SetPropagator => if self.metrics {
                InstallStep::SetMeterProvider
            } else {
                InstallStep::Finished
            },
            InstallStep::SetMeterProvider => InstallStep::Finished,
            InstallStep::Finished => InstallStep::Finished,
            InstallStep::Failed => InstallStep::Failed,
        };
    }
}

/// The steps of an installation that goes well, in order.
pub open spec fn all_steps(traces: bool, metrics: bool) -> Seq<InstallStep> {
    let span_exporter = if traces {
        seq![InstallStep::BuildSpanExporter]
    } else {
        Seq::empty()
    };
    let metric_exporter = if metrics {
        seq![InstallStep::BuildMetricExporter]
    } else {
        Seq::empty()
    };
    let trace_globals = if traces {
        seq![InstallStep::SetTracerProvider, InstallStep::SetPropagator]
    } else {
        Seq::empty()
    };
    let metric_globals = if metrics {
        seq![InstallStep::SetMeterProvider]
    } else {
        Seq::empty()
    };
    span_exporter + metric_exporter + seq![InstallStep::SetSubscriber] + trace_globals
        + metric_globals + seq![InstallStep::Finished]
}

/// An installation whose steps all succeed performs exactly the steps that its
/// signals call for, in order, and then is finished.
pub proof fn law_install_performs_all_steps(traces: bool, metrics: bool, outcomes: Seq<bool>)
    requires
        forall|i: int| 0 <= i < outcomes.len() ==> outcomes[i],
    ensures
        step_after(traces, metrics, outcomes) == (if outcomes.len() < all_steps(
            traces,
            metrics,
        ).len() {
            all_steps(traces, metrics)[outcomes.len() as int]
        } else {
            InstallStep::Finished
        }),
    decreases outcomes.len(),
{
    if outcomes.len() > 0 {
        law_install_performs_all_steps(traces, metrics, outcomes.drop_last());
        assert(outcomes.last());
    }
}

/// Once the subscriber is in place, an installation cannot fail any more.
proof fn lemma_no_failure_after_subscriber(
    traces: bool,
    metrics: bool,
    outcomes: Seq<bool>,
    k: int,
)
    requires
        0 <= k <= outcomes.len(),
        ({
            let step = step_after(traces, metrics, outcomes.take(k));
            sets_opentelemetry_global(step) || step == InstallStep::Finished
        }),
    ensures
        ({
            let step = step_after(traces, metrics, outcomes);
            sets_opentelemetry_global(step) || step == InstallStep::Finished
        }),
    decreases outcomes.len(),
{
    if k == outcomes.len() {
        assert(outcomes.take(k) == outcomes);
    } else {
        assert(outcomes.drop_last().take(k) == outcomes.take(k));
        lemma_no_failure_after_subscriber(traces, metrics, outcomes.drop_last(), k);
    }
}

/// A failed installation leaves no global state behind: none of the steps that
/// led to the failure sets an OpenTelemetry global, and the subscriber was not
/// set with success.
pub proof fn law_failed_install_sets_no_global(traces: bool, metrics: bool, outcomes: Seq<bool>)
    requires
        step_after(traces, metrics, outcomes) == InstallStep::Failed,
    ensures
        forall|k: int|
            0 <= k <= outcomes.len() ==> !sets_opentelemetry_global(
                #[trigger] step_after(traces, metrics, outcomes.take(k)),
            ),
        forall|k: int|
            0 <= k < outcomes.len() && #[trigger] step_after(traces, metrics, outcomes.take(k))
                == InstallStep::SetSubscriber ==> !outcomes[k],
{
    assert forall|k: int|
        0 <= k < outcomes.len() && #[trigger] step_after(traces, metrics, outcomes.take(k))
            == InstallStep::SetSubscriber implies !outcomes[k] by {
        if outcomes[k] {
            let next = outcomes.take(k + 1);
            assert(next.drop_last() == outcomes.take(k));
            assert(next.last() == outcomes[k]);
            lemma_no_failure_after_subscriber(traces, metrics, outcomes, k + 1);
        }
    }
    assert forall|k: int| 0 <= k <= outcomes.len() implies !sets_opentelemetry_global(
        #[trigger] step_after(traces, metrics, outcomes.take(k)),
    ) by {
        if sets_opentelemetry_global(step_after(traces, metrics, outcomes.take(k))) {
            lemma_no_failure_after_subscriber(traces, metrics, outcomes, k);
        }
    }
}

/// An OpenTelemetry global is set only after the subscriber was set with
/// success.
pub proof fn law_globals_follow_subscriber(traces: bool, metrics: bool, outcomes: Seq<bool>)
    requires
        sets_opentelemetry_global(step_after(traces, metrics, outcomes)),
    ensures
        exists|k: int|
            0 <= k < outcomes.len() && outcomes[k] && #[trigger] step_after(
                traces,
                metrics,
                outcomes.take(k),
            ) == InstallStep::SetSubscriber,
    decreases outcomes.len(),
{
    let earlier = outcomes.drop_last();
    assert(earlier == outcomes.take(outcomes.len() - 1));
    if step_after(traces, metrics, earlier) != InstallStep::SetSubscriber {
        law_globals_follow_subscriber(traces, metrics, earlier);
        let k = choose|k: int|
            0 <= k < earlier.len() && earlier[k] && #[trigger] step_after(
                traces,
                metrics,
                earlier.take(k),
            ) == InstallStep::SetSubscriber;
        assert(earlier.take(k) == outcomes.take(k));
    }
}

/// Once an installation has failed or finished it stays so, whatever is
/// reported to it.
pub proof fn law_install_end_is_final(
    traces: bool,
    metrics: bool,
    outcomes: Seq<bool>,
    more: bool,
)
    ensures
        step_after(traces, metrics, outcomes) == InstallStep::Failed ==> step_after(
            traces,
            metrics,
            outcomes.push(more),
        ) == InstallStep::Failed,
        step_after(traces, metrics, outcomes) == InstallStep::Finished ==> step_after(
            traces,
            metrics,
            outcomes.push(more),
        ) == InstallStep::Finished,
{
    assert(outcomes.push(more).drop_last() == outcomes);
}

/// Forwarding events or watching requests is reason enough to install
/// something; without either, exporting is the only one.  A span scrubber and
/// histogram aggregations are none.
pub proof fn law_reasons_to_install<L, S, R>(
    builder: Builder<L, S, R>,
    scrubber: Option<S>,
    aggregations: TextMap<HistogramAggregation>,
    traces: bool,
    metrics: bool,
)
    ensures
        builder.slog_logger is Some ==> something_to_install(builder, traces, metrics),
        builder.request_metrics is Some ==> something_to_install(builder, traces, metrics),
        builder.slog_logger is None && builder.request_metrics is None ==> (
        something_to_install(builder, traces, metrics) <==> traces || metrics),
        something_to_install(
            Builder { scrubber: scrubber, histogram_aggregations: aggregations, ..builder },
            traces,
            metrics,
        ) == something_to_install(builder, traces, metrics),
{
}

/// `RUST_LOG` cannot stop request metrics: whatever it holds, the plan that a
/// builder makes has the same layers, and the one that watches requests is not
/// filtered.
pub proof fn law_filter_variable_never_stops_request_metrics<L, S, R>(
    builder: Builder<L, S, R>,
    env: Map<Seq<char>, Seq<char>>,
    value: Seq<char>,
    detected: bool,
    plan: InstallPlan<L, S, R>,
    filtered_plan: InstallPlan<L, S, R>,
    traces: bool,
    metrics: bool,
    layer: SubscriberLayer,
)
    requires
        export_decision(env, "TRACES"@) == Ok::<bool, Seq<char>>(traces),
        export_decision(env, "METRICS"@) == Ok::<bool, Seq<char>>(metrics),
        planned(plan, builder, env, detected, traces, metrics),
        planned(
            filtered_plan,
            builder,
            env.insert("RUST_LOG"@, value),
            detected,
            traces,
            metrics,
        ),
    ensures
        export_decision(env.insert("RUST_LOG"@, value), "TRACES"@) == Ok::<bool, Seq<char>>(traces),
        export_decision(env.insert("RUST_LOG"@, value), "METRICS"@) == Ok::<bool, Seq<char>>(
            metrics,
        ),
        has_layer(filtered_plan, layer) == has_layer(plan, layer),
        layer_filter(filtered_plan, SubscriberLayer::RequestMetrics) is None,
{
    law_filter_variable_changes_only_the_filter(env, value, "TRACES"@, detected);
    law_filter_variable_changes_only_the_filter(env, value, "METRICS"@, detected);
}

/// An installation fails at exactly the steps that an error is given for: a
/// failing step that can fail ends it, and no other step does.
pub proof fn law_failed_steps_have_an_error(traces: bool, metrics: bool, step: InstallStep)
    requires
        step != InstallStep::Failed,
    ensures
        next_step(traces, metrics, step, false) == InstallStep::Failed <==> can_fail(step),
        next_step(traces, metrics, step, true) != InstallStep::Failed,
{
}

/// A plan keeps what the builder was given: whatever the environment says and
/// whatever is exported, the recorder and the logger are the plan's, and so is
/// the scrubber where traces are exported, the aggregations where metrics are.
pub proof fn law_plan_keeps_what_was_configured<L, S, R>(
    builder: Builder<L, S, R>,
    env: Map<Seq<char>, Seq<char>>,
    detected: bool,
    traces: bool,
    metrics: bool,
    plan: InstallPlan<L, S, R>,
)
    requires
        planned(plan, builder, env, detected, traces, metrics),
    ensures
        plan.request_metrics == builder.request_metrics,
        plan.slog_logger == builder.slog_logger,
        plan.traces is Some <==> traces,
        plan.metrics is Some <==> metrics,
        plan.traces matches Some(exported) ==> exported.scrubber == builder.scrubber,
        plan.metrics matches Some(exported) ==> exported.view.overrides@
            == builder.histogram_aggregations@,
        plan.service_name matches Some(name) ==> name == builder.service_name,
{
}

/// The builder's service name is used exactly if the environment provides none:
/// the SDK has detected none, and `OTEL_SERVICE_NAME` is unset or empty.
pub proof fn law_service_name_of_the_environment_wins<L, S, R>(
    builder: Builder<L, S, R>,
    env: Map<Seq<char>, Seq<char>>,
    detected: bool,
    traces: bool,
    metrics: bool,
    plan: InstallPlan<L, S, R>,
)
    requires
        planned(plan, builder, env, detected, traces, metrics),
    ensures
        detected ==> plan.service_name is None,
        env.contains_key("OTEL_SERVICE_NAME"@) && env["OTEL_SERVICE_NAME"@].len() > 0
            ==> plan.service_name is None,
        !detected && (!env.contains_key("OTEL_SERVICE_NAME"@)
            || env["OTEL_SERVICE_NAME"@].len() == 0) ==> plan.service_name == Some(
            builder.service_name,
        ),
{
}

/// The outcomes of so many steps that all succeed.
pub open spec fn successes(count: nat) -> Seq<bool> {
    Seq::new(count, |i: int| true)
}

/// The steps of an installation that goes well, one by one, for every choice of
/// signals.  The exporters come first, each for its own signal; then the
/// subscriber; then the globals of the signals that are exported.
pub proof fn law_order_of_installation(count: nat)
    ensures
        count <= 6 ==> step_after(true, true, successes(count)) == seq![
            InstallStep::BuildSpanExporter,
            InstallStep::BuildMetricExporter,
            InstallStep::SetSubscriber,
            InstallStep::SetTracerProvider,
            InstallStep::SetPropagator,
            InstallStep::SetMeterProvider,
            InstallStep::Finished,
        ][count as int],
        count <= 4 ==> step_after(true, false, successes(count)) == seq![
            InstallStep::BuildSpanExporter,
            InstallStep::SetSubscriber,
            InstallStep::SetTracerProvider,
            InstallStep::SetPropagator,
            InstallStep::Finished,
        ][count as int],
        count <= 3 ==> step_after(false, true, successes(count)) == seq![
            InstallStep::BuildMetricExporter,
            InstallStep::SetSubscriber,
            InstallStep::SetMeterProvider,
            InstallStep::Finished,
        ][count as int],
        count <= 1 ==> step_after(false, false, successes(count)) == seq![
            InstallStep::SetSubscriber,
            InstallStep::Finished,
        ][count as int],
{
    law_install_performs_all_steps(true, true, successes(count));
    law_install_performs_all_steps(true, false, successes(count));
    law_install_performs_all_steps(false, true, successes(count));
    law_install_performs_all_steps(false, false, successes(count));
}

/// A step that fails ends the installation if it builds an exporter or sets the
/// subscriber.  Setting an OpenTelemetry global cannot fail: what is reported of
/// it makes no difference.
pub proof fn law_failure_ends_installation(traces: bool, metrics: bool, outcomes: Seq<bool>)
    ensures
        ({
            let step = step_after(traces, metrics, outcomes);
            let failed = step_after(traces, metrics, outcomes.push(false));
            let succeeded = step_after(traces, metrics, outcomes.push(true));
            &&& step == InstallStep::BuildSpanExporter || step == InstallStep::BuildMetricExporter
                || step == InstallStep::SetSubscriber ==> failed == InstallStep::Failed
                && succeeded != InstallStep::Failed
            &&& step == InstallStep::SetTracerProvider || step == InstallStep::SetPropagator
                || step == InstallStep::SetMeterProvider || step == InstallStep::Finished
                ==> failed == succeeded && failed != InstallStep::Failed
        }),
{
    assert(outcomes.push(false).drop_last() =~= outcomes);
    assert(outcomes.push(true).drop_last() =~= outcomes);
}

/// Which layers a subscriber has follows from what the plan holds: the bridge
/// where there is a logger, the traces where they are exported, and the layer
/// that watches requests where there is a recorder or metrics are exported.
/// Only the last is not filtered; the others have the plan's filter, or else the
/// default one.
pub proof fn law_layers_of_a_plan<L, S, R>(plan: InstallPlan<L, S, R>)
    ensures
        has_layer(plan, SubscriberLayer::SlogBridge) <==> plan.slog_logger is Some,
        has_layer(plan, SubscriberLayer::Traces) <==> plan.traces is Some,
        plan.request_metrics is Some ==> has_layer(plan, SubscriberLayer::RequestMetrics),
        plan.metrics is Some ==> has_layer(plan, SubscriberLayer::RequestMetrics),
        plan.request_metrics is None && plan.metrics is None ==> !has_layer(
            plan,
            SubscriberLayer::RequestMetrics,
        ),
        layer_filter(plan, SubscriberLayer::RequestMetrics) is None,
        layer_filter(plan, SubscriberLayer::SlogBridge) == layer_filter(
            plan,
            SubscriberLayer::Traces,
        ),
        plan.filter matches Some(directives) ==> layer_filter(plan, SubscriberLayer::Traces)
            == Some(directives@),
        plan.filter is None ==> layer_filter(plan, SubscriberLayer::Traces) == Some(
            "info,h2=warn,hyper=warn,reqwest=warn,rustls=warn,tower=warn"@,
        ),
{
}

} // verus!
