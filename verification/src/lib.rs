//! Opinionated OpenTelemetry setup for Dropshot servers.
//!
//! A Dropshot server creates one `tracing` span per request and records a set
//! of fields on it.  This crate decides what becomes of those spans: whether
//! and how they are exported, which remote trace they join, which measurements
//! and attributes a completed request is recorded with, and what of an event is
//! forwarded to a `slog` logger.
//!
//! * [`builder`] configures an installation; [`Builder::install`] decides what
//!   it consists of and [`builder::InstallSequence`] in which order it is
//!   carried out.
//! * [`environment`] reads the standard OpenTelemetry environment variables.
//! * [`filter`] tells which filter directives can be used.
//! * [`histogram`] chooses each histogram's aggregation.
//! * [`metrics`] gathers what was recorded about a request.
//! * [`propagation`] reads W3C trace context headers and renames spans.
//! * [`scrub`] applies a function to spans before they are exported.
//! * [`slog_bridge`] turns events into log records.
//! * [`request_span`] decides on the fields of request spans.
//! * [`instrument`] and [`otel`] report on single requests.
//!
//! What touches the outside world (the environment, exporters, the global
//! subscriber) is left to the application, which hands in plain values and
//! carries out what was decided.

pub mod attribute;
pub mod builder;
pub mod environment;
pub mod error;
pub mod filter;
pub mod histogram;
pub mod instrument;
pub mod metrics;
pub mod otel;
pub mod propagation;
pub mod request_span;
pub mod scrub;
pub mod slog_bridge;
pub mod text;
pub mod text_map;

pub use builder::{builder, Builder};
pub use error::InitError;
pub use histogram::HistogramAggregation;
