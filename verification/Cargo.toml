[package]
name = "dropshot-otel"
version = "0.1.0"
edition = "2021"
publish = false

[dependencies]
hyper = { version = "=1.12.0", features = ["http1", "server"] }
opentelemetry = "=0.33.1"
opentelemetry-http = "=0.33.1"
opentelemetry-otlp = { version = "=0.33.1", default-features = false, features = ["http-proto", "reqwest-blocking-client", "trace", "metrics"] }
opentelemetry_sdk = { version = "=0.33.1", features = ["testing"] }
opentelemetry-semantic-conventions = "=0.33.1"
slog = { version = "=2.8.2", features = ["dynamic-keys"] }
thiserror = "=2.0.21"
tracing = "=0.1.44"
tracing-opentelemetry = "=0.34.0"
tracing-subscriber = { version = "=0.3.23", features = ["env-filter"] }
