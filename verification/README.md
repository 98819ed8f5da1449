# dropshot-otel

Opinionated OpenTelemetry setup for Dropshot servers, written in Verus.

A Dropshot server creates one `tracing` span per request.  This project exports
those spans and a request duration metric via OTLP, joins incoming requests to
the trace that their W3C trace context headers name, reports completed requests
to application code, and forwards `tracing` events to a `slog` logger.

* `src/` is the library, verified with Verus.  It decides: which signals the
  environment asks to export, what an installation consists of and in which
  order it is carried out, how histograms are aggregated, which fields a request
  span has and which attributes a request's duration is recorded with, which
  remote span is a request's parent, when a span is renamed, and what of an event
  is logged.
* `app/` carries the decisions out.  It reads the environment, builds the OTLP
  exporters, implements the `tracing` layers and sets the globals.
* `tests/` runs the library, with the real OpenTelemetry SDK where a test needs
  one.

Properties that span several functions are proved as public proof functions
whose names begin with `law_`.  What the library takes on trust of the crates it
calls is stated on the functions marked `external_body`, each of which names the
outside function and says what is claimed of it.
