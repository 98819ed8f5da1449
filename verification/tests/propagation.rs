//! Trace context headers and late span names.

use dropshot_otel::propagation::{
    is_well_formed_traceparent, remote_parent_of, ExtractedContext,
    RemoteParent, RenameSequence, RenameStep, RenameVia, SpanRename, TraceHeaders, NAME_FIELD,
    TRACEPARENT_FIELD, TRACESTATE_FIELD,
};
use dropshot_otel::text::{decimal_text, split_at};
use opentelemetry::trace::{SpanId, TraceId};

const TRACE_ID: &str = "0af7651916cd43dd8448eb211c80319c";
const SPAN_ID: &str = "b7ad6b7169203331";

fn parent_of(traceparent: &str) -> Option<RemoteParent> {
    let mut headers = TraceHeaders::default();
    headers.record_str("http.request.header.traceparent", traceparent);
    headers.remote_parent()
}

#[test]
fn test_valid_traceparent_parents_span() {
    let parent = parent_of(&format!("00-{}-{}-01", TRACE_ID, SPAN_ID)).unwrap();
    assert_eq!(TraceId::from(parent.trace_id), TraceId::from_hex(TRACE_ID).unwrap());
    assert_eq!(SpanId::from(parent.span_id), SpanId::from_hex(SPAN_ID).unwrap());
}

#[test]
fn test_malformed_traceparent_is_ignored() {
    for traceparent in [
        // Trace id two hex digits short.
        format!("00-{}-{}-01", &TRACE_ID[2..], SPAN_ID),
        // Span id two hex digits short.
        format!("00-{}-{}-01", TRACE_ID, &SPAN_ID[2..]),
        "00-abc-def-01".to_string(),
        // Right length, but with a sign the number parser accepts.
        format!("00-+{}-{}-01", &TRACE_ID[1..], SPAN_ID),
        // Version 00 has exactly four fields.
        format!("00-{}-{}-01-extra", TRACE_ID, SPAN_ID),
        format!("00-{}-{}-01", TRACE_ID.to_uppercase(), SPAN_ID),
        format!("ff-{}-{}-01", TRACE_ID, SPAN_ID),
        "garbage".to_string(),
    ] {
        assert!(parent_of(&traceparent).is_none(), "traceparent {:?} parented the span", traceparent);
    }
}

#[test]
fn zero_ids_name_no_parent() {
    let zero_trace = format!("00-{}-{}-01", "0".repeat(32), SPAN_ID);
    let zero_span = format!("00-{}-{}-01", TRACE_ID, "0".repeat(16));
    for traceparent in [zero_trace, zero_span] {
        assert!(is_well_formed_traceparent(&traceparent));
        assert!(parent_of(&traceparent).is_none());
    }
}

#[test]
fn later_versions_may_have_more_fields() {
    let parent = parent_of(&format!("01-{}-{}-00-extra", TRACE_ID, SPAN_ID)).unwrap();
    assert_eq!(parent.trace_id, 0x0af7651916cd43dd8448eb211c80319c);
    assert_eq!(parent.span_id, 0xb7ad6b7169203331);
    assert!(!parent.sampled);
    assert!(parent_of(&format!("fe-{}-{}-01", TRACE_ID, SPAN_ID)).is_some());
    // Nothing follows the last hyphen, so there are just four fields.
    assert!(parent_of(&format!("00-{}-{}-01-", TRACE_ID, SPAN_ID)).is_some());
    assert!(parent_of(&format!("00-{}-{}-01- ", TRACE_ID, SPAN_ID)).is_some());
    assert!(parent_of(&format!("00-{}-{}-01--", TRACE_ID, SPAN_ID)).is_none());
    assert!(parent_of(&format!("00-{}-{}-01 ", TRACE_ID, SPAN_ID)).is_none());
}

#[test]
fn sampling_is_the_lowest_flag() {
    for (flags, sampled) in [("00", false), ("01", true), ("fe", false), ("ff", true)] {
        let parent = parent_of(&format!("00-{}-{}-{}", TRACE_ID, SPAN_ID, flags)).unwrap();
        assert_eq!(parent.sampled, sampled, "{}", flags);
    }
}

#[test]
fn tracestate_is_carried_along() {
    let traceparent = format!("00-{}-{}-01", TRACE_ID, SPAN_ID);
    assert_eq!(parent_of(&traceparent).unwrap().trace_state, "");
    let mut headers = TraceHeaders::default();
    headers.record_str(TRACESTATE_FIELD, "vendor=value");
    assert!(headers.remote_parent().is_none());
    headers.record_str(TRACEPARENT_FIELD, &traceparent);
    assert_eq!(headers.remote_parent().unwrap().trace_state, "vendor=value");
}

#[test]
fn headers_are_kept_by_name() {
    let traceparent = format!("00-{}-{}-01", TRACE_ID, SPAN_ID);
    let mut headers = TraceHeaders::default();
    assert!(headers.keys().is_empty());
    headers.record_str(TRACESTATE_FIELD, "vendor=value");
    assert_eq!(headers.keys(), ["tracestate"]);
    headers.record_str(TRACEPARENT_FIELD, &traceparent);
    // A malformed header does not replace a well-formed one.
    headers.record_str(TRACEPARENT_FIELD, "garbage");
    headers.record_str("url.path", "/items/7");
    headers.record_debug(TRACESTATE_FIELD, "other=value");
    assert_eq!(headers.keys(), ["traceparent", "tracestate"]);
    assert_eq!(headers.get("traceparent"), Some(traceparent.as_str()));
    assert_eq!(headers.get("tracestate"), Some("vendor=value"));
    assert_eq!(headers.get("Traceparent"), None);
}

#[test]
fn extracted_contexts_name_a_parent_if_valid() {
    let extracted = |is_valid| ExtractedContext {
        is_valid,
        trace_id: 1,
        span_id: 2,
        sampled: true,
        trace_state: "a=b".to_string(),
    };
    assert!(remote_parent_of(extracted(false)).is_none());
    let parent = remote_parent_of(extracted(true)).unwrap();
    assert_eq!((parent.trace_id, parent.span_id, parent.sampled), (1, 2, true));
    assert_eq!(parent.trace_state, "a=b");
}

#[test]
fn values_split_at_separators() {
    let split = |value: &str| -> Vec<String> {
        split_at(value, '-').into_iter().map(|field| field.into_iter().collect()).collect()
    };
    assert_eq!(split(""), [""]);
    assert_eq!(split("ab"), ["ab"]);
    assert_eq!(split("a--b-"), ["a", "", "b", ""]);
    for number in [0, 9, 10, 200, 65535] {
        assert_eq!(decimal_text(number), number.to_string());
    }
}

/// A subscriber that a rename may come across, with the name of its span.
struct Subscriber {
    has_this_layer: bool,
    has_context: bool,
    name: String,
}

/// A subscriber whose OpenTelemetry span has the given name.
fn subscriber(has_this_layer: bool, name: &str) -> Subscriber {
    Subscriber { has_this_layer, has_context: true, name: name.to_string() }
}

/// Records a name for a span, and renames the span as the steps say.
fn rename(
    started: bool,
    recorded: SpanRename,
    own: Option<&mut Subscriber>,
    current_default: &mut Subscriber,
) {
    let mut steps = RenameSequence::new(started, recorded);
    let mut own = own;
    loop {
        let found = match steps.step() {
            RenameStep::FindOwnDispatcher => own.is_some(),
            RenameStep::FindLayer(via) => match (via, &own) {
                (RenameVia::Own, Some(own)) => own.has_this_layer,
                _ => current_default.has_this_layer,
            },
            RenameStep::FindContext(via) => match (via, &own) {
                (RenameVia::Own, Some(own)) => own.has_context,
                _ => current_default.has_context,
            },
            RenameStep::UpdateName(via) => {
                let name = steps.name().to_string();
                match (via, &mut own) {
                    (RenameVia::Own, Some(own)) => own.name = name,
                    _ => current_default.name = name,
                }
                true
            }
            RenameStep::Finished => return,
        };
        steps.advance(found);
    }
}

fn named(name: &str) -> SpanRename {
    let mut recorded = SpanRename::default();
    recorded.record_str("otel.name", name);
    recorded
}

#[test]
fn test_rename_after_start() {
    let mut own = subscriber(true, "request");
    let mut other = subscriber(false, "other");
    rename(true, named("renamed as str"), Some(&mut own), &mut other);
    assert_eq!(own.name, "renamed as str");
}

#[test]
fn test_rename_after_start_with_display_value() {
    let mut recorded = SpanRename::default();
    recorded.record_debug("otel.name", "renamed");
    let mut own = subscriber(true, "request");
    let mut other = subscriber(false, "other");
    rename(true, recorded, Some(&mut own), &mut other);
    assert_eq!(own.name, "renamed");
}

/// Some wrappers of layers do not pass the dispatcher through, so a wrapped
/// layer never learns its own; renaming must still work.
#[test]
fn test_rename_when_wrapped_in_option() {
    let mut current = subscriber(true, "request");
    rename(true, named("renamed"), None, &mut current);
    assert_eq!(current.name, "renamed");
}

/// Without its dispatcher (see above), the layer must still never rename a span
/// belonging to some other subscriber that happens to be the thread's default.
#[test]
fn test_rename_never_reaches_another_subscriber() {
    let mut other = subscriber(false, "other");
    rename(true, named("renamed"), None, &mut other);
    assert_eq!(other.name, "other");
}

/// A span that is built on its first entry, or as soon as its context is asked
/// for; a parent can be set only before.
#[derive(Default)]
struct BuiltSpan {
    started: bool,
    name: String,
    parent: Option<RemoteParent>,
}

impl BuiltSpan {
    fn record_name(&mut self, name: &str) {
        let mut steps = RenameSequence::new(self.started, named(name));
        // The inner layer applies a name while the span is being built.
        if !self.started {
            self.name = name.to_string();
        }
        while steps.step() != RenameStep::Finished {
            self.started = true;
            steps.advance(true);
        }
    }

    fn set_parent(&mut self, parent: RemoteParent) {
        assert!(!self.started, "the span has started early");
        self.parent = Some(parent);
    }
}

/// Renaming a span before it starts is the inner layer's business; doing it
/// here would start the span early, losing a parent set afterwards.
#[test]
fn test_rename_before_start_keeps_later_parent() {
    let mut span = BuiltSpan::default();
    span.record_name("renamed");
    span.set_parent(parent_of(&format!("00-{}-{}-01", TRACE_ID, SPAN_ID)).unwrap());
    span.started = true;
    assert_eq!(span.name, "renamed");
    let parent = span.parent.unwrap();
    assert_eq!(SpanId::from(parent.span_id), SpanId::from_hex(SPAN_ID).unwrap());
}

/// The rename must reach the span's own subscriber even when a different
/// subscriber is the thread's default at the time of recording.
#[test]
fn test_rename_under_another_default_subscriber() {
    let mut own = subscriber(true, "request");
    let mut other = subscriber(true, "other");
    rename(true, named("renamed"), Some(&mut own), &mut other);
    assert_eq!(own.name, "renamed");
    assert_eq!(other.name, "other");
}

#[test]
fn nothing_is_renamed_without_a_name_or_a_span() {
    let mut recorded = SpanRename::default();
    recorded.record_str("http.route", "/items/{id}");
    recorded.record_debug("otel.kind", "server");
    assert_eq!(recorded.name, None);
    assert_eq!(RenameSequence::new(true, recorded).step(), RenameStep::Finished);
    let mut own = Subscriber { has_context: false, ..subscriber(true, "request") };
    rename(true, named("renamed"), Some(&mut own), &mut subscriber(false, "other"));
    assert_eq!(own.name, "request");
    assert_eq!(NAME_FIELD, "otel.name");
}
