//! W3C trace context propagation for request spans.
//!
//! Request spans carry the raw `traceparent` and `tracestate` request headers
//! in fields.  The headers are given meaning here: a well-formed `traceparent`
//! names the remote span that becomes the request span's parent, linking it
//! into the caller's distributed trace.

#[allow(unused_imports)]
use crate::attribute::ValueView;
use crate::text::{same_text, split_at};
#[allow(unused_imports)]
use crate::text::{
    fields_at, law_fields_end_at_separators, law_last_field_follows_last_separator,
    law_padding_is_trimmed, lemma_first_of_several, lemma_only_field, optional_text, trimmed,
    white_space,
};
use opentelemetry::propagation::TextMapPropagator;
use opentelemetry::trace::TraceContextExt;
use opentelemetry::Context;
use opentelemetry_sdk::propagation::TraceContextPropagator;
use std::collections::HashMap;
use vstd::prelude::*;

verus! {

/// The span field with the `traceparent` request header.
pub const TRACEPARENT_FIELD: &'static str = "http.request.header.traceparent";

/// The span field with the `tracestate` request header.
pub const TRACESTATE_FIELD: &'static str = "http.request.header.tracestate";

/// The span field with the name that a span is given for OpenTelemetry.
pub const NAME_FIELD: &'static str = "otel.name";

/// The parts of a header value between its hyphens.
pub open spec fn hyphen_fields(value: Seq<char>) -> Seq<Seq<char>> {
    fields_at(value, '-')
}

/// Whether a character is a lowercase hexadecimal digit.
pub open spec fn lower_hex_digit(c: char) -> bool {
    '0' <= c <= '9' || 'a' <= c <= 'f'
}

/// Whether a field consists of this many lowercase hexadecimal digits.
pub open spec fn hex_field(field: Seq<char>, digits: int) -> bool {
    field.len() == digits && forall|i: int|
        0 <= i < field.len() ==> lower_hex_digit(#[trigger] field[i])
}

/// Whether a `traceparent` header value has the right shape: its first four
/// fields (version, trace id, parent id, and flags) are exactly 2, 32, 16 and
/// 2 lowercase hexadecimal digits.
pub open spec fn well_formed_traceparent(value: Seq<char>) -> bool {
    let fields = hyphen_fields(value);
    &&& fields.len() >= 4
    &&& hex_field(fields[0], 2)
    &&& hex_field(fields[1], 32)
    &&& hex_field(fields[2], 16)
    &&& hex_field(fields[3], 2)
}

/// The value of a hexadecimal digit.
pub open spec fn hex_digit_value(c: char) -> nat {
    if '0' <= c <= '9' {
        ((c as u32) - ('0' as u32)) as nat
    } else {
        ((c as u32) - ('a' as u32) + 10) as nat
    }
}

/// The number that hexadecimal digits stand for.
pub open spec fn hex_value(digits: Seq<char>) -> nat
    decreases digits.len(),
{
    if digits.len() == 0 {
        0
    } else {
        16 * hex_value(digits.drop_last()) + hex_digit_value(digits.last())
    }
}

/// Whether nothing follows the first four fields of a `traceparent` header
/// value but, at most, a last hyphen; white space at the end is ignored.
pub open spec fn exactly_four_fields(value: Seq<char>) -> bool {
    let fields = hyphen_fields(trimmed(value));
    fields.len() == 4 || (fields.len() == 5 && fields[4].len() == 0)
}

/// Whether a well-formed `traceparent` header value names a remote span: its
/// version is known not to be invalid, a value of version 00 has exactly four
/// fields, and neither the trace id nor the span id is zero.
pub open spec fn names_remote_span(value: Seq<char>) -> bool {
    let fields = hyphen_fields(value);
    &&& hex_value(fields[0]) != 255
    &&& hex_value(fields[0]) == 0 ==> exactly_four_fields(value)
    &&& hex_value(fields[1]) != 0
    &&& hex_value(fields[2]) != 0
}

/// Returns whether a field consists of this many lowercase hexadecimal digits.
fn is_hex_field(field: &Vec<char>, digits: usize) -> (r: bool)
    ensures
        r == hex_field(field@, digits as int),
{
    if field.len() != digits {
        return false;
    }
    let mut i: usize = 0;
    while i < field.len()
        invariant
            i <= field@.len(),
            field@.len() == digits,
            forall|j: int| 0 <= j < i ==> lower_hex_digit(#[trigger] field@[j]),
        decreases field.len() - i,
    {
        let c = field[i];
        if !(('0' <= c && c <= '9') || ('a' <= c && c <= 'f')) {
            return false;
        }
        i += 1;
    }
    true
}

/// Checks the shape of a W3C `traceparent` header's first four fields (version,
/// trace id, parent id, and flags): exactly 2, 32, 16, and 2 lowercase hex
/// digits.  The propagator checks the version, the field count, and case, but
/// parses the fields as numbers without checking their lengths or excluding a
/// leading `+`, so it would otherwise accept e.g. a short trace id.
pub fn is_well_formed_traceparent(value: &str) -> (r: bool)
    ensures
        r == well_formed_traceparent(value@),
{
    let fields = split_at(value, '-');
    fields.len() >= 4 && is_hex_field(&fields[0], 2) && is_hex_field(&fields[1], 32)
        && is_hex_field(&fields[2], 16) && is_hex_field(&fields[3], 2)
}

/// A span context that was extracted from request headers.
#[derive(Debug)]
pub struct ExtractedContext {
    /// Whether the headers name a remote span at all.
    pub is_valid: bool,
    /// The trace that the remote span belongs to.
    pub trace_id: u128,
    /// The remote span.
    pub span_id: u64,
    /// Whether the remote span is sampled.
    pub sampled: bool,
    /// The vendors' trace state, as a `tracestate` header value.
    pub trace_state: String,
}

impl View for ExtractedContext {
    type V = (bool, u128, u64, bool, Seq<char>);

    open spec fn view(&self) -> (bool, u128, u64, bool, Seq<char>) {
        (self.is_valid, self.trace_id, self.span_id, self.sampled, self.trace_state@)
    }
}

/// A remote span that a request span has as its parent.
#[derive(Debug)]
pub struct RemoteParent {
    /// The trace that the span belongs to.
    pub trace_id: u128,
    /// The span.
    pub span_id: u64,
    /// Whether the span is sampled.
    pub sampled: bool,
    /// The vendors' trace state, as a `tracestate` header value.
    pub trace_state: String,
}

impl View for RemoteParent {
    type V = (u128, u64, bool, Seq<char>);

    open spec fn view(&self) -> (u128, u64, bool, Seq<char>) {
        (self.trace_id, self.span_id, self.sampled, self.trace_state@)
    }
}

/// What `TraceContextPropagator` extracts from a `traceparent` and a
/// `tracestate` header value: whether they name a remote span, its trace id,
/// its span id, whether it is sampled, and its trace state.
pub uninterp spec fn extracted_context(
    traceparent: Seq<char>,
    tracestate: Option<Seq<char>>,
) -> (bool, u128, u64, bool, Seq<char>);

/// An optional header value as plain data.
pub open spec fn optional_value(value: Option<&str>) -> Option<Seq<char>> {
    match value {
        Some(text) => Some(text@),
        None => None,
    }
}

/// `TraceContextPropagator::extract_with_context` on an empty context: what it
/// extracts depends on the two header values alone.  From a well-formed
/// `traceparent` it extracts a valid context exactly if the version is not ff,
/// a value of version 00 has no more than four fields, and neither id is zero;
/// the ids are then the second and third field, and the span is sampled if the
/// lowest bit of the fourth is set.  Without a `tracestate` there is no trace
/// state.  What a `tracestate` header value is accepted as, and what becomes of
/// a `traceparent` that is not well-formed, is left to the name.
#[verifier::external_body]
fn extract_context(traceparent: &str, tracestate: Option<&str>) -> (r: ExtractedContext)
    ensures
        r@ == extracted_context(traceparent@, optional_value(tracestate)),
        well_formed_traceparent(traceparent@) ==> r.is_valid == names_remote_span(traceparent@),
        well_formed_traceparent(traceparent@) && r.is_valid ==> {
            &&& r.trace_id == hex_value(hyphen_fields(traceparent@)[1])
            &&& r.span_id == hex_value(hyphen_fields(traceparent@)[2])
            &&& r.sampled == (hex_value(hyphen_fields(traceparent@)[3]) % 2 == 1)
        },
        tracestate is None ==> r.trace_state@.len() == 0,
{
    let mut carrier: HashMap<String, String> = HashMap::new();
    carrier.insert("traceparent".to_string(), traceparent.to_string());
    carrier.extend(tracestate.map(|state| ("tracestate".to_string(), state.to_string())));
    let context = TraceContextPropagator::new().extract_with_context(&Context::new(), &carrier);
    let span = context.span();
    let remote = span.span_context();
    ExtractedContext {
        is_valid: remote.is_valid(),
        trace_id: u128::from_be_bytes(remote.trace_id().to_bytes()),
        span_id: u64::from_be_bytes(remote.span_id().to_bytes()),
        sampled: remote.is_sampled(),
        trace_state: remote.trace_state().header(),
    }
}

/// Returns the remote span that an extracted context names, if it is valid.
pub fn remote_parent_of(extracted: ExtractedContext) -> (r: Option<RemoteParent>)
    ensures
        match r {
            Some(parent) => {
                &&& extracted.is_valid
                &&& parent@ == (
                    extracted.trace_id,
                    extracted.span_id,
                    extracted.sampled,
                    extracted.trace_state@,
                )
            },
            None => !extracted.is_valid,
        },
{
    if extracted.is_valid {
        Some(
            RemoteParent {
                trace_id: extracted.trace_id,
                span_id: extracted.span_id,
                sampled: extracted.sampled,
                trace_state: extracted.trace_state,
            },
        )
    } else {
        None
    }
}

/// The trace context request headers that a span carries, as plain data.
pub struct HeadersView {
    pub traceparent: Option<Seq<char>>,
    pub tracestate: Option<Seq<char>>,
}

/// The headers after a span field was recorded.  A `traceparent` header is
/// taken in only if it is well-formed.
pub open spec fn with_header(
    headers: HeadersView,
    field: Seq<char>,
    value: Seq<char>,
) -> HeadersView {
    HeadersView {
        traceparent: if field == TRACEPARENT_FIELD@ && well_formed_traceparent(value) {
            Some(value)
        } else {
            headers.traceparent
        },
        tracestate: if field == TRACESTATE_FIELD@ {
            Some(value)
        } else {
            headers.tracestate
        },
    }
}

/// The two headers have different names, and so have their span fields.
pub proof fn lemma_header_names()
    ensures
        TRACEPARENT_FIELD@.len() == 31,
        TRACESTATE_FIELD@.len() == 30,
        "traceparent"@.len() == 11,
        "tracestate"@.len() == 10,
{
    reveal_strlit("http.request.header.traceparent");
    reveal_strlit("http.request.header.tracestate");
    reveal_strlit("traceparent");
    reveal_strlit("tracestate");
}

/// The headers after span fields were recorded, in order.  Headers are recorded
/// as texts only.
pub open spec fn headers_recorded(
    headers: HeadersView,
    fields: Seq<(Seq<char>, ValueView)>,
) -> HeadersView
    decreases fields.len(),
{
    if fields.len() == 0 {
        headers
    } else {
        let earlier = headers_recorded(headers, fields.drop_last());
        match fields.last().1 {
            ValueView::Text(text) => with_header(earlier, fields.last().0, text),
            ValueView::Integer(_) => earlier,
        }
    }
}

/// The trace context request headers that a span carries.
#[derive(Debug)]
pub struct TraceHeaders {
    traceparent: Option<String>,
    tracestate: Option<String>,
}

impl View for TraceHeaders {
    type V = HeadersView;

    closed spec fn view(&self) -> HeadersView {
        HeadersView {
            traceparent: optional_text(self.traceparent),
            tracestate: optional_text(self.tracestate),
        }
    }
}

impl Default for TraceHeaders {
    /// Returns no headers.
    fn default() -> (r: Self)
        ensures
            r@ == (HeadersView { traceparent: None, tracestate: None }),
    {
        TraceHeaders { traceparent: None, tracestate: None }
    }
}

impl TraceHeaders {
    /// A `traceparent` header that was taken in is well-formed.
    #[verifier::type_invariant]
    pub closed spec fn wf(self) -> bool {
        match self.traceparent {
            Some(value) => well_formed_traceparent(value@),
            None => true,
        }
    }

    /// Takes in a span field with a text value.
    pub fn record_str(&mut self, field: &str, value: &str)
        ensures
            final(self)@ == with_header(old(self)@, field@, value@),
            final(self)@.traceparent == (if field@ == "http.request.header.traceparent"@
                && well_formed_traceparent(value@) {
                Some(value@)
            } else {
                old(self)@.traceparent
            }),
            final(self)@.tracestate == (if field@ == "http.request.header.tracestate"@ {
                Some(value@)
            } else {
                old(self)@.tracestate
            }),
    {
        proof {
            use_type_invariant(&*self);
            lemma_header_names();
        }
        if same_text(field, TRACEPARENT_FIELD) {
            if is_well_formed_traceparent(value) {
                let value = value.to_owned();
                self.traceparent = Some(value);
            }
        } else if same_text(field, TRACESTATE_FIELD) {
            let value = value.to_owned();
            self.tracestate = Some(value);
        }
    }

    /// Takes in a span field with a value of any other type: the headers are
    /// never recorded as such.
    pub fn record_debug(&mut self, _field: &str, _value: &str)
        ensures
            *final(self) == *old(self),
    {
    }

    /// Returns the value of a header, by its name.
    pub fn get(&self, key: &str) -> (r: Option<&str>)
        ensures
            optional_value(r) == (if key@ == "traceparent"@ {
                self@.traceparent
            } else if key@ == "tracestate"@ {
                self@.tracestate
            } else {
                None
            }),
    {
        if same_text(key, "traceparent") {
            match &self.traceparent {
                Some(value) => Some(value.as_str()),
                None => None,
            }
        } else if same_text(key, "tracestate") {
            match &self.tracestate {
                Some(value) => Some(value.as_str()),
                None => None,
            }
        } else {
            None
        }
    }

    /// Returns the names of the headers that there are.
    pub fn keys(&self) -> (r: Vec<&'static str>)
        ensures
            r@.map_values(|key: &'static str| key@) == (if self@.traceparent is Some {
                seq!["traceparent"@]
            } else {
                Seq::empty()
            }) + (if self@.tracestate is Some {
                seq!["tracestate"@]
            } else {
                Seq::empty()
            }),
    {
        let mut keys: Vec<&'static str> = Vec::new();
        if self.traceparent.is_some() {
            keys.push("traceparent");
        }
        if self.tracestate.is_some() {
            keys.push("tracestate");
        }
        assert(keys@.map_values(|key: &'static str| key@) =~= (if self@.traceparent is Some {
            seq!["traceparent"@]
        } else {
            Seq::empty()
        }) + (if self@.tracestate is Some {
            seq!["tracestate"@]
        } else {
            Seq::empty()
        }));
        keys
    }

    /// Returns the remote span that the headers name, which becomes the span's
    /// parent, or `None` if they name none.
    pub fn remote_parent(&self) -> (r: Option<RemoteParent>)
        ensures
            r is Some <==> self@.traceparent is Some && names_remote_span(self@.traceparent->0),
            match r {
                Some(parent) => {
                    let fields = hyphen_fields(self@.traceparent->0);
                    &&& parent.trace_id == hex_value(fields[1])
                    &&& parent.span_id == hex_value(fields[2])
                    &&& parent.sampled == (hex_value(fields[3]) % 2 == 1)
                    &&& self@.tracestate is None ==> parent.trace_state@.len() == 0
                    &&& extracted_context(self@.traceparent->0, self@.tracestate) == (
                        true,
                        parent.trace_id,
                        parent.span_id,
                        parent.sampled,
                        parent.trace_state@,
                    )
                },
                None => self@.traceparent is Some ==> !extracted_context(
                    self@.traceparent->0,
                    self@.tracestate,
                ).0,
            },
    {
        proof {
            use_type_invariant(self);
        }
        match self.get("traceparent") {
            Some(traceparent) => {
                proof {
                    lemma_header_names();
                }
                remote_parent_of(extract_context(traceparent, self.get("tracestate")))
            },
            None => None,
        }
    }
}

/// A name that was recorded for a span after its creation.
#[derive(Debug)]
pub struct SpanRename {
    pub name: Option<String>,
}

impl Default for SpanRename {
    /// Returns a rename under which no name was recorded.
    fn default() -> (r: Self)
        ensures
            r.name is None,
    {
        SpanRename { name: None }
    }
}

impl SpanRename {
    /// Takes in a span field with a text value.
    pub fn record_str(&mut self, field: &str, value: &str)
        ensures
            match final(self).name {
                Some(name) if field@ == NAME_FIELD@ => name@ == value@,
                _ => field@ != NAME_FIELD@ && *final(self) == *old(self),
            },
            field@ == "otel.name"@ ==> final(self).name is Some && final(self).name->0@ == value@,
            field@ != "otel.name"@ ==> final(self).name == old(self).name,
    {
        if same_text(field, NAME_FIELD) {
            self.name = Some(value.to_owned());
        }
    }

    /// Takes in a span field with a value of another type, given how the value
    /// is formatted: values recorded for display arrive this way.
    pub fn record_debug(&mut self, field: &str, formatted: &str)
        ensures
            match final(self).name {
                Some(name) if field@ == NAME_FIELD@ => name@ == formatted@,
                _ => field@ != NAME_FIELD@ && *final(self) == *old(self),
            },
            field@ == "otel.name"@ ==> final(self).name is Some && final(self).name->0@ == formatted@,
            field@ != "otel.name"@ ==> final(self).name == old(self).name,
    {
        self.record_str(field, formatted);
    }
}

/// Which dispatcher leads to the span to rename.
#[derive(Clone, Copy, Debug, PartialEq, Eq, Structural)]
pub enum RenameVia {
    /// The dispatcher that the layer was registered with, which need not be the
    /// thread's current default.
    Own,
    /// The thread's current default.
    CurrentDefault,
}

/// A step in renaming a span whose name was recorded after its creation.
#[derive(Clone, Copy, Debug, PartialEq, Eq, Structural)]
pub enum RenameStep {
    /// Find out whether the layer knows its own dispatcher, and it is alive.
    FindOwnDispatcher,
    /// Find out whether the layer is part of a dispatcher's subscriber.
    FindLayer(RenameVia),
    /// Find out whether a dispatcher knows an OpenTelemetry span for the span.
    FindContext(RenameVia),
    /// Give the OpenTelemetry span that a dispatcher knows the recorded name.
    UpdateName(RenameVia),
    /// There is nothing more to do.
    Finished,
}

/// The first step of a rename.  The inner layer applies a name only while the
/// span is still being built, and until the span has started, the name is left
/// to it: applying it here would start the span early.
pub open spec fn first_rename_step(started: bool, named: bool) -> RenameStep {
    if started && named {
        RenameStep::FindOwnDispatcher
    } else {
        RenameStep::Finished
    }
}

/// The step that follows another, given what the other has found.
pub open spec fn next_rename_step(step: RenameStep, found: bool) -> RenameStep {
    match step {
        // Some wrappers of layers don't pass the dispatcher through, leaving
        // the layer without it.
        RenameStep::FindOwnDispatcher => RenameStep::FindLayer(
            if found {
                RenameVia::Own
            } else {
                RenameVia::CurrentDefault
            },
        ),
        // Span ids are per subscriber, so another subscriber's span may share
        // this span's id.
        RenameStep::FindLayer(via) => if found {
            RenameStep::FindContext(via)
        } else {
            RenameStep::Finished
        },
        RenameStep::FindContext(via) => if found {
            RenameStep::UpdateName(via)
        } else {
            RenameStep::Finished
        },
        RenameStep::UpdateName(_) => RenameStep::Finished,
        RenameStep::Finished => RenameStep::Finished,
    }
}

/// The steps that apply a recorded name to a span that has already started.
#[derive(Debug)]
pub struct RenameSequence {
    name: String,
    step: RenameStep,
}

impl RenameSequence {
    /// The name to apply, where there is one.
    pub closed spec fn new_name(self) -> Seq<char> {
        self.name@
    }

    /// The step to perform.
    pub closed spec fn current(self) -> RenameStep {
        self.step
    }

    /// Returns the steps that apply what was recorded for a span, given whether
    /// the span has started.
    pub fn new(started: bool, rename: SpanRename) -> (r: Self)
        ensures
            r.current() == first_rename_step(started, rename.name is Some),
            rename.name matches Some(name) ==> r.new_name() == name@,
    {
        match rename.name {
            Some(name) => {
                let step = if started {
                    RenameStep::FindOwnDispatcher
                } else {
                    RenameStep::Finished
                };
                RenameSequence { name, step }
            },
            None => RenameSequence { name: String::new(), step: RenameStep::Finished },
        }
    }

    /// Returns the name to apply.
    pub fn name(&self) -> (r: &str)
        ensures
            r@ == self.new_name(),
    {
        self.name.as_str()
    }

    /// Returns the step to perform.
    pub fn step(&self) -> (r: RenameStep)
        ensures
            r == self.current(),
    {
        self.step
    }

    /// Moves on to the next step, given what the current one has found.
    pub fn advance(&mut self, found: bool)
        ensures
            final(self).new_name() == old(self).new_name(),
            final(self).current() == next_rename_step(old(self).current(), found),
    {
        self.step =
        match self.step {
            RenameStep::FindOwnDispatcher => if found {
                RenameStep::FindLayer(RenameVia::Own)
            } else {
                RenameStep::FindLayer(RenameVia::CurrentDefault)
            },
            RenameStep::FindLayer(via) => if found {
                RenameStep::FindContext(via)
            } else {
                RenameStep::Finished
            },
            RenameStep::FindContext(via) => if found {
                RenameStep::UpdateName(via)
            } else {
                RenameStep::Finished
            },
            RenameStep::UpdateName(_) => RenameStep::Finished,
            RenameStep::Finished => RenameStep::Finished,
        };
    }
}

/// The step that a rename has reached once its steps have found these things.
pub open spec fn rename_step_after(started: bool, named: bool, found: Seq<bool>) -> RenameStep
    decreases found.len(),
{
    if found.len() == 0 {
        first_rename_step(started, named)
    } else {
        next_rename_step(rename_step_after(started, named, found.drop_last()), found.last())
    }
}

/// Which dispatcher a rename goes through.
pub open spec fn via_of(own_is_alive: bool) -> RenameVia {
    if own_is_alive {
        RenameVia::Own
    } else {
        RenameVia::CurrentDefault
    }
}

/// A span is given a recorded name exactly if it has started, a name was
/// recorded, and the dispatcher that leads to it has this layer and knows its
/// OpenTelemetry span.  That dispatcher is the layer's own as long as it is
/// alive, whatever the thread's default is.  The rename then ends.
pub proof fn law_rename_reaches_started_span(
    started: bool,
    named: bool,
    own_is_alive: bool,
    has_layer: bool,
    has_context: bool,
    rest: bool,
)
    ensures
        ({
            let found = seq![own_is_alive, has_layer, has_context];
            &&& rename_step_after(started, named, found) == if started && named && has_layer
                && has_context {
                RenameStep::UpdateName(
                    if own_is_alive {
                        RenameVia::Own
                    } else {
                        RenameVia::CurrentDefault
                    },
                )
            } else {
                RenameStep::Finished
            }
            &&& rename_step_after(started, named, found.push(rest)) == RenameStep::Finished
        }),
{
    let f0 = Seq::<bool>::empty();
    let f1 = f0.push(own_is_alive);
    let f2 = f1.push(has_layer);
    let f3 = f2.push(has_context);
    let f4 = f3.push(rest);
    assert(seq![own_is_alive, has_layer, has_context] =~= f3);
    assert(f1.drop_last() =~= f0);
    assert(f2.drop_last() =~= f1);
    assert(f3.drop_last() =~= f2);
    assert(f4.drop_last() =~= f3);
    assert(rename_step_after(started, named, f0) == first_rename_step(started, named));
    assert(rename_step_after(started, named, f1) == next_rename_step(
        rename_step_after(started, named, f0),
        own_is_alive,
    ));
    assert(rename_step_after(started, named, f2) == next_rename_step(
        rename_step_after(started, named, f1),
        has_layer,
    ));
    assert(rename_step_after(started, named, f3) == next_rename_step(
        rename_step_after(started, named, f2),
        has_context,
    ));
    assert(rename_step_after(started, named, f4) == next_rename_step(
        rename_step_after(started, named, f3),
        rest,
    ));
}

/// A span of a subscriber without this layer is never looked up, let alone
/// renamed: whatever a rename has found, it looks for or names a span only if
/// the dispatcher that it goes through was found to have this layer.
pub proof fn law_rename_leaves_other_subscribers_alone(
    started: bool,
    named: bool,
    found: Seq<bool>,
)
    ensures
        match rename_step_after(started, named, found) {
            RenameStep::FindContext(via) | RenameStep::UpdateName(via) => {
                &&& found.len() >= 2
                &&& found[1]
                &&& via == via_of(found[0])
            },
            RenameStep::FindLayer(via) => found.len() == 1 && via == via_of(found[0]),
            RenameStep::FindOwnDispatcher => found.len() == 0,
            RenameStep::Finished => true,
        },
    decreases found.len(),
{
    if found.len() > 0 {
        law_rename_leaves_other_subscribers_alone(started, named, found.drop_last());
    }
}

/// A span that has not started, or for which no name was recorded, is left to
/// the inner layer: no step is ever performed for it.
pub proof fn law_rename_waits_for_start(started: bool, named: bool, found: Seq<bool>)
    requires
        !started || !named,
    ensures
        rename_step_after(started, named, found) == RenameStep::Finished,
    decreases found.len(),
{
    if found.len() > 0 {
        law_rename_waits_for_start(started, named, found.drop_last());
    }
}

/// A `traceparent` header that is not well-formed is ignored: it changes none
/// of the headers, so it neither names a parent nor replaces one.
pub proof fn law_malformed_traceparent_is_ignored(headers: HeadersView, value: Seq<char>)
    requires
        !well_formed_traceparent(value),
    ensures
        with_header(headers, TRACEPARENT_FIELD@, value) == headers,
{
    lemma_header_names();
}

/// The two headers may be recorded in either order.
pub proof fn law_header_order_is_irrelevant(
    headers: HeadersView,
    traceparent: Seq<char>,
    tracestate: Seq<char>,
)
    ensures
        with_header(
            with_header(headers, TRACEPARENT_FIELD@, traceparent),
            TRACESTATE_FIELD@,
            tracestate,
        ) == with_header(
            with_header(headers, TRACESTATE_FIELD@, tracestate),
            TRACEPARENT_FIELD@,
            traceparent,
        ),
{
    lemma_header_names();
}

/// Fields of other names are not trace context.
pub proof fn law_other_fields_are_ignored(headers: HeadersView, field: Seq<char>, value: Seq<char>)
    requires
        field != TRACEPARENT_FIELD@,
        field != TRACESTATE_FIELD@,
    ensures
        with_header(headers, field, value) == headers,
{
}

/// Text without a hyphen is a single field.
proof fn lemma_single_field(field: Seq<char>)
    requires
        forall|i: int| 0 <= i < field.len() ==> field[i] != '-',
    ensures
        hyphen_fields(field) == seq![field],
{
    law_fields_end_at_separators(field, '-', Seq::empty());
}

/// A field that is added behind a hyphen is the last one.
proof fn lemma_field_added(value: Seq<char>, field: Seq<char>)
    requires
        forall|i: int| 0 <= i < field.len() ==> field[i] != '-',
    ensures
        hyphen_fields(value + seq!['-'] + field) == hyphen_fields(value).push(field),
{
    law_last_field_follows_last_separator(value, '-', field);
}

/// A `traceparent` header value made of a version, a trace id, a span id and
/// flags, each of its length in lowercase hexadecimal digits, is well-formed
/// and read as just these fields.  It names a remote span unless the version is
/// ff or an id is zero.
pub proof fn law_traceparent_is_read_as_written(
    version: Seq<char>,
    trace_id: Seq<char>,
    span_id: Seq<char>,
    flags: Seq<char>,
)
    requires
        hex_field(version, 2),
        hex_field(trace_id, 32),
        hex_field(span_id, 16),
        hex_field(flags, 2),
    ensures
        ({
            let value = version + seq!['-'] + trace_id + seq!['-'] + span_id + seq!['-'] + flags;
            &&& hyphen_fields(value) == seq![version, trace_id, span_id, flags]
            &&& well_formed_traceparent(value)
            &&& names_remote_span(value) == (hex_value(version) != 255 && hex_value(trace_id) != 0
                && hex_value(span_id) != 0)
        }),
{
    let two = version + seq!['-'] + trace_id;
    let three = two + seq!['-'] + span_id;
    let value = three + seq!['-'] + flags;
    lemma_single_field(version);
    lemma_field_added(version, trace_id);
    lemma_field_added(two, span_id);
    lemma_field_added(three, flags);
    assert(hyphen_fields(value) =~= seq![version, trace_id, span_id, flags]);
    assert(value.len() == 55);
    assert(value.first() == version[0]);
    assert(lower_hex_digit(version[0]));
    assert(value.last() == flags[1]);
    assert(lower_hex_digit(flags[1]));
    assert(trimmed(value) == value);
}

/// A well-formed `traceparent` header is taken in, in place of an earlier one, and
/// so is any `tracestate` header; the one leaves the other as it is.
pub proof fn law_headers_are_taken_in_by_name(headers: HeadersView, value: Seq<char>)
    ensures
        well_formed_traceparent(value) ==> with_header(
            headers,
            "http.request.header.traceparent"@,
            value,
        ) == (HeadersView { traceparent: Some(value), ..headers }),
        !well_formed_traceparent(value) ==> with_header(
            headers,
            "http.request.header.traceparent"@,
            value,
        ) == headers,
        with_header(headers, "http.request.header.tracestate"@, value) == (HeadersView {
            tracestate: Some(value),
            ..headers
        }),
{
    lemma_header_names();
}

/// Whether the characters of a text from one place up to another are lowercase
/// hexadecimal digits.
pub open spec fn hex_from(value: Seq<char>, from: int, to: int) -> bool {
    forall|i: int|
        from <= i < to ==> ('0' <= #[trigger] value[i] <= '9' || 'a' <= value[i] <= 'f')
}

/// Where the four fields of a well-formed `traceparent` header stand.  Its first
/// 55 characters are 2, 32, 16 and 2 lowercase hexadecimal digits with hyphens
/// between them, and what follows, if anything, is set off by another hyphen.
pub proof fn law_layout_of_traceparent(value: Seq<char>)
    ensures
        well_formed_traceparent(value) <==> {
            &&& value.len() >= 55
            &&& hex_from(value, 0, 2)
            &&& value[2] == '-'
            &&& hex_from(value, 3, 35)
            &&& value[35] == '-'
            &&& hex_from(value, 36, 52)
            &&& value[52] == '-'
            &&& hex_from(value, 53, 55)
            &&& value.len() == 55 || value[55] == '-'
        },
        well_formed_traceparent(value) ==> {
            let fields = hyphen_fields(value);
            &&& fields[0] == value.subrange(0, 2)
            &&& fields[1] == value.subrange(3, 35)
            &&& fields[2] == value.subrange(36, 52)
            &&& fields[3] == value.subrange(53, 55)
            &&& value.len() == 55 ==> fields.len() == 4
            &&& value.len() > 55 ==> fields == seq![
                fields[0],
                fields[1],
                fields[2],
                fields[3],
            ] + hyphen_fields(value.skip(56))
        },
{
    if well_formed_traceparent(value) {
        lemma_layout_of_well_formed(value);
    }
    if {
        &&& value.len() >= 55
        &&& hex_from(value, 0, 2)
        &&& value[2] == '-'
        &&& hex_from(value, 3, 35)
        &&& value[35] == '-'
        &&& hex_from(value, 36, 52)
        &&& value[52] == '-'
        &&& hex_from(value, 53, 55)
        &&& value.len() == 55 || value[55] == '-'
    } {
        lemma_fields_of_layout(value);
    }
}

/// The fields of a value that is laid out like a `traceparent` header.
proof fn lemma_fields_of_layout(value: Seq<char>)
    requires
        value.len() >= 55,
        hex_from(value, 0, 2),
        value[2] == '-',
        hex_from(value, 3, 35),
        value[35] == '-',
        hex_from(value, 36, 52),
        value[52] == '-',
        hex_from(value, 53, 55),
        value.len() == 55 || value[55] == '-',
    ensures
        well_formed_traceparent(value),
        hyphen_fields(value).len() >= 4,
        hyphen_fields(value)[0] == value.subrange(0, 2),
        hyphen_fields(value)[1] == value.subrange(3, 35),
        hyphen_fields(value)[2] == value.subrange(36, 52),
        hyphen_fields(value)[3] == value.subrange(53, 55),
        value.len() == 55 ==> hyphen_fields(value).len() == 4,
        value.len() > 55 ==> hyphen_fields(value) == seq![
            value.subrange(0, 2),
            value.subrange(3, 35),
            value.subrange(36, 52),
            value.subrange(53, 55),
        ] + hyphen_fields(value.skip(56)),
{
    let version = value.subrange(0, 2);
    let trace_id = value.subrange(3, 35);
    let span_id = value.subrange(36, 52);
    let flags = value.subrange(53, 55);
    let r1 = value.skip(3);
    let r2 = value.skip(36);
    let r3 = value.skip(53);
    assert(forall|i: int| 0 <= i < 2 ==> #[trigger] version[i] == value[i]);
    assert(forall|i: int| 0 <= i < 32 ==> #[trigger] trace_id[i] == value[3 + i]);
    assert(forall|i: int| 0 <= i < 16 ==> #[trigger] span_id[i] == value[36 + i]);
    assert(forall|i: int| 0 <= i < 2 ==> #[trigger] flags[i] == value[53 + i]);
    assert(value =~= version + seq!['-'] + r1);
    assert(r1 =~= trace_id + seq!['-'] + r2);
    assert(r2 =~= span_id + seq!['-'] + r3);
    law_fields_end_at_separators(version, '-', r1);
    law_fields_end_at_separators(trace_id, '-', r2);
    law_fields_end_at_separators(span_id, '-', r3);
    if value.len() == 55 {
        assert(r3 =~= flags);
        law_fields_end_at_separators(flags, '-', Seq::empty());
        assert(hyphen_fields(value) =~= seq![version, trace_id, span_id, flags]);
    } else {
        let more = value.skip(56);
        assert(r3 =~= flags + seq!['-'] + more);
        law_fields_end_at_separators(flags, '-', more);
        assert(hyphen_fields(value) =~= seq![version, trace_id, span_id, flags] + hyphen_fields(
            more,
        ));
    }
}

/// A well-formed value is laid out as it should be.
proof fn lemma_layout_of_well_formed(value: Seq<char>)
    requires
        well_formed_traceparent(value),
    ensures
        value.len() >= 55,
        hex_from(value, 0, 2),
        value[2] == '-',
        hex_from(value, 3, 35),
        value[35] == '-',
        hex_from(value, 36, 52),
        value[52] == '-',
        hex_from(value, 53, 55),
        value.len() == 55 || value[55] == '-',
{
    let fields = hyphen_fields(value);
    let r1 = value.skip(3);
    let r2 = value.skip(36);
    let r3 = value.skip(53);
    lemma_first_of_several(value, '-');
    assert(fields.skip(1)[0] == fields[1]);
    assert(fields.skip(1).len() >= 3);
    lemma_first_of_several(r1, '-');
    assert(fields.skip(1).skip(1) =~= fields.skip(2));
    assert(r1.skip(33) =~= r2);
    assert(fields.skip(2)[0] == fields[2]);
    lemma_first_of_several(r2, '-');
    assert(fields.skip(2).skip(1) =~= fields.skip(3));
    assert(r2.skip(17) =~= r3);
    assert(fields.skip(3)[0] == fields[3]);
    if fields.len() == 4 {
        lemma_only_field(r3, '-');
    } else {
        lemma_first_of_several(r3, '-');
    }
    assert(forall|i: int| 0 <= i < 2 ==> value[i] == #[trigger] fields[0][i]);
    assert(forall|i: int| 0 <= i < 32 ==> r1[i] == #[trigger] fields[1][i]);
    assert(forall|i: int| 0 <= i < 16 ==> r2[i] == #[trigger] fields[2][i]);
    assert(forall|i: int| 0 <= i < 2 ==> r3[i] == #[trigger] fields[3][i]);
    assert forall|i: int| 0 <= i < 2 implies ('0' <= #[trigger] value[i] <= '9' || 'a'
        <= value[i] <= 'f') by {
        assert(lower_hex_digit(fields[0][i]));
    }
    assert forall|i: int| 3 <= i < 35 implies ('0' <= #[trigger] value[i] <= '9' || 'a'
        <= value[i] <= 'f') by {
        assert(lower_hex_digit(fields[1][i - 3]));
        assert(r1[i - 3] == value[i]);
    }
    assert forall|i: int| 36 <= i < 52 implies ('0' <= #[trigger] value[i] <= '9' || 'a'
        <= value[i] <= 'f') by {
        assert(lower_hex_digit(fields[2][i - 36]));
        assert(r2[i - 36] == value[i]);
    }
    assert forall|i: int| 53 <= i < 55 implies ('0' <= #[trigger] value[i] <= '9' || 'a'
        <= value[i] <= 'f') by {
        assert(lower_hex_digit(fields[3][i - 53]));
        assert(r3[i - 53] == value[i]);
    }
    assert(value[35] == r1[32]);
    assert(value[52] == r2[16]);
    if value.len() > 55 {
        assert(value[55] == r3[2]);
    }
}

/// Hexadecimal digits are read from the first to the last, each with its value
/// and each worth sixteen of the next.
pub proof fn law_hexadecimal_numbers(digits: Seq<char>, c: char)
    ensures
        hex_value(Seq::empty()) == 0,
        '0' <= c <= '9' ==> hex_value(digits.push(c)) == 16 * hex_value(digits) + (c as u32 - 48),
        'a' <= c <= 'f' ==> hex_value(digits.push(c)) == 16 * hex_value(digits) + (c as u32 - 87),
{
    assert(digits.push(c).drop_last() =~= digits);
}

/// Ids that are written with different digits are different.
pub proof fn law_hexadecimal_numbers_are_faithful(a: Seq<char>, b: Seq<char>)
    requires
        a.len() == b.len(),
        hex_from(a, 0, a.len() as int),
        hex_from(b, 0, b.len() as int),
    ensures
        hex_value(a) == hex_value(b) <==> a == b,
    decreases a.len(),
{
    if a.len() > 0 {
        let x = a.drop_last();
        let y = b.drop_last();
        assert(hex_from(x, 0, x.len() as int)) by {
            assert forall|i: int| 0 <= i < x.len() implies ('0' <= #[trigger] x[i] <= '9' || 'a'
                <= x[i] <= 'f') by {
                assert(x[i] == a[i]);
            }
        }
        assert(hex_from(y, 0, y.len() as int)) by {
            assert forall|i: int| 0 <= i < y.len() implies ('0' <= #[trigger] y[i] <= '9' || 'a'
                <= y[i] <= 'f') by {
                assert(y[i] == b[i]);
            }
        }
        law_hexadecimal_numbers_are_faithful(x, y);
        assert(x.push(a.last()) =~= a);
        assert(y.push(b.last()) =~= b);
        assert('0' <= a[a.len() - 1] <= '9' || 'a' <= a[a.len() - 1] <= 'f');
        assert('0' <= b[b.len() - 1] <= '9' || 'a' <= b[b.len() - 1] <= 'f');
        assert(hex_digit_value(a.last()) < 16 && hex_digit_value(b.last()) < 16);
        assert(hex_digit_value(a.last()) == hex_digit_value(b.last()) ==> a.last() == b.last());
    } else {
        assert(a =~= b);
    }
}

/// A number written in hexadecimal digits is zero exactly if all of them are.
proof fn lemma_hex_zero(digits: Seq<char>)
    requires
        hex_from(digits, 0, digits.len() as int),
    ensures
        hex_value(digits) == 0 <==> forall|i: int|
            0 <= i < digits.len() ==> #[trigger] digits[i] == '0',
    decreases digits.len(),
{
    if digits.len() > 0 {
        let x = digits.drop_last();
        assert forall|i: int| 0 <= i < x.len() implies ('0' <= #[trigger] x[i] <= '9' || 'a'
            <= x[i] <= 'f') by {
            assert(x[i] == digits[i]);
        }
        lemma_hex_zero(x);
        let last = digits[digits.len() - 1];
        assert('0' <= last <= '9' || 'a' <= last <= 'f');
        assert(hex_digit_value(last) == 0 <==> last == '0');
        if hex_value(digits) == 0 {
            assert forall|i: int| 0 <= i < digits.len() implies #[trigger] digits[i] == '0' by {
                if i < x.len() {
                    assert(x[i] == '0');
                }
            }
        }
        if forall|i: int| 0 <= i < digits.len() ==> #[trigger] digits[i] == '0' {
            assert(forall|i: int| 0 <= i < x.len() ==> #[trigger] x[i] == digits[i]);
        }
    }
}

/// The number that two hexadecimal digits stand for.
proof fn lemma_two_digits(digits: Seq<char>)
    requires
        digits.len() == 2,
        hex_from(digits, 0, 2),
    ensures
        hex_value(digits) == 16 * hex_digit_value(digits[0]) + hex_digit_value(digits[1]),
        hex_digit_value(digits[0]) < 16,
        hex_digit_value(digits[1]) < 16,
        hex_digit_value(digits[0]) == 15 <==> digits[0] == 'f',
        hex_digit_value(digits[1]) == 15 <==> digits[1] == 'f',
        hex_digit_value(digits[0]) == 0 <==> digits[0] == '0',
        hex_digit_value(digits[1]) == 0 <==> digits[1] == '0',
{
    let one = digits.drop_last();
    assert(one.drop_last() =~= Seq::empty());
    assert(hex_value(one.drop_last()) == 0);
    assert(one.last() == digits[0]);
    assert(hex_value(one) == hex_digit_value(digits[0]));
    assert('0' <= digits[0] <= '9' || 'a' <= digits[0] <= 'f');
    assert('0' <= digits[1] <= '9' || 'a' <= digits[1] <= 'f');
}

/// The place behind the last character that is not white space.
proof fn lemma_visible_end(value: Seq<char>) -> (end: int)
    requires
        value.len() > 0,
        !white_space(value[0]),
    ensures
        0 < end <= value.len(),
        !white_space(value[end - 1]),
        forall|i: int| end <= i < value.len() ==> white_space(#[trigger] value[i]),
    decreases value.len(),
{
    if white_space(value[value.len() - 1]) {
        let shorter = value.drop_last();
        let end = lemma_visible_end(shorter);
        assert forall|i: int| end <= i < value.len() implies white_space(#[trigger] value[i]) by {
            if i < shorter.len() {
                assert(shorter[i] == value[i]);
            }
        }
        end
    } else {
        value.len() as int
    }
}

/// Which well-formed `traceparent` headers name a remote span: those of any
/// version but ff whose ids are not all zeros.  One of version 00 has nothing
/// behind its four fields, but for a hyphen and white space.  The span is sampled
/// if the last flag digit is odd.
pub proof fn law_remote_span_of_traceparent(value: Seq<char>)
    requires
        well_formed_traceparent(value),
    ensures
        names_remote_span(value) <==> {
            &&& !(value[0] == 'f' && value[1] == 'f')
            &&& exists|i: int| 3 <= i < 35 && #[trigger] value[i] != '0'
            &&& exists|i: int| 36 <= i < 52 && #[trigger] value[i] != '0'
            &&& value[0] == '0' && value[1] == '0' ==> forall|i: int|
                56 <= i < value.len() ==> white_space(#[trigger] value[i])
        },
        hex_value(hyphen_fields(value)[3]) % 2 == 1 <==> {
            let c = value[54];
            ||| c == '1' || c == '3' || c == '5' || c == '7' || c == '9'
            ||| c == 'b' || c == 'd' || c == 'f'
        },
{
    law_layout_of_traceparent(value);
    let fields = hyphen_fields(value);
    assert(forall|i: int| 0 <= i < 2 ==> #[trigger] fields[0][i] == value[i]);
    assert(forall|i: int| 0 <= i < 32 ==> #[trigger] fields[1][i] == value[3 + i]);
    assert(forall|i: int| 0 <= i < 16 ==> #[trigger] fields[2][i] == value[36 + i]);
    assert(forall|i: int| 0 <= i < 2 ==> #[trigger] fields[3][i] == value[53 + i]);
    lemma_two_digits(fields[0]);
    lemma_two_digits(fields[3]);
    lemma_hex_zero(fields[1]);
    lemma_hex_zero(fields[2]);
    if exists|i: int| 3 <= i < 35 && #[trigger] value[i] != '0' {
        let i = choose|i: int| 3 <= i < 35 && #[trigger] value[i] != '0';
        assert(fields[1][i - 3] != '0');
    }
    if exists|i: int| 36 <= i < 52 && #[trigger] value[i] != '0' {
        let i = choose|i: int| 36 <= i < 52 && #[trigger] value[i] != '0';
        assert(fields[2][i - 36] != '0');
    }
    if hex_value(fields[1]) != 0 {
        let i = choose|i: int| 0 <= i < fields[1].len() && #[trigger] fields[1][i] != '0';
        assert(value[3 + i] != '0');
    }
    if hex_value(fields[2]) != 0 {
        let i = choose|i: int| 0 <= i < fields[2].len() && #[trigger] fields[2][i] != '0';
        assert(value[36 + i] != '0');
    }
    let c = value[54];
    assert('0' <= c <= '9' || 'a' <= c <= 'f');
    assert(hex_value(fields[3]) % 2 == hex_digit_value(c) % 2);
    lemma_nothing_follows(value);
}

/// Whether nothing counts behind the four fields of a well-formed value.
proof fn lemma_nothing_follows(value: Seq<char>)
    requires
        well_formed_traceparent(value),
    ensures
        exactly_four_fields(value) <==> forall|i: int|
            56 <= i < value.len() ==> white_space(#[trigger] value[i]),
{
    law_layout_of_traceparent(value);
    assert('0' <= value[0] <= '9' || 'a' <= value[0] <= 'f');
    assert('0' <= value[54] <= '9' || 'a' <= value[54] <= 'f');
    let end = lemma_visible_end(value);
    if end < 55 {
        assert(white_space(value[54]));
    }
    let text = value.take(end);
    let after = value.skip(end);
    assert(value =~= Seq::<char>::empty() + text + after);
    assert forall|i: int| 0 <= i < after.len() implies white_space(#[trigger] after[i]) by {
        assert(after[i] == value[end + i]);
    }
    assert(text[0] == value[0] && text[text.len() - 1] == value[end - 1]);
    law_padding_is_trimmed(Seq::empty(), text, after);
    assert(trimmed(value) == text);
    assert forall|i: int| 0 <= i < 55 implies #[trigger] text[i] == value[i] by {}
    assert(hex_from(text, 0, 2) && hex_from(text, 3, 35) && hex_from(text, 36, 52) && hex_from(
        text,
        53,
        55,
    ));
    if end > 55 {
        assert(text[55] == value[55]);
    }
    lemma_fields_of_layout(text);
    if end > 55 {
        let more = text.skip(56);
        if end == 56 {
            assert(more =~= Seq::empty());
            assert(hyphen_fields(text).len() == 5);
        } else {
            assert(more.last() == value[end - 1]);
            assert(!white_space(value[end - 1]));
            lemma_only_field(more, '-');
            if hyphen_fields(more).len() == 1 {
                assert(hyphen_fields(text)[4] == more);
            }
        }
    }
}

/// A rename goes through its steps in order: it finds the dispatcher, then the
/// layer in it, then the span's context, and only then applies the name.  The
/// dispatcher is the layer's own if it is alive, and else the current default.
pub proof fn law_steps_of_a_rename(own_is_alive: bool, has_layer: bool, has_context: bool)
    ensures
        ({
            let via = if own_is_alive {
                RenameVia::Own
            } else {
                RenameVia::CurrentDefault
            };
            &&& first_rename_step(true, true) == RenameStep::FindOwnDispatcher
            &&& next_rename_step(RenameStep::FindOwnDispatcher, own_is_alive)
                == RenameStep::FindLayer(via)
            &&& next_rename_step(RenameStep::FindLayer(via), true) == RenameStep::FindContext(via)
            &&& next_rename_step(RenameStep::FindLayer(via), false) == RenameStep::Finished
            &&& next_rename_step(RenameStep::FindContext(via), true) == RenameStep::UpdateName(via)
            &&& next_rename_step(RenameStep::FindContext(via), false) == RenameStep::Finished
            &&& next_rename_step(RenameStep::UpdateName(via), has_context) == RenameStep::Finished
            &&& next_rename_step(RenameStep::Finished, has_layer) == RenameStep::Finished
            &&& first_rename_step(false, true) == RenameStep::Finished
            &&& first_rename_step(true, false) == RenameStep::Finished
            &&& first_rename_step(false, false) == RenameStep::Finished
        }),
{
}

} // verus!
