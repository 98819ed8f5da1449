//! OpenTelemetry tracing of requests and responses.

use crate::attribute::{integer_attribute, text_attribute, to_key_values, Attribute};
#[allow(unused_imports)]
use crate::attribute::{
    attribute_views, integer_key_value, key_values_of, text_key_value, ValueView,
};
use crate::instrument::{RequestInfo, ResponseInfo};
use opentelemetry::global::BoxedSpan;
use opentelemetry::trace::Span;
use opentelemetry::KeyValue;
use vstd::prelude::*;

verus! {

/// The name of the spans that are started for requests.
pub const REQUEST_SPAN_NAME: &'static str = "dropshot1";

/// The status of a span.
pub enum StatusView {
    /// No status was given.
    Unset,
    /// The operation succeeded.
    Success,
    /// The operation failed, as described.
    Failure(Seq<char>),
}

/// A span of the global tracer.
#[verifier::external_type_specification]
#[verifier::external_body]
pub struct ExBoxedSpan(BoxedSpan);

/// The attributes that a span has been handed, in order.  What the span keeps
/// of them is left to its implementation: one that is not recording keeps none.
pub uninterp spec fn handed_attributes(span: BoxedSpan) -> Seq<KeyValue>;

/// The messages of the errors that a span has been handed, in order.  What the
/// span keeps of them is left to its implementation.
pub uninterp spec fn handed_errors(span: BoxedSpan) -> Seq<Seq<char>>;

/// The status that a span was last given.
pub uninterp spec fn given_status(span: BoxedSpan) -> StatusView;

/// The name that a span was last given.
pub uninterp spec fn given_name(span: BoxedSpan) -> Seq<char>;

/// `Span::set_attributes`: the span is handed the attributes, in order, after
/// those that it was handed before, and no error.  It is given neither a status
/// nor a name.
#[verifier::external_body]
fn set_attributes(span: &mut BoxedSpan, attributes: Vec<KeyValue>)
    ensures
        handed_attributes(*final(span)) == handed_attributes(*old(span)) + attributes@,
        handed_errors(*final(span)) == handed_errors(*old(span)),
        given_status(*final(span)) == given_status(*old(span)),
        given_name(*final(span)) == given_name(*old(span)),
{
    span.set_attributes(attributes)
}

/// `Span::record_error` with an error that displays as the message: the span is
/// handed the message after those that it was handed before, and none of the
/// attributes that describe the span itself.  It is given neither a status nor a
/// name.
#[verifier::external_body]
fn record_error(span: &mut BoxedSpan, message: &str)
    ensures
        handed_errors(*final(span)) == handed_errors(*old(span)).push(message@),
        handed_attributes(*final(span)) == handed_attributes(*old(span)),
        given_status(*final(span)) == given_status(*old(span)),
        given_name(*final(span)) == given_name(*old(span)),
{
    let error: Box<dyn std::error::Error + Send + Sync> = message.into();
    span.record_error(error.as_ref())
}

/// `HTTP_RESPONSE_STATUS_CODE` of the semantic conventions for traces.
#[verifier::external_body]
fn status_code_key() -> (r: &'static str)
    ensures
        r@ == "http.response.status_code"@,
{
    opentelemetry_semantic_conventions::trace::HTTP_RESPONSE_STATUS_CODE
}

/// The attributes that a span is given for a request.
pub open spec fn request_span_views(id: Seq<char>, method: Seq<char>, path: Seq<char>) -> Seq<
    (Seq<char>, ValueView),
> {
    seq![
        ("http.id"@, ValueView::Text(id)),
        ("http.method"@, ValueView::Text(method)),
        ("http.path"@, ValueView::Text(path)),
    ]
}

/// The attributes that a span is given for a response.
pub open spec fn response_span_views(status_code: u16, message: Seq<char>) -> Seq<
    (Seq<char>, ValueView),
> {
    seq![
        ("http.response.status_code"@, ValueView::Integer(status_code as i64)),
        ("http.message"@, ValueView::Text(message)),
    ]
}

/// Returns the attributes that a span is given for a request.
pub fn request_span_attributes(request: &RequestInfo) -> (r: Vec<Attribute>)
    ensures
        attribute_views(r@) == request_span_views(request.id@, request.method@, request.path@),
{
    let mut r: Vec<Attribute> = Vec::new();
    r.push(text_attribute("http.id", request.id.as_str()));
    r.push(text_attribute("http.method", request.method.as_str()));
    r.push(text_attribute("http.path", request.path.as_str()));
    assert(attribute_views(r@) =~= request_span_views(request.id@, request.method@, request.path@));
    r
}

/// Returns the attributes that a span is given for a response.
pub fn response_span_attributes(response: &ResponseInfo) -> (r: Vec<Attribute>)
    ensures
        attribute_views(r@) == response_span_views(response.status_code, response.message@),
{
    let mut r: Vec<Attribute> = Vec::new();
    r.push(integer_attribute(status_code_key(), response.status_code as i64));
    r.push(text_attribute("http.message", response.message.as_str()));
    assert(attribute_views(r@) =~= response_span_views(response.status_code, response.message@));
    r
}

/// A span, by what it has been handed and given.
pub trait TracedSpan {
    /// The attributes that the span has been handed, in order.
    spec fn attributes(&self) -> Seq<KeyValue>;

    /// The messages of the errors that the span has been handed, in order.
    spec fn errors(&self) -> Seq<Seq<char>>;

    /// The status that the span was last given.
    spec fn status(&self) -> StatusView;

    /// The name that the span was last given.
    spec fn name(&self) -> Seq<char>;
}

/// A span that requests are traced with.
pub trait TraceRequest: TracedSpan {
    /// Describes a request to the span, whose status and name stay as they are.
    fn trace_request(&mut self, request: RequestInfo)
        ensures
            final(self).attributes() == old(self).attributes() + key_values_of(
                request_span_views(request.id@, request.method@, request.path@),
            ),
            final(self).attributes() == old(self).attributes() + seq![
                text_key_value("http.id"@, request.id@),
                text_key_value("http.method"@, request.method@),
                text_key_value("http.path"@, request.path@),
            ],
            final(self).errors() == old(self).errors(),
            final(self).status() == old(self).status(),
            final(self).name() == old(self).name(),
    ;

    /// Records an error, given by its message, on the span, whose status and
    /// name stay as they are.
    fn trace_error(&mut self, error: &str)
        ensures
            final(self).attributes() == old(self).attributes(),
            final(self).errors() == old(self).errors().push(error@),
            final(self).status() == old(self).status(),
            final(self).name() == old(self).name(),
    ;
}

/// A span that responses are traced with.
pub trait TraceResponse: TracedSpan {
    /// Describes a response to the span, whose status and name stay as they are,
    /// whatever the code.
    fn trace_response(&mut self, response: ResponseInfo)
        ensures
            final(self).attributes() == old(self).attributes() + key_values_of(
                response_span_views(response.status_code, response.message@),
            ),
            final(self).attributes() == old(self).attributes() + seq![
                integer_key_value("http.response.status_code"@, response.status_code as i64),
                text_key_value("http.message"@, response.message@),
            ],
            final(self).errors() == old(self).errors(),
            final(self).status() == old(self).status(),
            final(self).name() == old(self).name(),
    ;
}

impl TracedSpan for BoxedSpan {
    open spec fn attributes(&self) -> Seq<KeyValue> {
        handed_attributes(*self)
    }

    open spec fn errors(&self) -> Seq<Seq<char>> {
        handed_errors(*self)
    }

    open spec fn status(&self) -> StatusView {
        given_status(*self)
    }

    open spec fn name(&self) -> Seq<char> {
        given_name(*self)
    }
}

impl TraceRequest for BoxedSpan {
    fn trace_request(&mut self, request: RequestInfo) {
        let attributes = request_span_attributes(&request);
        assert(key_values_of(attribute_views(attributes@)) =~= seq![
            text_key_value("http.id"@, request.id@),
            text_key_value("http.method"@, request.method@),
            text_key_value("http.path"@, request.path@),
        ]);
        set_attributes(self, to_key_values(attributes));
    }

    fn trace_error(&mut self, error: &str) {
        record_error(self, error);
    }
}

impl TraceResponse for BoxedSpan {
    fn trace_response(&mut self, response: ResponseInfo) {
        let attributes = response_span_attributes(&response);
        assert(key_values_of(attribute_views(attributes@)) =~= seq![
            integer_key_value("http.response.status_code"@, response.status_code as i64),
            text_key_value("http.message"@, response.message@),
        ]);
        set_attributes(self, to_key_values(attributes));
    }
}

/// A request is described by its id, its method and its path, and a response by
/// its status code, as a number, and its message.  Nothing else is said of them.
pub proof fn law_spans_are_described_by_what_happened(
    id: Seq<char>,
    method: Seq<char>,
    path: Seq<char>,
    status_code: u16,
    message: Seq<char>,
)
    ensures
        ({
            let request = request_span_views(id, method, path);
            &&& request.len() == 3
            &&& request.contains(("http.id"@, ValueView::Text(id)))
            &&& request.contains(("http.method"@, ValueView::Text(method)))
            &&& request.contains(("http.path"@, ValueView::Text(path)))
        }),
        ({
            let response = response_span_views(status_code, message);
            &&& response.len() == 2
            &&& response.contains(
                ("http.response.status_code"@, ValueView::Integer(status_code as i64)),
            )
            &&& response.contains(("http.message"@, ValueView::Text(message)))
        }),
{
    let request = request_span_views(id, method, path);
    assert(request[0] == ("http.id"@, ValueView::Text(id)));
    assert(request[1] == ("http.method"@, ValueView::Text(method)));
    assert(request[2] == ("http.path"@, ValueView::Text(path)));
    let response = response_span_views(status_code, message);
    assert(response[0] == (
        "http.response.status_code"@,
        ValueView::Integer(status_code as i64),
    ));
    assert(response[1] == ("http.message"@, ValueView::Text(message)));
}

} // verus!
