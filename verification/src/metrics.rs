//! Per-request metrics derived from request spans.
//!
//! A request span's fields are gathered in a [`CompletedRequest`] while the
//! span is open: how the request was handled (endpoint, status code, error
//! type), plus any application-specific labels.  As the span closes, the
//! request's duration is added and the whole is reported.  Because it works
//! from the request span, it covers every request, including those that never
//! reach a handler and those whose client disconnected.

use crate::attribute::{push_integer, push_optional, push_text, to_key_values, Attribute};
#[allow(unused_imports)]
use crate::attribute::{attribute_views, key_values_of, optional_attribute, ValueView};
use crate::request_span::{SPAN_NAME, SPAN_TARGET};
use crate::text::same_text;
#[allow(unused_imports)]
use crate::text::{lemma_text_before_strict, optional_text, text_before};
use crate::text_map::TextMap;
#[allow(unused_imports)]
use crate::text_map::{
    has_key, in_key_order, law_listing_depends_on_content, lemma_listed, place_of,
};
use opentelemetry::KeyValue;
use std::time::Duration;
use vstd::prelude::*;

verus! {

/// The name of the histogram of request durations.
pub const DURATION_METRIC: &'static str = "http.server.request.duration";

/// The unit of the histogram of request durations.
pub const DURATION_UNIT: &'static str = "s";

/// The description of the histogram of request durations.
pub const DURATION_DESCRIPTION: &'static str = "Duration of HTTP server requests.";

/// What was recorded about one request, reported as its span closes.
///
/// Fields other than `duration` and `labels` come from the request span's
/// fields of the same meaning.
#[derive(Debug)]
#[non_exhaustive]
pub struct CompletedRequest {
    /// `http.request.method`: the method, or `_OTHER` if unknown.
    pub method: String,
    /// `url.path`: the request path as sent.  This identifies individual
    /// resources, so it is a poor metric dimension; prefer `route`.
    pub url_path: String,
    /// `url.scheme`: `http` or `https`.
    pub url_scheme: String,
    /// `network.protocol.version`, e.g. `1.1` or `2`.
    pub protocol_version: Option<String>,
    /// `server.address`: the server's name as the client addressed it.
    pub server_address: Option<String>,
    /// `server.port`: the server's port as the client addressed it.
    pub server_port: Option<u16>,
    /// `http.route`: the matched endpoint's path template, if routing
    /// succeeded.
    pub route: Option<String>,
    /// `dropshot.operation_id`: the matched endpoint's operation id, if
    /// routing succeeded.
    pub operation_id: Option<String>,
    /// `http.response.status_code`, if a response was produced.
    pub status_code: Option<u16>,
    /// `error.type`: the status code for a 5xx response, or
    /// `client_disconnect` if the client went away first.
    pub error_type: Option<String>,
    /// Time from the request span's creation to its close.  Excludes sending
    /// the response body.
    pub duration: Duration,
    /// Labels attached to the request by the application.
    pub labels: TextMap<String>,
}

/// A request as plain data.
pub struct RequestView {
    pub method: Seq<char>,
    pub url_path: Seq<char>,
    pub url_scheme: Seq<char>,
    pub protocol_version: Option<Seq<char>>,
    pub server_address: Option<Seq<char>>,
    pub server_port: Option<u16>,
    pub route: Option<Seq<char>>,
    pub operation_id: Option<Seq<char>>,
    pub status_code: Option<u16>,
    pub error_type: Option<Seq<char>>,
    pub duration: Duration,
    pub labels: Map<Seq<char>, Seq<char>>,
}

impl View for CompletedRequest {
    type V = RequestView;

    open spec fn view(&self) -> RequestView {
        RequestView {
            method: self.method@,
            url_path: self.url_path@,
            url_scheme: self.url_scheme@,
            protocol_version: optional_text(self.protocol_version),
            server_address: optional_text(self.server_address),
            server_port: self.server_port,
            route: optional_text(self.route),
            operation_id: optional_text(self.operation_id),
            status_code: self.status_code,
            error_type: optional_text(self.error_type),
            duration: self.duration,
            labels: self.labels@.map_values(|value: String| value@),
        }
    }
}

impl Clone for CompletedRequest {
    /// Returns a request of which the same was recorded.
    fn clone(&self) -> (r: Self)
        ensures
            r@ == self@,
            r.labels.listed() == self.labels.listed(),
            r.method@ == self.method@ && r.url_path@ == self.url_path@,
            r.url_scheme@ == self.url_scheme@,
            optional_text(r.protocol_version) == optional_text(self.protocol_version),
            optional_text(r.server_address) == optional_text(self.server_address),
            optional_text(r.route) == optional_text(self.route),
            optional_text(r.operation_id) == optional_text(self.operation_id),
            optional_text(r.error_type) == optional_text(self.error_type),
            r.server_port == self.server_port && r.status_code == self.status_code,
            r.duration == self.duration,
    {
        let labels = self.labels.clone();
        assert(labels.listed() =~= self.labels.listed());
        CompletedRequest {
            method: self.method.clone(),
            url_path: self.url_path.clone(),
            url_scheme: self.url_scheme.clone(),
            protocol_version: self.protocol_version.clone(),
            server_address: self.server_address.clone(),
            server_port: self.server_port,
            route: self.route.clone(),
            operation_id: self.operation_id.clone(),
            status_code: self.status_code,
            error_type: self.error_type.clone(),
            duration: self.duration,
            labels,
        }
    }
}

/// The duration of this many nanoseconds.
pub uninterp spec fn duration_of_nanos(nanos: u64) -> Duration;

/// `Duration::from_nanos`: the duration depends on the number of nanoseconds
/// alone.
#[verifier::external_body]
fn duration_from_nanos(nanos: u64) -> (r: Duration)
    ensures
        r == duration_of_nanos(nanos),
{
    Duration::from_nanos(nanos)
}

/// A request of which nothing was recorded yet.
pub open spec fn blank_request() -> RequestView {
    RequestView {
        method: Seq::empty(),
        url_path: Seq::empty(),
        url_scheme: Seq::empty(),
        protocol_version: None,
        server_address: None,
        server_port: None,
        route: None,
        operation_id: None,
        status_code: None,
        error_type: None,
        duration: duration_of_nanos(0),
        labels: Map::empty(),
    }
}

impl Default for CompletedRequest {
    /// Returns a request of which nothing was recorded yet.
    fn default() -> (r: Self)
        ensures
            r@ == blank_request(),
            r.method@.len() == 0 && r.url_path@.len() == 0 && r.url_scheme@.len() == 0,
            r.protocol_version is None && r.server_address is None && r.server_port is None,
            r.route is None && r.operation_id is None && r.status_code is None,
            r.error_type is None,
            r.labels@ == Map::<Seq<char>, String>::empty(),
            r.duration == duration_of_nanos(0),
    {
        let r = CompletedRequest {
            method: String::new(),
            url_path: String::new(),
            url_scheme: String::new(),
            protocol_version: None,
            server_address: None,
            server_port: None,
            route: None,
            operation_id: None,
            status_code: None,
            error_type: None,
            duration: duration_from_nanos(0),
            labels: TextMap::new(),
        };
        assert(r@.labels =~= Map::empty());
        r
    }
}

/// A request after a span field with a text value was recorded: the field of
/// that meaning has the text as its value, and all others are unchanged.
pub open spec fn with_text(r: RequestView, field: Seq<char>, value: Seq<char>) -> RequestView {
    RequestView {
        method: if field == "http.request.method"@ {
            value
        } else {
            r.method
        },
        url_path: if field == "url.path"@ {
            value
        } else {
            r.url_path
        },
        url_scheme: if field == "url.scheme"@ {
            value
        } else {
            r.url_scheme
        },
        protocol_version: if field == "network.protocol.version"@ {
            Some(value)
        } else {
            r.protocol_version
        },
        server_address: if field == "server.address"@ {
            Some(value)
        } else {
            r.server_address
        },
        route: if field == "http.route"@ {
            Some(value)
        } else {
            r.route
        },
        operation_id: if field == "dropshot.operation_id"@ {
            Some(value)
        } else {
            r.operation_id
        },
        error_type: if field == "error.type"@ {
            Some(value)
        } else {
            r.error_type
        },
        ..r
    }
}

/// A number as a `u16`, if it is one.
pub open spec fn as_u16(value: i64) -> Option<u16> {
    if 0 <= value <= 65535 {
        Some(value as u16)
    } else {
        None
    }
}

/// A request after a span field with an integer value was recorded.
pub open spec fn with_integer(r: RequestView, field: Seq<char>, value: i64) -> RequestView {
    RequestView {
        server_port: if field == "server.port"@ {
            as_u16(value)
        } else {
            r.server_port
        },
        status_code: if field == "http.response.status_code"@ {
            as_u16(value)
        } else {
            r.status_code
        },
        ..r
    }
}

/// The names of the span fields that are taken in all differ.
pub proof fn lemma_text_fields_differ()
    ensures
        "http.request.method"@.len() == 19,
        "url.path"@.len() == 8,
        "url.scheme"@.len() == 10,
        "network.protocol.version"@.len() == 24,
        "server.address"@.len() == 14,
        "http.route"@.len() == 10,
        "dropshot.operation_id"@.len() == 21,
        "error.type"@.len() == 10,
        "url.scheme"@[0] == 'u',
        "http.route"@[0] == 'h',
        "error.type"@[0] == 'e',
        "server.port"@.len() == 11,
        "http.response.status_code"@.len() == 25,
{
    reveal_strlit("http.request.method");
    reveal_strlit("url.path");
    reveal_strlit("url.scheme");
    reveal_strlit("network.protocol.version");
    reveal_strlit("server.address");
    reveal_strlit("http.route");
    reveal_strlit("dropshot.operation_id");
    reveal_strlit("error.type");
    reveal_strlit("server.port");
    reveal_strlit("http.response.status_code");
}

/// Returns a number as a `u16`, if it is one.
fn to_u16(value: i64) -> (r: Option<u16>)
    ensures
        r == as_u16(value),
{
    if 0 <= value && value <= 65535 {
        Some(value as u16)
    } else {
        None
    }
}

impl CompletedRequest {
    /// Takes in a span field with a text value.
    pub fn record_str(&mut self, field: &str, value: &str)
        ensures
            final(self)@ == with_text(old(self)@, field@, value@),
            final(self).labels == old(self).labels,
            final(self).method@ == (if field@ == "http.request.method"@ {
                value@
            } else {
                old(self).method@
            }),
            final(self).url_path@ == (if field@ == "url.path"@ {
                value@
            } else {
                old(self).url_path@
            }),
            final(self).url_scheme@ == (if field@ == "url.scheme"@ {
                value@
            } else {
                old(self).url_scheme@
            }),
            optional_text(final(self).protocol_version) == (if field@ == "network.protocol.version"@ {
                Some(value@)
            } else {
                optional_text(old(self).protocol_version)
            }),
            optional_text(final(self).server_address) == (if field@ == "server.address"@ {
                Some(value@)
            } else {
                optional_text(old(self).server_address)
            }),
            optional_text(final(self).route) == (if field@ == "http.route"@ {
                Some(value@)
            } else {
                optional_text(old(self).route)
            }),
            optional_text(final(self).operation_id) == (if field@ == "dropshot.operation_id"@ {
                Some(value@)
            } else {
                optional_text(old(self).operation_id)
            }),
            optional_text(final(self).error_type) == (if field@ == "error.type"@ {
                Some(value@)
            } else {
                optional_text(old(self).error_type)
            }),
            final(self).server_port == old(self).server_port,
            final(self).status_code == old(self).status_code,
            final(self).duration == old(self).duration,
    {
        proof {
            lemma_text_fields_differ();
        }
        let value = value.to_owned();
        if same_text(field, "http.request.method") {
            self.method = value;
        } else if same_text(field, "url.path") {
            self.url_path = value;
        } else if same_text(field, "url.scheme") {
            self.url_scheme = value;
        } else if same_text(field, "network.protocol.version") {
            self.protocol_version = Some(value);
        } else if same_text(field, "server.address") {
            self.server_address = Some(value);
        } else if same_text(field, "http.route") {
            self.route = Some(value);
        } else if same_text(field, "dropshot.operation_id") {
            self.operation_id = Some(value);
        } else if same_text(field, "error.type") {
            self.error_type = Some(value);
        }
    }

    /// Takes in a span field with an integer value.
    pub fn record_i64(&mut self, field: &str, value: i64)
        ensures
            final(self)@ == with_integer(old(self)@, field@, value),
            *final(self) == (CompletedRequest {
                server_port: final(self).server_port,
                status_code: final(self).status_code,
                ..*old(self)
            }),
            field@ != "server.port"@ ==> final(self).server_port == old(self).server_port,
            field@ != "http.response.status_code"@ ==> final(self).status_code == old(
                self,
            ).status_code,
            field@ == "server.port"@ ==> match final(self).server_port {
                Some(port) => port as int == value as int,
                None => value < 0 || value > 65535,
            },
            field@ == "http.response.status_code"@ ==> match final(self).status_code {
                Some(code) => code as int == value as int,
                None => value < 0 || value > 65535,
            },
    {
        proof {
            lemma_text_fields_differ();
        }
        if same_text(field, "server.port") {
            self.server_port = to_u16(value);
        } else if same_text(field, "http.response.status_code") {
            self.status_code = to_u16(value);
        }
    }

    /// Takes in a span field with a value of any other type: none of the
    /// fields reported is recorded as such.
    pub fn record_debug(&mut self, _field: &str, _value: &str)
        ensures
            *final(self) == *old(self),
    {
    }
}

/// A request after span fields were recorded, in order.
pub open spec fn recorded(r: RequestView, fields: Seq<(Seq<char>, ValueView)>) -> RequestView
    decreases fields.len(),
{
    if fields.len() == 0 {
        r
    } else {
        let earlier = recorded(r, fields.drop_last());
        match fields.last().1 {
            ValueView::Text(text) => with_text(earlier, fields.last().0, text),
            ValueView::Integer(number) => with_integer(earlier, fields.last().0, number),
        }
    }
}

/// A request after a label was attached: a later label with the same key
/// replaces an earlier one.
pub open spec fn with_label(r: RequestView, key: Seq<char>, value: Seq<char>) -> RequestView {
    RequestView { labels: r.labels.insert(key, value), ..r }
}

/// Whether a span with this target and name is a request span.
pub open spec fn request_span(target: Seq<char>, name: Seq<char>) -> bool {
    target == SPAN_TARGET@ && name == SPAN_NAME@
}

/// Returns whether a span with this target and name is a request span.
pub fn is_request_span(target: &str, name: &str) -> (r: bool)
    ensures
        r == request_span(target@, name@),
        r <==> target@ == "dropshot::instrument"@ && name@ == "dropshot_request"@,
{
    same_text(target, SPAN_TARGET) && same_text(name, SPAN_NAME)
}

/// Where a span comes from.
#[derive(Debug)]
pub struct SpanMetadata {
    /// The part of the program that created the span.
    pub target: String,
    /// The span's name.
    pub name: String,
}

/// Returns the place in `scope` (the current span and those that enclose it,
/// from the inside out) of the span that a label attaches to: the nearest
/// enclosing request span, the current one included, or `None` outside of any
/// request.
pub fn nearest_request_span(scope: &Vec<SpanMetadata>) -> (r: Option<usize>)
    ensures
        match r {
            Some(i) => {
                &&& i < scope@.len()
                &&& request_span(scope@[i as int].target@, scope@[i as int].name@)
                &&& forall|j: int|
                    0 <= j < i ==> !request_span((#[trigger] scope@[j]).target@, scope@[j].name@)
            },
            None => forall|j: int|
                0 <= j < scope@.len() ==> !request_span(
                    (#[trigger] scope@[j]).target@,
                    scope@[j].name@,
                ),
        },
{
    let mut i: usize = 0;
    while i < scope.len()
        invariant
            i <= scope@.len(),
            forall|j: int|
                0 <= j < i ==> !request_span((#[trigger] scope@[j]).target@, scope@[j].name@),
        decreases scope.len() - i,
    {
        if is_request_span(scope[i].target.as_str(), scope[i].name.as_str()) {
            return Some(i);
        }
        i += 1;
    }
    None
}

/// What is kept of a request while its span is open.  `I` is the type of a
/// point in time.
#[derive(Debug)]
pub struct RequestState<I> {
    /// When the span was created.
    pub start: I,
    /// What was recorded so far.
    pub request: CompletedRequest,
}

impl<I> RequestState<I> {
    /// Returns what to keep of a new span, with the time of its creation:
    /// a request of which nothing was recorded yet for a request span, and
    /// nothing for any other.
    pub fn on_new_span(target: &str, name: &str, start: I) -> (r: Option<Self>)
        ensures
            match r {
                Some(state) => {
                    &&& request_span(target@, name@)
                    &&& state.start == start
                    &&& state.request@ == blank_request()
                },
                None => !request_span(target@, name@),
            },
            r is Some <==> target@ == "dropshot::instrument"@ && name@ == "dropshot_request"@,
            r matches Some(state) ==> {
                &&& state.start == start
                &&& state.request.method@.len() == 0
                &&& state.request.url_path@.len() == 0
                &&& state.request.url_scheme@.len() == 0
                &&& state.request.protocol_version is None
                &&& state.request.server_address is None
                &&& state.request.server_port is None
                &&& state.request.route is None
                &&& state.request.operation_id is None
                &&& state.request.status_code is None
                &&& state.request.error_type is None
                &&& state.request.labels@ == Map::<Seq<char>, String>::empty()
            },
    {
        if is_request_span(target, name) {
            Some(RequestState { start, request: CompletedRequest::default() })
        } else {
            None
        }
    }

    /// Attaches a label to the request.
    pub fn label(&mut self, key: &str, value: &str)
        ensures
            final(self).start == old(self).start,
            final(self).request@ == with_label(old(self).request@, key@, value@),
            final(self).request == (CompletedRequest {
                labels: final(self).request.labels,
                ..old(self).request
            }),
            final(self).request.labels@.dom() == old(self).request.labels@.dom().insert(key@),
            final(self).request.labels@[key@]@ == value@,
            forall|other: Seq<char>|
                other != key@ && #[trigger] old(self).request.labels@.contains_key(other)
                    ==> final(self).request.labels@[other] == old(self).request.labels@[other],
    {
        self.request.labels.insert(key.to_owned(), value.to_owned());
        assert(self.request@.labels =~= old(self).request@.labels.insert(key@, value@));
    }

    /// Returns the completed request, given how long its span was open.
    pub fn on_close(self, elapsed: Duration) -> (r: CompletedRequest)
        ensures
            r == (CompletedRequest { duration: elapsed, ..self.request }),
    {
        let mut request = self.request;
        request.duration = elapsed;
        request
    }
}

/// Whether a key is one of the semantic conventions' standard attributes of a
/// request's duration.
pub open spec fn standard_key(key: Seq<char>) -> bool {
    ||| key == "http.request.method"@
    ||| key == "url.scheme"@
    ||| key == "error.type"@
    ||| key == "http.response.status_code"@
    ||| key == "http.route"@
    ||| key == "network.protocol.version"@
}

/// The standard attributes of a request.
pub open spec fn standard_attributes(r: RequestView) -> Seq<(Seq<char>, ValueView)> {
    seq![
        ("http.request.method"@, ValueView::Text(r.method)),
        ("url.scheme"@, ValueView::Text(r.url_scheme)),
    ] + optional_attribute("error.type"@, r.error_type) + (match r.status_code {
        Some(code) => seq![("http.response.status_code"@, ValueView::Integer(code as i64))],
        None => Seq::empty(),
    }) + optional_attribute("http.route"@, r.route) + optional_attribute(
        "network.protocol.version"@,
        r.protocol_version,
    )
}

/// The attributes that labels become: all but those whose key is one of the
/// standard attributes.
pub open spec fn label_attributes(labels: Seq<(Seq<char>, String)>) -> Seq<(Seq<char>, ValueView)>
    decreases labels.len(),
{
    if labels.len() == 0 {
        Seq::empty()
    } else {
        let earlier = label_attributes(labels.drop_last());
        if standard_key(labels.last().0) {
            earlier
        } else {
            earlier.push((labels.last().0, ValueView::Text(labels.last().1@)))
        }
    }
}

/// The attributes of a request: the standard ones, then its labels in the
/// order of their keys.
pub open spec fn duration_attributes(request: CompletedRequest) -> Seq<(Seq<char>, ValueView)> {
    standard_attributes(request@) + label_attributes(request.labels.listed())
}

/// Returns whether a key is one of the standard attributes.
fn is_standard_key(key: &str) -> (r: bool)
    ensures
        r == standard_key(key@),
{
    same_text(key, "http.request.method") || same_text(key, "url.scheme") || same_text(
        key,
        "error.type",
    ) || same_text(key, "http.response.status_code") || same_text(key, "http.route") || same_text(
        key,
        "network.protocol.version",
    )
}

/// Returns the attributes of a request in the histogram of request durations.
///
/// They are the semantic conventions' standard ones, except the opt-in
/// `server.address` and `server.port` (which come from request headers, so a
/// client could use them to create unbounded numbers of series), plus the
/// request's labels.  A label whose key is one of the standard attributes is
/// ignored.
pub fn request_attributes(request: &CompletedRequest) -> (r: Vec<Attribute>)
    ensures
        attribute_views(r@) == duration_attributes(*request),
{
    let mut attributes: Vec<Attribute> = Vec::new();
    push_text(&mut attributes, "http.request.method", request.method.as_str());
    push_text(&mut attributes, "url.scheme", request.url_scheme.as_str());
    assert(attribute_views(attributes@) =~= seq![
        ("http.request.method"@, ValueView::Text(request@.method)),
        ("url.scheme"@, ValueView::Text(request@.url_scheme)),
    ]);
    push_optional(&mut attributes, "error.type", &request.error_type);
    let ghost before_code = attribute_views(attributes@);
    match request.status_code {
        Some(code) => {
            push_integer(&mut attributes, "http.response.status_code", code as i64);
        },
        None => {
            assert(before_code =~= before_code + Seq::<(Seq<char>, ValueView)>::empty());
        },
    }
    push_optional(&mut attributes, "http.route", &request.route);
    push_optional(&mut attributes, "network.protocol.version", &request.protocol_version);
    let ghost standard = attribute_views(attributes@);
    assert(standard == standard_attributes(request@));
    let labels = &request.labels;
    let mut i: usize = 0;
    assert(label_attributes(labels.listed().take(0)) =~= Seq::empty());
    assert(standard =~= standard + label_attributes(labels.listed().take(0)));
    while i < labels.len()
        invariant
            i <= labels.listed().len(),
            attribute_views(attributes@) == standard + label_attributes(
                labels.listed().take(i as int),
            ),
        decreases labels.listed().len() - i,
    {
        let ghost done = labels.listed().take(i as int);
        let ghost next = labels.listed().take(i + 1);
        assert(next.drop_last() == done);
        let key = labels.key_at(i);
        if !is_standard_key(key) {
            push_text(&mut attributes, key, labels.value_at(i).as_str());
            assert(attribute_views(attributes@) =~= standard + label_attributes(next));
        }
        i += 1;
    }
    assert(labels.listed().take(labels.listed().len() as int) == labels.listed());
    attributes
}

/// Returns the OpenTelemetry attributes to record a request's duration with.
pub fn request_key_values(request: &CompletedRequest) -> (r: Vec<KeyValue>)
    ensures
        r@ == key_values_of(duration_attributes(*request)),
{
    to_key_values(request_attributes(request))
}

/// The standard attributes have standard keys, each of them once, and in the
/// first place.
proof fn lemma_standard_keys(r: RequestView)
    ensures
        forall|i: int|
            0 <= i < standard_attributes(r).len() ==> standard_key(
                #[trigger] standard_attributes(r)[i].0,
            ),
        forall|i: int, j: int|
            0 <= i < j < standard_attributes(r).len() ==> #[trigger] standard_attributes(r)[i].0
                != #[trigger] standard_attributes(r)[j].0,
{
    lemma_text_fields_differ();
}

/// Each attribute that a label becomes has the key and value of a label, whose
/// key is not standard.
proof fn lemma_label_attribute(labels: Seq<(Seq<char>, String)>, j: int) -> (i: int)
    requires
        0 <= j < label_attributes(labels).len(),
    ensures
        0 <= i < labels.len(),
        !standard_key(labels[i].0),
        label_attributes(labels)[j] == (labels[i].0, ValueView::Text(labels[i].1@)),
    decreases labels.len(),
{
    let earlier = label_attributes(labels.drop_last());
    if j < earlier.len() {
        lemma_label_attribute(labels.drop_last(), j)
    } else {
        labels.len() - 1
    }
}

/// Each label whose key is not standard becomes an attribute.
proof fn lemma_label_kept(labels: Seq<(Seq<char>, String)>, i: int) -> (j: int)
    requires
        0 <= i < labels.len(),
        !standard_key(labels[i].0),
    ensures
        0 <= j < label_attributes(labels).len(),
        label_attributes(labels)[j] == (labels[i].0, ValueView::Text(labels[i].1@)),
    decreases labels.len(),
{
    let earlier = label_attributes(labels.drop_last());
    if i < labels.len() - 1 {
        let j = lemma_label_kept(labels.drop_last(), i);
        assert(label_attributes(labels)[j] == earlier[j]);
        j
    } else {
        earlier.len() as int
    }
}

/// Labels that are in the order of their keys become attributes with different
/// keys.
proof fn lemma_label_keys_differ(labels: Seq<(Seq<char>, String)>)
    requires
        in_key_order(labels),
    ensures
        forall|a: int, b: int|
            0 <= a < b < label_attributes(labels).len() ==> #[trigger] label_attributes(labels)[a].0
                != #[trigger] label_attributes(labels)[b].0,
    decreases labels.len(),
{
    if labels.len() > 0 {
        let earlier_labels = labels.drop_last();
        let earlier = label_attributes(earlier_labels);
        assert forall|a: int, b: int| 0 <= a < b < label_attributes(labels).len() implies
            #[trigger] label_attributes(labels)[a].0 != #[trigger] label_attributes(
            labels,
        )[b].0 by {
            assert(in_key_order(earlier_labels)) by {
                assert forall|x: int, y: int| 0 <= x < y < earlier_labels.len() implies
                    text_before(
                    #[trigger] earlier_labels[x].0,
                    #[trigger] earlier_labels[y].0,
                ) by {
                    assert(text_before(labels[x].0, labels[y].0));
                }
            }
            lemma_label_keys_differ(earlier_labels);
            if b == earlier.len() {
                let i = lemma_label_attribute(earlier_labels, a);
                assert(text_before(labels[i].0, labels[labels.len() - 1].0));
                lemma_text_before_strict(labels[i].0, labels.last().0);
            } else {
                assert(earlier[a].0 != earlier[b].0);
            }
        }
    }
}

/// Labels cannot override the standard attributes: whatever labels a request
/// has, its attributes begin with the standard ones, and no attribute after
/// those has a standard key.
pub proof fn law_labels_never_override_standard_attributes(request: CompletedRequest)
    ensures
        standard_attributes(request@).len() <= duration_attributes(request).len(),
        duration_attributes(request).take(standard_attributes(request@).len() as int)
            == standard_attributes(request@),
        forall|i: int|
            standard_attributes(request@).len() <= i < duration_attributes(request).len()
                ==> !standard_key(#[trigger] duration_attributes(request)[i].0),
{
    let standard = standard_attributes(request@);
    let all = duration_attributes(request);
    assert(all.take(standard.len() as int) =~= standard);
    assert forall|i: int| standard.len() <= i < all.len() implies !standard_key(
        #[trigger] all[i].0,
    ) by {
        let j = lemma_label_attribute(request.labels.listed(), i - standard.len());
    }
}

/// No two attributes of a request have the same key.
pub proof fn law_attribute_keys_differ(request: CompletedRequest)
    requires
        request.labels.wf(),
    ensures
        forall|i: int, j: int|
            0 <= i < j < duration_attributes(request).len() ==> #[trigger] duration_attributes(
                request,
            )[i].0 != #[trigger] duration_attributes(request)[j].0,
{
    let standard = standard_attributes(request@);
    let all = duration_attributes(request);
    lemma_standard_keys(request@);
    lemma_listed(request.labels);
    lemma_label_keys_differ(request.labels.listed());
    law_labels_never_override_standard_attributes(request);
    assert forall|i: int, j: int| 0 <= i < j < all.len() implies #[trigger] all[i].0
        != #[trigger] all[j].0 by {
        if j < standard.len() {
            assert(all[i] == standard[i] && all[j] == standard[j]);
        } else if i < standard.len() {
            assert(all[i] == standard[i]);
            assert(standard_key(standard[i].0));
        } else {
            let labels = label_attributes(request.labels.listed());
            assert(all[i] == labels[i - standard.len()]);
            assert(all[j] == labels[j - standard.len()]);
        }
    }
}

/// Every label whose key is not a standard attribute is reported, and no other
/// attribute follows the standard ones.
pub proof fn law_labels_are_reported(request: CompletedRequest, key: Seq<char>, value: Seq<char>)
    requires
        request.labels.wf(),
        !standard_key(key),
    ensures
        duration_attributes(request).contains((key, ValueView::Text(value))) <==> (
        request@.labels.contains_key(key) && request@.labels[key] == value),
{
    let listed = request.labels.listed();
    let standard = standard_attributes(request@);
    let labels = label_attributes(listed);
    let all = duration_attributes(request);
    lemma_standard_keys(request@);
    lemma_listed(request.labels);
    if all.contains((key, ValueView::Text(value))) {
        let i = choose|i: int| 0 <= i < all.len() && all[i] == (key, ValueView::Text(value));
        if i < standard.len() {
            assert(all[i] == standard[i]);
            assert(standard_key(standard[i].0));
        }
        let j = lemma_label_attribute(listed, i - standard.len());
        assert(request.labels@.contains_key(listed[j].0));
    }
    if request@.labels.contains_key(key) && request@.labels[key] == value {
        assert(request.labels@.contains_key(key));
        let p = place_of(listed, key);
        assert(has_key(listed, key));
        let j = lemma_label_kept(listed, p);
        assert(all[standard.len() + j] == (key, ValueView::Text(value)));
    }
}

/// Lists of labels with the same keys and values become the same attributes.
proof fn lemma_same_label_attributes(a: Seq<(Seq<char>, String)>, b: Seq<(Seq<char>, String)>)
    requires
        a.len() == b.len(),
        forall|i: int|
            0 <= i < a.len() ==> (#[trigger] a[i]).0 == b[i].0 && a[i].1@ == b[i].1@,
    ensures
        label_attributes(a) == label_attributes(b),
    decreases a.len(),
{
    if a.len() > 0 {
        assert forall|i: int| 0 <= i < a.drop_last().len() implies (#[trigger] a.drop_last()[i]).0
            == b.drop_last()[i].0 && a.drop_last()[i].1@ == b.drop_last()[i].1@ by {
            assert(a[i].0 == b[i].0);
        }
        lemma_same_label_attributes(a.drop_last(), b.drop_last());
        assert(a[a.len() - 1].0 == b[b.len() - 1].0);
    }
}

/// The attributes of a request do not depend on how the client addressed the
/// server, on the path as sent, on the operation id or on the duration: where
/// only these differ, the attributes are the same.  Nor does their order depend
/// on the order in which labels were attached.
pub proof fn law_attributes_ignore_what_the_client_chose(
    a: CompletedRequest,
    b: CompletedRequest,
)
    requires
        a.labels.wf(),
        b.labels.wf(),
        b@ == (RequestView {
            url_path: b@.url_path,
            server_address: b@.server_address,
            server_port: b@.server_port,
            operation_id: b@.operation_id,
            duration: b@.duration,
            ..a@
        }),
    ensures
        duration_attributes(a) == duration_attributes(b),
{
    assert(a@.labels == b@.labels);
    assert(a@.labels.dom() =~= a.labels@.dom());
    assert(b@.labels.dom() =~= b.labels@.dom());
    law_listing_depends_on_content(a.labels, b.labels);
    lemma_listed(a.labels);
    let listed_a = a.labels.listed();
    let listed_b = b.labels.listed();
    assert forall|i: int| 0 <= i < listed_a.len() implies (#[trigger] listed_a[i]).0
        == listed_b[i].0 && listed_a[i].1@ == listed_b[i].1@ by {
        let key = listed_a[i].0;
        assert(a.labels@.contains_key(key));
        assert(a@.labels[key] == a.labels@[key]@);
        assert(b@.labels[key] == b.labels@[key]@);
    }
    lemma_same_label_attributes(listed_a, listed_b);
    assert(standard_attributes(a@) == standard_attributes(b@));
}

/// A later label with the same key replaces the earlier one, which leaves no
/// trace, and labels with different keys do not affect each other.
pub proof fn law_later_label_replaces(
    r: RequestView,
    key: Seq<char>,
    value: Seq<char>,
    other: Seq<char>,
    later: Seq<char>,
)
    ensures
        with_label(with_label(r, key, value), key, later) == with_label(r, key, later),
        other != key ==> with_label(with_label(r, key, value), other, later) == with_label(
            with_label(r, other, later),
            key,
            value,
        ),
{
    assert(r.labels.insert(key, value).insert(key, later) =~= r.labels.insert(key, later));
    if other != key {
        assert(r.labels.insert(key, value).insert(other, later) =~= r.labels.insert(
            other,
            later,
        ).insert(key, value));
    }
}

/// What is recorded last under a name is what stays, and what is recorded
/// under different names does not depend on the order.
pub proof fn law_last_recording_stays(
    r: RequestView,
    field: Seq<char>,
    value: Seq<char>,
    other: Seq<char>,
    later: Seq<char>,
)
    ensures
        with_text(with_text(r, field, value), field, later) == with_text(r, field, later),
        other != field ==> with_text(with_text(r, field, value), other, later) == with_text(
            with_text(r, other, later),
            field,
            value,
        ),
{
}

/// The same for fields with integer values; and texts and integers are
/// recorded independently of each other.
pub proof fn law_last_integer_stays(
    r: RequestView,
    field: Seq<char>,
    value: i64,
    other: Seq<char>,
    later: i64,
    text_field: Seq<char>,
    text: Seq<char>,
)
    ensures
        with_integer(with_integer(r, field, value), field, later) == with_integer(r, field, later),
        other != field ==> with_integer(with_integer(r, field, value), other, later)
            == with_integer(with_integer(r, other, later), field, value),
        with_text(with_integer(r, field, value), text_field, text) == with_integer(
            with_text(r, text_field, text),
            field,
            value,
        ),
{
}

/// Recording the span's fields never touches the labels, and labels never
/// touch what was recorded.
pub proof fn law_labels_and_fields_are_separate(
    r: RequestView,
    field: Seq<char>,
    text: Seq<char>,
    number: i64,
    key: Seq<char>,
    value: Seq<char>,
)
    ensures
        with_label(with_text(r, field, text), key, value) == with_text(
            with_label(r, key, value),
            field,
            text,
        ),
        with_label(with_integer(r, field, number), key, value) == with_integer(
            with_label(r, key, value),
            field,
            number,
        ),
{
}

/// Each span field with a text value is taken in under its own name, and no other
/// text is.
pub proof fn law_texts_are_taken_in_by_name(r: RequestView, field: Seq<char>, value: Seq<char>)
    ensures
        with_text(r, "http.request.method"@, value) == (RequestView { method: value, ..r }),
        with_text(r, "url.path"@, value) == (RequestView { url_path: value, ..r }),
        with_text(r, "url.scheme"@, value) == (RequestView { url_scheme: value, ..r }),
        with_text(r, "network.protocol.version"@, value) == (RequestView {
            protocol_version: Some(value),
            ..r
        }),
        with_text(r, "server.address"@, value) == (RequestView {
            server_address: Some(value),
            ..r
        }),
        with_text(r, "http.route"@, value) == (RequestView { route: Some(value), ..r }),
        with_text(r, "dropshot.operation_id"@, value) == (RequestView {
            operation_id: Some(value),
            ..r
        }),
        with_text(r, "error.type"@, value) == (RequestView { error_type: Some(value), ..r }),
        field != "http.request.method"@ && field != "url.path"@ && field != "url.scheme"@ && field
            != "network.protocol.version"@ && field != "server.address"@ && field != "http.route"@
            && field != "dropshot.operation_id"@ && field != "error.type"@ ==> with_text(
            r,
            field,
            value,
        ) == r,
{
    lemma_text_fields_differ();
}

/// Each span field with an integer value is taken in under its own name, if the
/// integer is a `u16`, and no other integer is.
pub proof fn law_integers_are_taken_in_by_name(r: RequestView, field: Seq<char>, value: i64)
    ensures
        0 <= value <= 65535 ==> with_integer(r, "server.port"@, value) == (RequestView {
            server_port: Some(value as u16),
            ..r
        }),
        !(0 <= value <= 65535) ==> with_integer(r, "server.port"@, value) == (RequestView {
            server_port: None,
            ..r
        }),
        0 <= value <= 65535 ==> with_integer(r, "http.response.status_code"@, value) == (
        RequestView { status_code: Some(value as u16), ..r }),
        !(0 <= value <= 65535) ==> with_integer(r, "http.response.status_code"@, value) == (
        RequestView { status_code: None, ..r }),
        field != "server.port"@ && field != "http.response.status_code"@ ==> with_integer(
            r,
            field,
            value,
        ) == r,
{
    lemma_text_fields_differ();
}

/// A label has no effect but on the value of its key.
pub proof fn law_label_changes_one_entry(
    r: RequestView,
    key: Seq<char>,
    value: Seq<char>,
    other: Seq<char>,
)
    ensures
        ({
            let after = with_label(r, key, value);
            &&& after == (RequestView { labels: after.labels, ..r })
            &&& after.labels.contains_key(key)
            &&& after.labels[key] == value
            &&& other != key ==> after.labels.contains_key(other) == r.labels.contains_key(other)
            &&& other != key && r.labels.contains_key(other) ==> after.labels[other]
                == r.labels[other]
        }),
{
}

/// Whether an attribute is among others after one more was added.
pub proof fn lemma_contains_one_more(
    earlier: Seq<(Seq<char>, ValueView)>,
    one: (Seq<char>, ValueView),
    x: (Seq<char>, ValueView),
)
    ensures
        (earlier + seq![one]).contains(x) <==> earlier.contains(x) || x == one,
{
    let all = earlier + seq![one];
    if earlier.contains(x) {
        let i = choose|i: int| 0 <= i < earlier.len() && earlier[i] == x;
        assert(all[i] == x);
    }
    if x == one {
        assert(all[earlier.len() as int] == x);
    }
    if all.contains(x) {
        let i = choose|i: int| 0 <= i < all.len() && all[i] == x;
        if i < earlier.len() {
            assert(earlier[i] == x);
        }
    }
}

/// Whether an attribute is among others after optional ones were added.
pub proof fn lemma_contains_optional(
    earlier: Seq<(Seq<char>, ValueView)>,
    key: Seq<char>,
    value: Option<Seq<char>>,
    x: (Seq<char>, ValueView),
)
    ensures
        (earlier + optional_attribute(key, value)).contains(x) <==> earlier.contains(x) || (
        value is Some && x == (key, ValueView::Text(value->0))),
{
    match value {
        Some(text) => lemma_contains_one_more(earlier, (key, ValueView::Text(text)), x),
        None => {
            assert(earlier + optional_attribute(key, value) =~= earlier);
        },
    }
}

/// What is among the standard attributes.
proof fn lemma_standard_members(request: CompletedRequest, x: (Seq<char>, ValueView))
    ensures
        standard_attributes(request@).contains(x) <==> {
            ||| x == ("http.request.method"@, ValueView::Text(request.method@))
            ||| x == ("url.scheme"@, ValueView::Text(request.url_scheme@))
            ||| request.error_type is Some && x == (
                "error.type"@,
                ValueView::Text(request.error_type->0@),
            )
            ||| request.status_code is Some && x == (
                "http.response.status_code"@,
                ValueView::Integer(request.status_code->0 as i64),
            )
            ||| request.route is Some && x == (
                "http.route"@,
                ValueView::Text(request.route->0@),
            )
            ||| request.protocol_version is Some && x == (
                "network.protocol.version"@,
                ValueView::Text(request.protocol_version->0@),
            )
        },
{
    let r = request@;
    let none = Seq::<(Seq<char>, ValueView)>::empty();
    let method = ("http.request.method"@, ValueView::Text(r.method));
    let scheme = ("url.scheme"@, ValueView::Text(r.url_scheme));
    let s2 = seq![method, scheme];
    let s3 = s2 + optional_attribute("error.type"@, r.error_type);
    let code = match r.status_code {
        Some(code) => seq![("http.response.status_code"@, ValueView::Integer(code as i64))],
        None => Seq::empty(),
    };
    let s4 = s3 + code;
    let s5 = s4 + optional_attribute("http.route"@, r.route);
    assert(none + seq![method] + seq![scheme] =~= s2);
    lemma_contains_one_more(none, method, x);
    lemma_contains_one_more(none + seq![method], scheme, x);
    lemma_contains_optional(s2, "error.type"@, r.error_type, x);
    match r.status_code {
        Some(code) => lemma_contains_one_more(
            s3,
            ("http.response.status_code"@, ValueView::Integer(code as i64)),
            x,
        ),
        None => {
            assert(s4 =~= s3);
        },
    }
    lemma_contains_optional(s4, "http.route"@, r.route, x);
    lemma_contains_optional(s5, "network.protocol.version"@, r.protocol_version, x);
}

/// Each recorded standard value is reported, independently of the others, and
/// none that was not recorded is.  The method and the scheme always are.
pub proof fn law_recorded_values_are_reported(request: CompletedRequest, value: ValueView)
    ensures
        ({
            let reported = duration_attributes(request);
            &&& reported.contains(("http.request.method"@, value)) <==> value == ValueView::Text(
                request.method@,
            )
            &&& reported.contains(("url.scheme"@, value)) <==> value == ValueView::Text(
                request.url_scheme@,
            )
            &&& reported.contains(("error.type"@, value)) <==> request.error_type is Some && value
                == ValueView::Text(request.error_type->0@)
            &&& reported.contains(("http.response.status_code"@, value))
                <==> request.status_code is Some && value == ValueView::Integer(
                request.status_code->0 as i64,
            )
            &&& reported.contains(("http.route"@, value)) <==> request.route is Some && value
                == ValueView::Text(request.route->0@)
            &&& reported.contains(("network.protocol.version"@, value))
                <==> request.protocol_version is Some && value == ValueView::Text(
                request.protocol_version->0@,
            )
        }),
{
    lemma_text_fields_differ();
    lemma_reported(request, ("http.request.method"@, value));
    lemma_reported(request, ("url.scheme"@, value));
    lemma_reported(request, ("error.type"@, value));
    lemma_reported(request, ("http.response.status_code"@, value));
    lemma_reported(request, ("http.route"@, value));
    lemma_reported(request, ("network.protocol.version"@, value));
}

/// An attribute with a standard key is reported exactly if it is among the
/// standard attributes.
proof fn lemma_reported(request: CompletedRequest, x: (Seq<char>, ValueView))
    requires
        standard_key(x.0),
    ensures
        duration_attributes(request).contains(x) <==> standard_attributes(request@).contains(x),
        standard_attributes(request@).contains(x) <==> {
            ||| x == ("http.request.method"@, ValueView::Text(request.method@))
            ||| x == ("url.scheme"@, ValueView::Text(request.url_scheme@))
            ||| request.error_type is Some && x == (
                "error.type"@,
                ValueView::Text(request.error_type->0@),
            )
            ||| request.status_code is Some && x == (
                "http.response.status_code"@,
                ValueView::Integer(request.status_code->0 as i64),
            )
            ||| request.route is Some && x == (
                "http.route"@,
                ValueView::Text(request.route->0@),
            )
            ||| request.protocol_version is Some && x == (
                "network.protocol.version"@,
                ValueView::Text(request.protocol_version->0@),
            )
        },
{
    let standard = standard_attributes(request@);
    let all = duration_attributes(request);
    lemma_standard_members(request, x);
    if standard.contains(x) {
        let i = choose|i: int| 0 <= i < standard.len() && standard[i] == x;
        assert(all[i] == x);
    }
    if all.contains(x) {
        let i = choose|i: int| 0 <= i < all.len() && all[i] == x;
        if i < standard.len() {
            assert(standard[i] == x);
        } else {
            let j = lemma_label_attribute(request.labels.listed(), i - standard.len());
        }
    }
}

/// Every other attribute is a label, with its own key and value, and every label
/// with another key is an attribute.
pub proof fn law_other_attributes_are_the_labels(
    request: CompletedRequest,
    key: Seq<char>,
    value: ValueView,
)
    requires
        request.labels.wf(),
        key != "http.request.method"@,
        key != "url.scheme"@,
        key != "error.type"@,
        key != "http.response.status_code"@,
        key != "http.route"@,
        key != "network.protocol.version"@,
    ensures
        duration_attributes(request).contains((key, value)) <==> {
            &&& request.labels@.contains_key(key)
            &&& value == ValueView::Text(request.labels@[key]@)
        },
{
    let listed = request.labels.listed();
    let standard = standard_attributes(request@);
    let all = duration_attributes(request);
    lemma_standard_keys(request@);
    lemma_listed(request.labels);
    if all.contains((key, value)) {
        let i = choose|i: int| 0 <= i < all.len() && all[i] == (key, value);
        if i < standard.len() {
            assert(all[i] == standard[i]);
            assert(standard_key(standard[i].0));
        }
        let j = lemma_label_attribute(listed, i - standard.len());
        assert(request.labels@.contains_key(listed[j].0));
    }
    if request.labels@.contains_key(key) && value == ValueView::Text(request.labels@[key]@) {
        let p = place_of(listed, key);
        assert(has_key(listed, key));
        let j = lemma_label_kept(listed, p);
        assert(all[standard.len() + j] == (key, value));
    }
}

} // verus!
