//! The fields of request spans.
//!
//! One span is created for each request.  Some of its fields are known as the
//! request starts, some once it was routed to an endpoint, and some once it is
//! done.  Fields that do not apply are not recorded.

use crate::attribute::{push_integer, push_optional, push_text, Attribute};
#[allow(unused_imports)]
use crate::attribute::{attribute_views, optional_attribute, ValueView};
use crate::text::{
    characters, decimal_text, joined, same_text, same_text_ignoring_ascii_case, split_at,
};
#[allow(unused_imports)]
use crate::metrics::{
    lemma_contains_one_more, lemma_contains_optional, lemma_text_fields_differ, recorded,
    with_integer, with_text, RequestView,
};
#[allow(unused_imports)]
use crate::propagation::{
    headers_recorded, lemma_header_names, well_formed_traceparent, with_header, HeadersView,
};
#[allow(unused_imports)]
use crate::text::{
    ascii_lowered, decimal, fields_at, law_fields_end_at_separators,
    law_last_field_follows_last_separator, lemma_first_of_several, optional_text,
};
use vstd::prelude::*;

verus! {

/// The target of request spans.
pub const SPAN_TARGET: &'static str = "dropshot::instrument";

/// The name of request spans.
pub const SPAN_NAME: &'static str = "dropshot_request";

/// The method that is reported for a request with an unknown one.
pub const OTHER_METHOD: &'static str = "_OTHER";

/// An IP address, written out, and a port.
#[derive(Debug)]
pub struct SocketAddress {
    pub ip: String,
    pub port: u16,
}

impl View for SocketAddress {
    type V = (Seq<char>, u16);

    open spec fn view(&self) -> (Seq<char>, u16) {
        (self.ip@, self.port)
    }
}

impl Clone for SocketAddress {
    /// Returns the same address.
    fn clone(&self) -> (r: Self)
        ensures
            r@ == self@,
    {
        SocketAddress { ip: self.ip.clone(), port: self.port }
    }
}

/// A version of HTTP.
#[derive(Clone, Copy, Debug, PartialEq, Eq, Structural)]
pub enum HttpVersion {
    Http09,
    Http10,
    Http11,
    Http2,
    Http3,
}

/// The server that handles a request.
#[derive(Debug)]
pub struct ServerInfo {
    /// The address that the server listens on.
    pub local_addr: SocketAddress,
    /// Whether requests arrive over HTTPS.
    pub https: bool,
    /// The methods that some endpoint of the server handles.
    pub methods: Vec<String>,
}

/// What is known of a request before it is handled.
#[derive(Debug)]
pub struct RequestHead {
    /// The method, as sent.
    pub method: String,
    /// The path, as sent.
    pub path: String,
    /// The query string, as sent.
    pub query: Option<String>,
    /// The version of HTTP.
    pub version: HttpVersion,
    /// The authority of the request's target, if it has one.
    pub authority: Option<String>,
    /// The `Host` header.
    pub host: Option<String>,
    /// The `User-Agent` header.
    pub user_agent: Option<String>,
    /// The `traceparent` header.
    pub traceparent: Option<String>,
    /// The `tracestate` header.
    pub tracestate: Option<String>,
}

/// The methods that are known to every server.
pub open spec fn standard_methods() -> Seq<Seq<char>> {
    seq![
        "GET"@,
        "HEAD"@,
        "POST"@,
        "PUT"@,
        "DELETE"@,
        "CONNECT"@,
        "OPTIONS"@,
        "TRACE"@,
        "PATCH"@,
    ]
}

/// A list of texts as plain data.
pub open spec fn text_views(texts: Seq<String>) -> Seq<Seq<char>> {
    texts.map_values(|text: String| text@)
}

/// The methods known to a server: the standard ones, and those that some
/// endpoint handles.
pub open spec fn known_methods(server: ServerInfo) -> Seq<Seq<char>> {
    standard_methods() + text_views(server.methods@)
}

/// The first of the methods that is the given one but for the case of letters.
pub open spec fn first_match(methods: Seq<Seq<char>>, method: Seq<char>) -> Option<Seq<char>>
    decreases methods.len(),
{
    if methods.len() == 0 {
        None
    } else if ascii_lowered(methods[0]) == ascii_lowered(method) {
        Some(methods[0])
    } else {
        first_match(methods.skip(1), method)
    }
}

/// The method that is reported: the canonical form of a known method (requests
/// are routed by their method in any case), or else [`OTHER_METHOD`].
pub open spec fn reported_method(server: ServerInfo, method: Seq<char>) -> Seq<char> {
    match first_match(known_methods(server), method) {
        Some(known) => known,
        None => OTHER_METHOD@,
    }
}

/// The method as sent, where another one is reported.
pub open spec fn original_method(server: ServerInfo, method: Seq<char>) -> Option<Seq<char>> {
    if reported_method(server, method) == method {
        None
    } else {
        Some(method)
    }
}

/// The name of a span by its method alone.
pub open spec fn method_name(method: Seq<char>) -> Seq<char> {
    if method == OTHER_METHOD@ {
        "HTTP"@
    } else {
        method
    }
}

/// The name of a span by its method and the path template of the endpoint that
/// the request was routed to.
pub open spec fn routed_name(method: Seq<char>, route: Seq<char>) -> Seq<char> {
    method_name(method) + " "@ + route
}

/// How a version of HTTP is reported.
pub open spec fn version_text(version: HttpVersion) -> Seq<char> {
    match version {
        HttpVersion::Http09 => "0.9"@,
        HttpVersion::Http10 => "1.0"@,
        HttpVersion::Http11 => "1.1"@,
        HttpVersion::Http2 => "2"@,
        HttpVersion::Http3 => "3"@,
    }
}

/// The scheme of a URL.
pub open spec fn scheme_text(https: bool) -> Seq<char> {
    if https {
        "https"@
    } else {
        "http"@
    }
}

/// The port that a scheme stands for.
pub open spec fn default_port(https: bool) -> u16 {
    if https {
        443
    } else {
        80
    }
}

/// Whether a text consists of decimal digits.
pub open spec fn all_digits(text: Seq<char>) -> bool {
    forall|i: int| 0 <= i < text.len() ==> '0' <= #[trigger] text[i] <= '9'
}

/// The number that decimal digits stand for.
pub open spec fn decimal_value(digits: Seq<char>) -> nat
    decreases digits.len(),
{
    if digits.len() == 0 {
        0
    } else {
        10 * decimal_value(digits.drop_last()) + ((digits.last() as u32) - ('0' as u32)) as nat
    }
}

/// The port that a text names, or the default where it names none.
pub open spec fn port_of(text: Seq<char>, default: u16) -> Option<u16> {
    if text.len() == 0 {
        Some(default)
    } else if all_digits(text) && decimal_value(text) <= 65535 {
        Some(decimal_value(text) as u16)
    } else {
        None
    }
}

/// The address and port that a text names, as a `Host` header does.  An IPv6
/// address stands in brackets, which are not part of it.  Where there is no
/// port, it is the scheme's default.
pub open spec fn server_endpoint(host: Seq<char>, https: bool) -> Option<(Seq<char>, u16)> {
    let (address, port) = if host.len() > 0 && host[0] == '[' {
        let parts = fields_at(host, ']');
        let address = parts[0].skip(1);
        if parts.len() != 2 {
            (address, None)
        } else if parts[1].len() == 0 {
            (address, Some(default_port(https)))
        } else if parts[1][0] == ':' {
            (address, port_of(parts[1].skip(1), default_port(https)))
        } else {
            (address, None)
        }
    } else {
        let parts = fields_at(host, ':');
        if parts.len() == 1 {
            (parts[0], Some(default_port(https)))
        } else if parts.len() == 2 {
            (parts[0], port_of(parts[1], default_port(https)))
        } else {
            (parts[0], None)
        }
    };
    match port {
        Some(port) if address.len() > 0 => Some((address, port)),
        _ => None,
    }
}

/// How the client addressed the server: by the authority of the request's
/// target, without the user information that may precede an `@` in it, or else
/// by the `Host` header.
pub open spec fn server_text(request: RequestHead) -> Option<Seq<char>> {
    match request.authority {
        Some(authority) => Some(fields_at(authority@, '@').last()),
        None => optional_text(request.host),
    }
}

/// The address and port by which a request names the server.
pub open spec fn named_server(request: RequestHead, https: bool) -> Option<(Seq<char>, u16)> {
    match server_text(request) {
        Some(text) => server_endpoint(text, https),
        None => None,
    }
}

/// The fields that say how the client addressed the server.
pub open spec fn server_fields(request: RequestHead, https: bool) -> Seq<(Seq<char>, ValueView)> {
    match named_server(request, https) {
        Some((address, port)) => seq![
            ("server.address"@, ValueView::Text(address)),
            ("server.port"@, ValueView::Integer(port as i64)),
        ],
        None => Seq::empty(),
    }
}

/// The fields of a request span as the request starts.
pub open spec fn started_fields(
    server: ServerInfo,
    request: RequestHead,
    request_id: Seq<char>,
    remote_addr: (Seq<char>, u16),
) -> Seq<(Seq<char>, ValueView)> {
    let method = reported_method(server, request.method@);
    Seq::<(Seq<char>, ValueView)>::empty() + seq![("otel.kind"@, ValueView::Text("server"@))]
        + seq![("otel.name"@, ValueView::Text(method_name(method)))] + seq![
        ("http.request.method"@, ValueView::Text(method)),
    ] + optional_attribute(
        "http.request.method_original"@,
        original_method(server, request.method@),
    ) + seq![("url.path"@, ValueView::Text(request.path@))] + optional_attribute(
        "url.query"@,
        optional_text(request.query),
    ) + seq![("url.scheme"@, ValueView::Text(scheme_text(server.https)))] + seq![
        ("network.protocol.version"@, ValueView::Text(version_text(request.version))),
    ] + server_fields(request, server.https) + seq![
        ("client.address"@, ValueView::Text(remote_addr.0)),
    ] + seq![("network.peer.address"@, ValueView::Text(remote_addr.0))] + seq![
        ("network.peer.port"@, ValueView::Integer(remote_addr.1 as i64)),
    ] + optional_attribute("user_agent.original"@, optional_text(request.user_agent))
        + optional_attribute(
        "http.request.header.traceparent"@,
        optional_text(request.traceparent),
    ) + optional_attribute(
        "http.request.header.tracestate"@,
        optional_text(request.tracestate),
    ) + seq![("dropshot.request_id"@, ValueView::Text(request_id))]
}

/// The fields of a request span once the request was routed to an endpoint.
pub open spec fn routed_fields(
    method: Seq<char>,
    route: Seq<char>,
    operation_id: Seq<char>,
) -> Seq<(Seq<char>, ValueView)> {
    seq![
        ("otel.name"@, ValueView::Text(routed_name(method, route))),
        ("http.route"@, ValueView::Text(route)),
        ("dropshot.operation_id"@, ValueView::Text(operation_id)),
    ]
}

/// Whether a status code says that the server failed.  A client error is none on
/// a server's span.
pub open spec fn server_error(status_code: u16) -> bool {
    500 <= status_code <= 599
}

/// The fields that mark a span as failed.
pub open spec fn failed_fields(error_type: Seq<char>, description: Option<Seq<char>>) -> Seq<
    (Seq<char>, ValueView),
> {
    Seq::<(Seq<char>, ValueView)>::empty() + seq![("error.type"@, ValueView::Text(error_type))]
        + seq![("otel.status_code"@, ValueView::Text("ERROR"@))] + optional_attribute(
        "otel.status_description"@,
        description,
    )
}

/// The fields of a request span once there is a response with a status code.
pub open spec fn responded_fields(status_code: u16) -> Seq<(Seq<char>, ValueView)> {
    seq![("http.response.status_code"@, ValueView::Integer(status_code as i64))] + (
    if server_error(status_code) {
        failed_fields(decimal(status_code as nat), None)
    } else {
        Seq::empty()
    })
}

/// The fields of a request span once there is an error response.
pub open spec fn errored_fields(
    status_code: u16,
    message_external: Option<Seq<char>>,
    message_internal: Seq<char>,
) -> Seq<(Seq<char>, ValueView)> {
    seq![("http.response.status_code"@, ValueView::Integer(status_code as i64))] + (
    if server_error(status_code) {
        failed_fields(decimal(status_code as nat), Some(message_internal))
    } else {
        Seq::empty()
    }) + seq![("dropshot.error.message"@, ValueView::Text(message_internal))] + optional_attribute(
        "dropshot.error.message_external"@,
        message_external,
    )
}

/// The fields of a request span once the client has disconnected: there is no
/// response, and so no status code.
pub open spec fn disconnected_fields(message: Seq<char>) -> Seq<(Seq<char>, ValueView)> {
    failed_fields("client_disconnect"@, Some(message))
}

/// The first field of a text is what the text begins with.
proof fn lemma_first_field(value: Seq<char>, separator: char)
    ensures
        fields_at(value, separator).len() >= 1,
        fields_at(value, separator)[0].len() <= value.len(),
        fields_at(value, separator)[0] == value.take(
            fields_at(value, separator)[0].len() as int,
        ),
    decreases value.len(),
{
    let first = fields_at(value, separator)[0];
    if value.len() > 0 {
        let earlier = value.drop_last();
        lemma_first_field(earlier, separator);
        let before = fields_at(earlier, separator)[0];
        if first == before {
            assert(value.take(first.len() as int) =~= earlier.take(first.len() as int));
        } else {
            lemma_only_field(earlier, separator);
            assert(first == earlier.push(value.last()));
            assert(value.take(first.len() as int) =~= value);
        }
    } else {
        assert(first =~= value.take(0));
    }
}

/// The last field of a text is what the text ends with.
proof fn lemma_last_field(value: Seq<char>, separator: char)
    ensures
        fields_at(value, separator).len() >= 1,
        fields_at(value, separator).last().len() <= value.len(),
        fields_at(value, separator).last() == value.skip(
            value.len() - fields_at(value, separator).last().len(),
        ),
    decreases value.len(),
{
    let last = fields_at(value, separator).last();
    if value.len() > 0 {
        lemma_last_field(value.drop_last(), separator);
        assert(last =~= value.skip(value.len() - last.len()));
    } else {
        assert(last =~= value.skip(0));
    }
}

/// A single field is the whole text.
proof fn lemma_only_field(value: Seq<char>, separator: char)
    ensures
        fields_at(value, separator).len() >= 1,
        fields_at(value, separator).len() == 1 ==> fields_at(value, separator)[0] == value,
{
    crate::text::lemma_only_field(value, separator);
}

/// More digits stand for no smaller number.
proof fn lemma_more_digits(digits: Seq<char>, count: int)
    requires
        0 <= count <= digits.len(),
    ensures
        decimal_value(digits.take(count)) <= decimal_value(digits),
    decreases digits.len() - count,
{
    if count == digits.len() {
        assert(digits.take(count) == digits);
    } else {
        lemma_more_digits(digits, count + 1);
        assert(digits.take(count + 1).drop_last() == digits.take(count));
    }
}

/// Returns the port that the text from a place on names, or the default where it
/// names none.
fn parse_port(text: &Vec<char>, from: usize, default: u16) -> (r: Option<u16>)
    requires
        from <= text@.len(),
    ensures
        r == port_of(text@.skip(from as int), default),
{
    let ghost digits = text@.skip(from as int);
    if from == text.len() {
        return Some(default);
    }
    let mut value: u32 = 0;
    let mut i: usize = from;
    while i < text.len()
        invariant
            from <= i <= text@.len(),
            digits == text@.skip(from as int),
            all_digits(digits.take(i - from)),
            value == decimal_value(digits.take(i - from)),
            value <= 65535,
        decreases text.len() - i,
    {
        let c = text[i];
        assert(digits[i - from] == c);
        if !('0' <= c && c <= '9') {
            return None;
        }
        assert(digits.take(i - from + 1) == digits.take(i - from).push(c));
        assert(digits.take(i - from + 1).drop_last() == digits.take(i - from));
        value = value * 10 + (c as u32 - '0' as u32);
        if value > 65535 {
            proof {
                lemma_more_digits(digits, i - from + 1);
            }
            return None;
        }
        i += 1;
    }
    assert(digits.take(i - from) == digits);
    Some(value as u16)
}

/// Returns the address and port that a text names, as a `Host` header does.
pub fn parse_host(host: &str, https: bool) -> (r: Option<(String, u16)>)
    ensures
        match r {
            Some((address, port)) => server_endpoint(host@, https) == Some((address@, port)),
            None => server_endpoint(host@, https) is None,
        },
{
    let default: u16 = if https {
        443
    } else {
        80
    };
    let by_colon = split_at(host, ':');
    let by_bracket = split_at(host, ']');
    proof {
        lemma_first_field(host@, ':');
        lemma_first_field(host@, ']');
        assert(by_colon@[0]@ == fields_at(host@, ':')[0]);
        assert(by_bracket@[0]@ == fields_at(host@, ']')[0]);
    }
    let bracketed = by_bracket[0].len() > 0 && by_bracket[0][0] == '[';
    proof {
        let first = fields_at(host@, ']')[0];
        if host@.len() > 0 && host@[0] == '[' && first.len() == 0 {
            lemma_first_character(host@, ']');
        }
        if first.len() > 0 {
            assert(first[0] == host@[0]);
        }
    }
    if bracketed {
        let end: usize = by_bracket[0].len();
        let port = if by_bracket.len() != 2 {
            None
        } else if by_bracket[1].len() == 0 {
            Some(default)
        } else if by_bracket[1][0] == ':' {
            parse_port(&by_bracket[1], 1, default)
        } else {
            None
        };
        assert(fields_at(host@, ']')[0].skip(1) =~= host@.subrange(1, end as int));
        match port {
            Some(port) => if end > 1 {
                Some((host.substring_char(1, end).to_owned(), port))
            } else {
                None
            },
            None => None,
        }
    } else {
        let end: usize = by_colon[0].len();
        let port = if by_colon.len() == 1 {
            Some(default)
        } else if by_colon.len() == 2 {
            proof {
                assert(by_colon@[1]@ == fields_at(host@, ':')[1]);
                assert(by_colon@[1]@.skip(0) == by_colon@[1]@);
            }
            parse_port(&by_colon[1], 0, default)
        } else {
            None
        };
        assert(fields_at(host@, ':')[0] =~= host@.subrange(0, end as int));
        match port {
            Some(port) => if end > 0 {
                Some((host.substring_char(0, end).to_owned(), port))
            } else {
                None
            },
            None => None,
        }
    }
}

/// Text that does not begin with a separator has a first field that is not
/// empty.
proof fn lemma_first_character(value: Seq<char>, separator: char)
    requires
        value.len() > 0,
        value[0] != separator,
    ensures
        fields_at(value, separator)[0].len() > 0,
    decreases value.len(),
{
    let earlier = value.drop_last();
    lemma_first_field(earlier, separator);
    if value.len() > 1 {
        lemma_first_character(earlier, separator);
    }
}

/// Returns the methods known to a server.
fn all_known_methods(server: &ServerInfo) -> (r: Vec<String>)
    ensures
        text_views(r@) == known_methods(*server),
{
    let mut r: Vec<String> = Vec::new();
    r.push("GET".to_owned());
    r.push("HEAD".to_owned());
    r.push("POST".to_owned());
    r.push("PUT".to_owned());
    r.push("DELETE".to_owned());
    r.push("CONNECT".to_owned());
    r.push("OPTIONS".to_owned());
    r.push("TRACE".to_owned());
    r.push("PATCH".to_owned());
    assert(text_views(r@) =~= standard_methods());
    let methods = &server.methods;
    let mut i: usize = 0;
    assert(text_views(r@) =~= standard_methods() + text_views(methods@.take(0)));
    while i < methods.len()
        invariant
            i <= methods@.len(),
            text_views(r@) == standard_methods() + text_views(methods@.take(i as int)),
        decreases methods.len() - i,
    {
        let ghost before = r@;
        r.push(methods[i].clone());
        assert(text_views(r@) =~= text_views(before).push(methods@[i as int]@));
        assert(text_views(methods@.take(i + 1)) =~= text_views(methods@.take(i as int)).push(
            methods@[i as int]@,
        ));
        assert(text_views(r@) =~= standard_methods() + text_views(methods@.take(i + 1)));
        i += 1;
    }
    assert(methods@.take(i as int) == methods@);
    r
}

/// Returns the method that is reported for a request with the given one.
pub fn report_method(server: &ServerInfo, method: &str) -> (r: String)
    ensures
        r@ == reported_method(*server, method@),
{
    let methods = all_known_methods(server);
    let ghost known = known_methods(*server);
    let mut i: usize = 0;
    assert(known.skip(0) == known);
    while i < methods.len()
        invariant
            i <= methods@.len(),
            known == known_methods(*server),
            text_views(methods@) == known,
            first_match(known.skip(i as int), method@) == first_match(known, method@),
        decreases methods.len() - i,
    {
        assert(known[i as int] == methods@[i as int]@);
        assert(known.skip(i as int)[0] == known[i as int]);
        if same_text_ignoring_ascii_case(methods[i].as_str(), method) {
            return methods[i].clone();
        }
        assert(known.skip(i as int).skip(1) == known.skip(i + 1));
        i += 1;
    }
    OTHER_METHOD.to_owned()
}

/// Returns the name of a span by its method alone.
fn name_for_method(method: &str) -> (r: &str)
    ensures
        r@ == method_name(method@),
{
    if same_text(method, OTHER_METHOD) {
        "HTTP"
    } else {
        method
    }
}

/// Returns how a version of HTTP is reported.
fn text_of_version(version: HttpVersion) -> (r: &'static str)
    ensures
        r@ == version_text(version),
{
    match version {
        HttpVersion::Http09 => "0.9",
        HttpVersion::Http10 => "1.0",
        HttpVersion::Http11 => "1.1",
        HttpVersion::Http2 => "2",
        HttpVersion::Http3 => "3",
    }
}

/// Returns the address and port by which a request names the server.
pub fn server_of(request: &RequestHead, https: bool) -> (r: Option<(String, u16)>)
    ensures
        match r {
            Some((address, port)) => named_server(*request, https) == Some((address@, port)),
            None => named_server(*request, https) is None,
        },
{
    match &request.authority {
        Some(authority) => {
            let parts = split_at(authority.as_str(), '@');
            proof {
                lemma_last_field(authority@, '@');
                assert(parts@[parts@.len() - 1]@ == fields_at(authority@, '@').last());
            }
            let length: usize = characters(authority.as_str()).len();
            let from: usize = length - parts[parts.len() - 1].len();
            let named = authority.as_str().substring_char(from, length);
            assert(named@ =~= fields_at(authority@, '@').last());
            parse_host(named, https)
        },
        None => match &request.host {
            Some(host) => parse_host(host.as_str(), https),
            None => None,
        },
    }
}

/// Adds the fields that say how the client addressed the server.
fn push_server(fields: &mut Vec<Attribute>, request: &RequestHead, https: bool)
    ensures
        attribute_views(final(fields)@) == attribute_views(old(fields)@) + server_fields(
            *request,
            https,
        ),
{
    match server_of(request, https) {
        Some((address, port)) => {
            push_text(fields, "server.address", address.as_str());
            push_integer(fields, "server.port", port as i64);
        },
        None => {},
    }
    assert(attribute_views(fields@) =~= attribute_views(old(fields)@) + server_fields(
        *request,
        https,
    ));
}

/// Returns the fields of a request span as the request starts.
pub fn started_span(
    server: &ServerInfo,
    request: &RequestHead,
    request_id: &str,
    remote_addr: &SocketAddress,
) -> (r: Vec<Attribute>)
    ensures
        attribute_views(r@) == started_fields(*server, *request, request_id@, remote_addr@),
{
    let method = report_method(server, request.method.as_str());
    let original = if same_text(method.as_str(), request.method.as_str()) {
        None
    } else {
        Some(request.method.clone())
    };
    let scheme = if server.https {
        "https"
    } else {
        "http"
    };
    let mut fields: Vec<Attribute> = Vec::new();
    assert(attribute_views(fields@) =~= Seq::empty());
    push_text(&mut fields, "otel.kind", "server");
    push_text(&mut fields, "otel.name", name_for_method(method.as_str()));
    push_text(&mut fields, "http.request.method", method.as_str());
    push_optional(&mut fields, "http.request.method_original", &original);
    push_text(&mut fields, "url.path", request.path.as_str());
    push_optional(&mut fields, "url.query", &request.query);
    push_text(&mut fields, "url.scheme", scheme);
    push_text(&mut fields, "network.protocol.version", text_of_version(request.version));
    push_server(&mut fields, request, server.https);
    push_text(&mut fields, "client.address", remote_addr.ip.as_str());
    push_text(&mut fields, "network.peer.address", remote_addr.ip.as_str());
    push_integer(&mut fields, "network.peer.port", remote_addr.port as i64);
    push_optional(&mut fields, "user_agent.original", &request.user_agent);
    push_optional(&mut fields, "http.request.header.traceparent", &request.traceparent);
    push_optional(&mut fields, "http.request.header.tracestate", &request.tracestate);
    push_text(&mut fields, "dropshot.request_id", request_id);
    fields
}

/// Returns the fields of a request span once the request was routed to an
/// endpoint, given the method that is reported for the request.
pub fn routed_span(method: &str, route: &str, operation_id: &str) -> (r: Vec<Attribute>)
    ensures
        attribute_views(r@) == routed_fields(method@, route@, operation_id@),
{
    let name = joined(name_for_method(method), " ", route);
    let mut fields: Vec<Attribute> = Vec::new();
    push_text(&mut fields, "otel.name", name.as_str());
    push_text(&mut fields, "http.route", route);
    push_text(&mut fields, "dropshot.operation_id", operation_id);
    assert(attribute_views(fields@) =~= routed_fields(method@, route@, operation_id@));
    fields
}

/// Adds the fields that mark a span as failed.
fn push_failed(fields: &mut Vec<Attribute>, error_type: &str, description: &Option<String>)
    ensures
        attribute_views(final(fields)@) == attribute_views(old(fields)@) + failed_fields(
            error_type@,
            optional_text(*description),
        ),
{
    push_text(fields, "error.type", error_type);
    push_text(fields, "otel.status_code", "ERROR");
    push_optional(fields, "otel.status_description", description);
    assert(attribute_views(fields@) =~= attribute_views(old(fields)@) + failed_fields(
        error_type@,
        optional_text(*description),
    ));
}

/// Adds the fields that say with which status code there is a response.
fn push_status(fields: &mut Vec<Attribute>, status_code: u16, description: &Option<String>)
    ensures
        attribute_views(final(fields)@) == attribute_views(old(fields)@) + (seq![
            ("http.response.status_code"@, ValueView::Integer(status_code as i64)),
        ] + (if server_error(status_code) {
            failed_fields(decimal(status_code as nat), optional_text(*description))
        } else {
            Seq::empty()
        })),
{
    push_integer(fields, "http.response.status_code", status_code as i64);
    if 500 <= status_code && status_code <= 599 {
        let error_type = decimal_text(status_code);
        push_failed(fields, error_type.as_str(), description);
    }
    assert(attribute_views(fields@) =~= attribute_views(old(fields)@) + (seq![
        ("http.response.status_code"@, ValueView::Integer(status_code as i64)),
    ] + (if server_error(status_code) {
        failed_fields(decimal(status_code as nat), optional_text(*description))
    } else {
        Seq::empty()
    })));
}

/// Returns the fields of a request span once there is a response with the given
/// status code.
pub fn responded_span(status_code: u16) -> (r: Vec<Attribute>)
    ensures
        attribute_views(r@) == responded_fields(status_code),
{
    let mut fields: Vec<Attribute> = Vec::new();
    push_status(&mut fields, status_code, &None);
    assert(attribute_views(fields@) =~= responded_fields(status_code));
    fields
}

/// Returns the fields of a request span once there is an error response: both
/// messages, and for a server error also that the span has failed, described by
/// the internal message.
pub fn errored_span(
    status_code: u16,
    message_external: Option<&str>,
    message_internal: &str,
) -> (r: Vec<Attribute>)
    ensures
        attribute_views(r@) == errored_fields(
            status_code,
            match message_external {
                Some(message) => Some(message@),
                None => None,
            },
            message_internal@,
        ),
{
    let mut fields: Vec<Attribute> = Vec::new();
    push_status(&mut fields, status_code, &Some(message_internal.to_owned()));
    assert(attribute_views(fields@) =~= seq![
        ("http.response.status_code"@, ValueView::Integer(status_code as i64)),
    ] + (if server_error(status_code) {
        failed_fields(decimal(status_code as nat), Some(message_internal@))
    } else {
        Seq::empty()
    }));
    push_text(&mut fields, "dropshot.error.message", message_internal);
    match message_external {
        Some(message) => {
            push_text(&mut fields, "dropshot.error.message_external", message);
        },
        None => {
            assert(attribute_views(fields@) =~= attribute_views(fields@) + Seq::<
                (Seq<char>, ValueView),
            >::empty());
        },
    }
    fields
}

/// Returns the fields of a request span once the client has disconnected.
pub fn disconnected_span(message: &str) -> (r: Vec<Attribute>)
    ensures
        attribute_views(r@) == disconnected_fields(message@),
{
    let mut fields: Vec<Attribute> = Vec::new();
    push_failed(&mut fields, "client_disconnect", &Some(message.to_owned()));
    assert(attribute_views(fields@) =~= disconnected_fields(message@));
    fields
}

/// Whether spans have a field of this name that is not part of a completed
/// request.
pub open spec fn span_only(field: Seq<char>) -> bool {
    ||| field == "otel.kind"@
    ||| field == "otel.name"@
    ||| field == "http.request.method_original"@
    ||| field == "url.query"@
    ||| field == "client.address"@
    ||| field == "network.peer.address"@
    ||| field == "network.peer.port"@
    ||| field == "user_agent.original"@
    ||| field == "http.request.header.traceparent"@
    ||| field == "http.request.header.tracestate"@
    ||| field == "dropshot.request_id"@
    ||| field == "otel.status_code"@
    ||| field == "otel.status_description"@
    ||| field == "dropshot.error.message"@
    ||| field == "dropshot.error.message_external"@
}

/// Recording one more field.
proof fn lemma_recorded_one_more(
    r: RequestView,
    earlier: Seq<(Seq<char>, ValueView)>,
    field: (Seq<char>, ValueView),
)
    ensures
        recorded(r, earlier + seq![field]) == (match field.1 {
            ValueView::Text(text) => with_text(recorded(r, earlier), field.0, text),
            ValueView::Integer(number) => with_integer(recorded(r, earlier), field.0, number),
        }),
{
    assert((earlier + seq![field]).drop_last() =~= earlier);
}

/// The lengths of the names of fields that only spans have, and characters that
/// tell them from other fields.
proof fn lemma_span_only_names()
    ensures
        "otel.kind"@.len() == 9,
        "otel.name"@.len() == 9,
        "http.request.method_original"@.len() == 28,
        "url.query"@.len() == 9,
        "client.address"@.len() == 14,
        "network.peer.address"@.len() == 20,
        "network.peer.port"@.len() == 17,
        "user_agent.original"@.len() == 19,
        "http.request.header.traceparent"@.len() == 31,
        "http.request.header.tracestate"@.len() == 30,
        "dropshot.request_id"@.len() == 19,
        "otel.status_code"@.len() == 16,
        "otel.status_description"@.len() == 23,
        "dropshot.error.message"@.len() == 22,
        "dropshot.error.message_external"@.len() == 31,
        "client.address"@[0] == 'c',
        "server.address"@[0] == 's',
        "user_agent.original"@[0] == 'u',
        "dropshot.request_id"@[0] == 'd',
        "http.request.method"@[0] == 'h',
{
    reveal_strlit("otel.kind");
    reveal_strlit("otel.name");
    reveal_strlit("http.request.method_original");
    reveal_strlit("url.query");
    reveal_strlit("client.address");
    reveal_strlit("network.peer.address");
    reveal_strlit("network.peer.port");
    reveal_strlit("user_agent.original");
    reveal_strlit("http.request.header.traceparent");
    reveal_strlit("http.request.header.tracestate");
    reveal_strlit("dropshot.request_id");
    reveal_strlit("otel.status_code");
    reveal_strlit("otel.status_description");
    reveal_strlit("dropshot.error.message");
    reveal_strlit("dropshot.error.message_external");
    reveal_strlit("server.address");
    reveal_strlit("http.request.method");
}

/// Fields that only spans have are not part of a completed request.
proof fn lemma_span_only(r: RequestView, field: Seq<char>, text: Seq<char>, number: i64)
    requires
        span_only(field),
    ensures
        with_text(r, field, text) == r,
        with_integer(r, field, number) == r,
{
    lemma_span_only_names();
    lemma_text_fields_differ();
}

/// Recording one more field that only spans have changes nothing.
proof fn lemma_recorded_span_only(
    r: RequestView,
    earlier: Seq<(Seq<char>, ValueView)>,
    field: (Seq<char>, ValueView),
)
    requires
        span_only(field.0),
    ensures
        recorded(r, earlier + seq![field]) == recorded(r, earlier),
{
    lemma_recorded_one_more(r, earlier, field);
    match field.1 {
        ValueView::Text(text) => lemma_span_only(recorded(r, earlier), field.0, text, 0),
        ValueView::Integer(number) => lemma_span_only(
            recorded(r, earlier),
            field.0,
            Seq::empty(),
            number,
        ),
    }
}

/// Recording one more optional field that only spans have changes nothing.
proof fn lemma_recorded_optional(
    r: RequestView,
    earlier: Seq<(Seq<char>, ValueView)>,
    key: Seq<char>,
    value: Option<Seq<char>>,
)
    requires
        span_only(key),
    ensures
        recorded(r, earlier + optional_attribute(key, value)) == recorded(r, earlier),
{
    match value {
        Some(text) => lemma_recorded_span_only(r, earlier, (key, ValueView::Text(text))),
        None => {
            assert(earlier + optional_attribute(key, value) =~= earlier);
        },
    }
}

/// What recording the fields of a failed span does to a completed request.
proof fn lemma_recorded_failed(
    r: RequestView,
    earlier: Seq<(Seq<char>, ValueView)>,
    error_type: Seq<char>,
    description: Option<Seq<char>>,
)
    ensures
        recorded(r, earlier + failed_fields(error_type, description)) == (RequestView {
            error_type: Some(error_type),
            ..recorded(r, earlier)
        }),
{
    let one = earlier + seq![("error.type"@, ValueView::Text(error_type))];
    let two = one + seq![("otel.status_code"@, ValueView::Text("ERROR"@))];
    lemma_text_fields_differ();
    lemma_recorded_one_more(r, earlier, ("error.type"@, ValueView::Text(error_type)));
    lemma_recorded_span_only(r, one, ("otel.status_code"@, ValueView::Text("ERROR"@)));
    lemma_recorded_optional(r, two, "otel.status_description"@, description);
    assert(earlier + failed_fields(error_type, description) =~= two + optional_attribute(
        "otel.status_description"@,
        description,
    ));
}

/// What recording a status code does to a completed request.
proof fn lemma_recorded_status(r: RequestView, status_code: u16, description: Option<Seq<char>>)
    ensures
        recorded(
            r,
            seq![("http.response.status_code"@, ValueView::Integer(status_code as i64))] + (
            if server_error(status_code) {
                failed_fields(decimal(status_code as nat), description)
            } else {
                Seq::empty()
            }),
        ) == (RequestView {
            status_code: Some(status_code),
            error_type: if server_error(status_code) {
                Some(decimal(status_code as nat))
            } else {
                r.error_type
            },
            ..r
        }),
{
    let code = ("http.response.status_code"@, ValueView::Integer(status_code as i64));
    let none = Seq::<(Seq<char>, ValueView)>::empty();
    lemma_text_fields_differ();
    lemma_recorded_one_more(r, none, code);
    assert(none + seq![code] =~= seq![code]);
    assert(recorded(r, none) == r);
    if server_error(status_code) {
        lemma_recorded_failed(r, seq![code], decimal(status_code as nat), description);
    } else {
        assert(seq![code] + none =~= seq![code]);
    }
}

/// What a span is created with reaches the completed request: the method that is
/// reported, the path, the scheme, the protocol version, and the server's
/// address and port as far as the request names them.  Nothing else does.
pub proof fn law_started_span_reaches_metrics(
    r: RequestView,
    server: ServerInfo,
    request: RequestHead,
    request_id: Seq<char>,
    remote_addr: (Seq<char>, u16),
)
    ensures
        recorded(r, started_fields(server, request, request_id, remote_addr)) == ({
            let endpoint = named_server(request, server.https);
            RequestView {
                method: reported_method(server, request.method@),
                url_path: request.path@,
                url_scheme: scheme_text(server.https),
                protocol_version: Some(version_text(request.version)),
                server_address: match endpoint {
                    Some((address, _)) => Some(address),
                    None => r.server_address,
                },
                server_port: match endpoint {
                    Some((_, port)) => Some(port),
                    None => r.server_port,
                },
                ..r
            }
        }),
{
    let method = reported_method(server, request.method@);
    let s0 = Seq::<(Seq<char>, ValueView)>::empty();
    let kind = ("otel.kind"@, ValueView::Text("server"@));
    let s1 = s0 + seq![kind];
    let name = ("otel.name"@, ValueView::Text(method_name(method)));
    let s2 = s1 + seq![name];
    let reported = ("http.request.method"@, ValueView::Text(method));
    let s3 = s2 + seq![reported];
    let original = original_method(server, request.method@);
    let s4 = s3 + optional_attribute("http.request.method_original"@, original);
    let path = ("url.path"@, ValueView::Text(request.path@));
    let s5 = s4 + seq![path];
    let s6 = s5 + optional_attribute("url.query"@, optional_text(request.query));
    let scheme = ("url.scheme"@, ValueView::Text(scheme_text(server.https)));
    let s7 = s6 + seq![scheme];
    let version = (
        "network.protocol.version"@,
        ValueView::Text(version_text(request.version)),
    );
    let s8 = s7 + seq![version];
    let s9 = s8 + server_fields(request, server.https);
    let client = ("client.address"@, ValueView::Text(remote_addr.0));
    let s10 = s9 + seq![client];
    let peer = ("network.peer.address"@, ValueView::Text(remote_addr.0));
    let s11 = s10 + seq![peer];
    let port = ("network.peer.port"@, ValueView::Integer(remote_addr.1 as i64));
    let s12 = s11 + seq![port];
    let s13 = s12 + optional_attribute("user_agent.original"@, optional_text(request.user_agent));
    let s14 = s13 + optional_attribute(
        "http.request.header.traceparent"@,
        optional_text(request.traceparent),
    );
    let s15 = s14 + optional_attribute(
        "http.request.header.tracestate"@,
        optional_text(request.tracestate),
    );
    let id = ("dropshot.request_id"@, ValueView::Text(request_id));
    lemma_text_fields_differ();
    assert(recorded(r, s0) == r);
    lemma_recorded_span_only(r, s0, kind);
    lemma_recorded_span_only(r, s1, name);
    lemma_recorded_one_more(r, s2, reported);
    lemma_recorded_optional(r, s3, "http.request.method_original"@, original);
    lemma_recorded_one_more(r, s4, path);
    lemma_recorded_optional(r, s5, "url.query"@, optional_text(request.query));
    lemma_recorded_one_more(r, s6, scheme);
    lemma_recorded_one_more(r, s7, version);
    lemma_recorded_server(r, s8, request, server.https);
    lemma_recorded_span_only(r, s9, client);
    lemma_recorded_span_only(r, s10, peer);
    lemma_recorded_span_only(r, s11, port);
    lemma_recorded_optional(
        r,
        s12,
        "user_agent.original"@,
        optional_text(request.user_agent),
    );
    lemma_recorded_optional(
        r,
        s13,
        "http.request.header.traceparent"@,
        optional_text(request.traceparent),
    );
    lemma_recorded_optional(
        r,
        s14,
        "http.request.header.tracestate"@,
        optional_text(request.tracestate),
    );
    lemma_recorded_span_only(r, s15, id);
}

/// What recording how the client addressed the server does to a completed
/// request.
proof fn lemma_recorded_server(
    r: RequestView,
    earlier: Seq<(Seq<char>, ValueView)>,
    request: RequestHead,
    https: bool,
)
    ensures
        recorded(r, earlier + server_fields(request, https)) == (match named_server(
            request,
            https,
        ) {
            Some((address, port)) => RequestView {
                server_address: Some(address),
                server_port: Some(port),
                ..recorded(r, earlier)
            },
            None => recorded(r, earlier),
        }),
{
    match named_server(request, https) {
        Some((address, port)) => {
            let one = ("server.address"@, ValueView::Text(address));
            let two = ("server.port"@, ValueView::Integer(port as i64));
            lemma_text_fields_differ();
            lemma_recorded_one_more(r, earlier, one);
            lemma_recorded_one_more(r, earlier + seq![one], two);
            assert(earlier + server_fields(request, https) =~= earlier + seq![one] + seq![two]);
        },
        None => {
            assert(earlier + server_fields(request, https) =~= earlier);
        },
    }
}

/// Once a request was routed, its route and operation id reach the completed
/// request, and nothing else does.
pub proof fn law_routed_span_reaches_metrics(
    r: RequestView,
    method: Seq<char>,
    route: Seq<char>,
    operation_id: Seq<char>,
)
    ensures
        recorded(r, routed_fields(method, route, operation_id)) == (RequestView {
            route: Some(route),
            operation_id: Some(operation_id),
            ..r
        }),
{
    let s0 = Seq::<(Seq<char>, ValueView)>::empty();
    let name = ("otel.name"@, ValueView::Text(routed_name(method, route)));
    let path = ("http.route"@, ValueView::Text(route));
    let id = ("dropshot.operation_id"@, ValueView::Text(operation_id));
    lemma_text_fields_differ();
    assert(recorded(r, s0) == r);
    lemma_recorded_span_only(r, s0, name);
    lemma_recorded_one_more(r, s0 + seq![name], path);
    lemma_recorded_one_more(r, s0 + seq![name] + seq![path], id);
    assert(routed_fields(method, route, operation_id) =~= s0 + seq![name] + seq![path] + seq![id]);
}

/// A response reaches the completed request by its status code, which for a
/// server error is also the error type.  A client error has no error type.
pub proof fn law_response_reaches_metrics(
    r: RequestView,
    status_code: u16,
    message_external: Option<Seq<char>>,
    message_internal: Seq<char>,
)
    ensures
        ({
            let after = RequestView {
                status_code: Some(status_code),
                error_type: if server_error(status_code) {
                    Some(decimal(status_code as nat))
                } else {
                    r.error_type
                },
                ..r
            };
            &&& recorded(r, responded_fields(status_code)) == after
            &&& recorded(r, errored_fields(status_code, message_external, message_internal))
                == after
        }),
{
    lemma_recorded_status(r, status_code, None);
    lemma_recorded_status(r, status_code, Some(message_internal));
    let status = seq![("http.response.status_code"@, ValueView::Integer(status_code as i64))] + (
    if server_error(status_code) {
        failed_fields(decimal(status_code as nat), Some(message_internal))
    } else {
        Seq::empty()
    });
    let message = ("dropshot.error.message"@, ValueView::Text(message_internal));
    lemma_recorded_span_only(r, status, message);
    lemma_recorded_optional(
        r,
        status + seq![message],
        "dropshot.error.message_external"@,
        message_external,
    );
}

/// A request whose client disconnected reaches the completed request by its
/// error type alone: it has no status code.
pub proof fn law_disconnect_reaches_metrics(r: RequestView, message: Seq<char>)
    ensures
        recorded(r, disconnected_fields(message)) == (RequestView {
            error_type: Some("client_disconnect"@),
            ..r
        }),
{
    let none = Seq::<(Seq<char>, ValueView)>::empty();
    lemma_recorded_failed(r, none, "client_disconnect"@, Some(message));
    assert(none + disconnected_fields(message) =~= disconnected_fields(message));
    assert(recorded(r, none) == r);
}

/// A span is marked as failed exactly for a server error and for a client that
/// disconnected; a client error does not mark it.
pub proof fn law_only_server_errors_fail_the_span(
    status_code: u16,
    message_external: Option<Seq<char>>,
    message_internal: Seq<char>,
)
    ensures
        errored_fields(status_code, message_external, message_internal).contains(
            ("otel.status_code"@, ValueView::Text("ERROR"@)),
        ) <==> server_error(status_code),
        responded_fields(status_code).contains(("otel.status_code"@, ValueView::Text("ERROR"@)))
            <==> server_error(status_code),
{
    reveal_strlit("otel.status_code");
    reveal_strlit("http.response.status_code");
    reveal_strlit("dropshot.error.message");
    reveal_strlit("dropshot.error.message_external");
    let failed = ("otel.status_code"@, ValueView::Text("ERROR"@));
    let errored = errored_fields(status_code, message_external, message_internal);
    let responded = responded_fields(status_code);
    if server_error(status_code) {
        assert(errored[2] == failed);
        assert(responded[2] == failed);
    } else {
        assert(errored.len() <= 3);
        assert(forall|i: int| 0 <= i < errored.len() ==> #[trigger] errored[i].0.len() != 16);
        assert(responded.len() == 1 && responded[0].0.len() == 25);
        assert(failed.0.len() == 16);
    }
}

/// A known method is reported in its canonical form, and only an unknown one as
/// [`OTHER_METHOD`]: what is reported differs from what was sent in the case of
/// letters at most.
pub proof fn law_known_methods_are_reported(methods: Seq<Seq<char>>, method: Seq<char>)
    ensures
        match first_match(methods, method) {
            Some(known) => methods.contains(known) && ascii_lowered(known) == ascii_lowered(method),
            None => forall|i: int|
                0 <= i < methods.len() ==> ascii_lowered(#[trigger] methods[i]) != ascii_lowered(
                    method,
                ),
        },
    decreases methods.len(),
{
    if methods.len() > 0 && ascii_lowered(methods[0]) != ascii_lowered(method) {
        let rest = methods.skip(1);
        law_known_methods_are_reported(rest, method);
        match first_match(rest, method) {
            Some(known) => {
                let i = choose|i: int| 0 <= i < rest.len() && rest[i] == known;
                assert(methods[i + 1] == known);
            },
            None => {
                assert forall|i: int| 0 <= i < methods.len() implies ascii_lowered(
                    #[trigger] methods[i],
                ) != ascii_lowered(method) by {
                    if i > 0 {
                        assert(rest[i - 1] == methods[i]);
                    }
                }
            },
        }
    }
}

/// Recording one more field that is no trace context header changes none of the
/// headers.
proof fn lemma_headers_other(
    h: HeadersView,
    earlier: Seq<(Seq<char>, ValueView)>,
    field: (Seq<char>, ValueView),
)
    requires
        field.0.len() < 30,
    ensures
        headers_recorded(h, earlier + seq![field]) == headers_recorded(h, earlier),
{
    lemma_header_names();
    assert((earlier + seq![field]).drop_last() =~= earlier);
}

/// The same for an optional field.
proof fn lemma_headers_other_optional(
    h: HeadersView,
    earlier: Seq<(Seq<char>, ValueView)>,
    key: Seq<char>,
    value: Option<Seq<char>>,
)
    requires
        key.len() < 30,
    ensures
        headers_recorded(h, earlier + optional_attribute(key, value)) == headers_recorded(
            h,
            earlier,
        ),
{
    match value {
        Some(text) => lemma_headers_other(h, earlier, (key, ValueView::Text(text))),
        None => {
            assert(earlier + optional_attribute(key, value) =~= earlier);
        },
    }
}

/// Recording one more header, if there is one.
proof fn lemma_headers_optional(
    h: HeadersView,
    earlier: Seq<(Seq<char>, ValueView)>,
    key: Seq<char>,
    value: Option<Seq<char>>,
)
    ensures
        headers_recorded(h, earlier + optional_attribute(key, value)) == (match value {
            Some(text) => with_header(headers_recorded(h, earlier), key, text),
            None => headers_recorded(h, earlier),
        }),
{
    match value {
        Some(text) => {
            let field = (key, ValueView::Text(text));
            assert((earlier + seq![field]).drop_last() =~= earlier);
        },
        None => {
            assert(earlier + optional_attribute(key, value) =~= earlier);
        },
    }
}

/// A request's span carries its trace context: the `traceparent` header reaches
/// the span's headers where it is well-formed, and so does a `tracestate`
/// header.  Where a request has none, the headers are as they were.
pub proof fn law_started_span_carries_trace_context(
    h: HeadersView,
    server: ServerInfo,
    request: RequestHead,
    request_id: Seq<char>,
    remote_addr: (Seq<char>, u16),
)
    ensures
        headers_recorded(h, started_fields(server, request, request_id, remote_addr)) == (
        HeadersView {
            traceparent: match request.traceparent {
                Some(value) if well_formed_traceparent(value@) => Some(value@),
                _ => h.traceparent,
            },
            tracestate: match request.tracestate {
                Some(value) => Some(value@),
                None => h.tracestate,
            },
        }),
{
    let method = reported_method(server, request.method@);
    let s0 = Seq::<(Seq<char>, ValueView)>::empty();
    let kind = ("otel.kind"@, ValueView::Text("server"@));
    let s1 = s0 + seq![kind];
    let name = ("otel.name"@, ValueView::Text(method_name(method)));
    let s2 = s1 + seq![name];
    let reported = ("http.request.method"@, ValueView::Text(method));
    let s3 = s2 + seq![reported];
    let original = original_method(server, request.method@);
    let s4 = s3 + optional_attribute("http.request.method_original"@, original);
    let path = ("url.path"@, ValueView::Text(request.path@));
    let s5 = s4 + seq![path];
    let s6 = s5 + optional_attribute("url.query"@, optional_text(request.query));
    let scheme = ("url.scheme"@, ValueView::Text(scheme_text(server.https)));
    let s7 = s6 + seq![scheme];
    let version = (
        "network.protocol.version"@,
        ValueView::Text(version_text(request.version)),
    );
    let s8 = s7 + seq![version];
    let s9 = s8 + server_fields(request, server.https);
    let client = ("client.address"@, ValueView::Text(remote_addr.0));
    let s10 = s9 + seq![client];
    let peer = ("network.peer.address"@, ValueView::Text(remote_addr.0));
    let s11 = s10 + seq![peer];
    let port = ("network.peer.port"@, ValueView::Integer(remote_addr.1 as i64));
    let s12 = s11 + seq![port];
    let agent = optional_text(request.user_agent);
    let s13 = s12 + optional_attribute("user_agent.original"@, agent);
    let traceparent = optional_text(request.traceparent);
    let s14 = s13 + optional_attribute("http.request.header.traceparent"@, traceparent);
    let tracestate = optional_text(request.tracestate);
    let s15 = s14 + optional_attribute("http.request.header.tracestate"@, tracestate);
    let id = ("dropshot.request_id"@, ValueView::Text(request_id));
    lemma_span_only_names();
    lemma_text_fields_differ();
    lemma_header_names();
    assert(headers_recorded(h, s0) == h);
    lemma_headers_other(h, s0, kind);
    lemma_headers_other(h, s1, name);
    lemma_headers_other(h, s2, reported);
    lemma_headers_other_optional(h, s3, "http.request.method_original"@, original);
    lemma_headers_other(h, s4, path);
    lemma_headers_other_optional(h, s5, "url.query"@, optional_text(request.query));
    lemma_headers_other(h, s6, scheme);
    lemma_headers_other(h, s7, version);
    assert(headers_recorded(h, s9) == headers_recorded(h, s8)) by {
        match named_server(request, server.https) {
            Some((address, named_port)) => {
                let one = ("server.address"@, ValueView::Text(address));
                let two = ("server.port"@, ValueView::Integer(named_port as i64));
                lemma_headers_other(h, s8, one);
                lemma_headers_other(h, s8 + seq![one], two);
                assert(s9 =~= s8 + seq![one] + seq![two]);
            },
            None => {
                assert(s9 =~= s8);
            },
        }
    }
    lemma_headers_other(h, s9, client);
    lemma_headers_other(h, s10, peer);
    lemma_headers_other(h, s11, port);
    lemma_headers_other_optional(h, s12, "user_agent.original"@, agent);
    lemma_headers_optional(h, s13, "http.request.header.traceparent"@, traceparent);
    lemma_headers_optional(h, s14, "http.request.header.tracestate"@, tracestate);
    lemma_headers_other(h, s15, id);
}

/// The fields of a request span as the request starts, one by one.  The client is
/// the one that the request comes from; nothing is said of the address that the
/// server listens on.
pub proof fn law_fields_of_a_started_span(
    server: ServerInfo,
    request: RequestHead,
    request_id: Seq<char>,
    remote_addr: (Seq<char>, u16),
    x: (Seq<char>, ValueView),
)
    ensures
        started_fields(server, request, request_id, remote_addr).contains(x) <==> {
            let method = reported_method(server, request.method@);
            ||| x == ("otel.kind"@, ValueView::Text("server"@))
            ||| method == "_OTHER"@ && x == ("otel.name"@, ValueView::Text("HTTP"@))
            ||| method != "_OTHER"@ && x == ("otel.name"@, ValueView::Text(method))
            ||| x == ("http.request.method"@, ValueView::Text(method))
            ||| method != request.method@ && x == (
                "http.request.method_original"@,
                ValueView::Text(request.method@),
            )
            ||| x == ("url.path"@, ValueView::Text(request.path@))
            ||| request.query is Some && x == ("url.query"@, ValueView::Text(request.query->0@))
            ||| server.https && x == ("url.scheme"@, ValueView::Text("https"@))
            ||| !server.https && x == ("url.scheme"@, ValueView::Text("http"@))
            ||| request.version == HttpVersion::Http09 && x == (
                "network.protocol.version"@,
                ValueView::Text("0.9"@),
            )
            ||| request.version == HttpVersion::Http10 && x == (
                "network.protocol.version"@,
                ValueView::Text("1.0"@),
            )
            ||| request.version == HttpVersion::Http11 && x == (
                "network.protocol.version"@,
                ValueView::Text("1.1"@),
            )
            ||| request.version == HttpVersion::Http2 && x == (
                "network.protocol.version"@,
                ValueView::Text("2"@),
            )
            ||| request.version == HttpVersion::Http3 && x == (
                "network.protocol.version"@,
                ValueView::Text("3"@),
            )
            ||| named_server(request, server.https) is Some && x == (
                "server.address"@,
                ValueView::Text((named_server(request, server.https)->0).0),
            )
            ||| named_server(request, server.https) is Some && x == (
                "server.port"@,
                ValueView::Integer((named_server(request, server.https)->0).1 as i64),
            )
            ||| x == ("client.address"@, ValueView::Text(remote_addr.0))
            ||| x == ("network.peer.address"@, ValueView::Text(remote_addr.0))
            ||| x == ("network.peer.port"@, ValueView::Integer(remote_addr.1 as i64))
            ||| request.user_agent is Some && x == (
                "user_agent.original"@,
                ValueView::Text(request.user_agent->0@),
            )
            ||| request.traceparent is Some && x == (
                "http.request.header.traceparent"@,
                ValueView::Text(request.traceparent->0@),
            )
            ||| request.tracestate is Some && x == (
                "http.request.header.tracestate"@,
                ValueView::Text(request.tracestate->0@),
            )
            ||| x == ("dropshot.request_id"@, ValueView::Text(request_id))
        },
{
    let method = reported_method(server, request.method@);
    let s0 = Seq::<(Seq<char>, ValueView)>::empty();
    let kind = ("otel.kind"@, ValueView::Text("server"@));
    let s1 = s0 + seq![kind];
    let name = ("otel.name"@, ValueView::Text(method_name(method)));
    let s2 = s1 + seq![name];
    let reported = ("http.request.method"@, ValueView::Text(method));
    let s3 = s2 + seq![reported];
    let original = original_method(server, request.method@);
    let s4 = s3 + optional_attribute("http.request.method_original"@, original);
    let path = ("url.path"@, ValueView::Text(request.path@));
    let s5 = s4 + seq![path];
    let query = optional_text(request.query);
    let s6 = s5 + optional_attribute("url.query"@, query);
    let scheme = ("url.scheme"@, ValueView::Text(scheme_text(server.https)));
    let s7 = s6 + seq![scheme];
    let version = (
        "network.protocol.version"@,
        ValueView::Text(version_text(request.version)),
    );
    let s8 = s7 + seq![version];
    let s9 = s8 + server_fields(request, server.https);
    let client = ("client.address"@, ValueView::Text(remote_addr.0));
    let s10 = s9 + seq![client];
    let peer = ("network.peer.address"@, ValueView::Text(remote_addr.0));
    let s11 = s10 + seq![peer];
    let port = ("network.peer.port"@, ValueView::Integer(remote_addr.1 as i64));
    let s12 = s11 + seq![port];
    let agent = optional_text(request.user_agent);
    let s13 = s12 + optional_attribute("user_agent.original"@, agent);
    let traceparent = optional_text(request.traceparent);
    let s14 = s13 + optional_attribute("http.request.header.traceparent"@, traceparent);
    let tracestate = optional_text(request.tracestate);
    let s15 = s14 + optional_attribute("http.request.header.tracestate"@, tracestate);
    let id = ("dropshot.request_id"@, ValueView::Text(request_id));
    lemma_contains_one_more(s0, kind, x);
    lemma_contains_one_more(s1, name, x);
    lemma_contains_one_more(s2, reported, x);
    lemma_contains_optional(s3, "http.request.method_original"@, original, x);
    lemma_contains_one_more(s4, path, x);
    lemma_contains_optional(s5, "url.query"@, query, x);
    lemma_contains_one_more(s6, scheme, x);
    lemma_contains_one_more(s7, version, x);
    assert(s9.contains(x) <==> {
        ||| s8.contains(x)
        ||| named_server(request, server.https) is Some && x == (
            "server.address"@,
            ValueView::Text((named_server(request, server.https)->0).0),
        )
        ||| named_server(request, server.https) is Some && x == (
            "server.port"@,
            ValueView::Integer((named_server(request, server.https)->0).1 as i64),
        )
    }) by {
        match named_server(request, server.https) {
            Some((address, named_port)) => {
                let one = ("server.address"@, ValueView::Text(address));
                let two = ("server.port"@, ValueView::Integer(named_port as i64));
                lemma_contains_one_more(s8, one, x);
                lemma_contains_one_more(s8 + seq![one], two, x);
                assert(s9 =~= s8 + seq![one] + seq![two]);
            },
            None => {
                assert(s9 =~= s8);
            },
        }
    }
    lemma_contains_one_more(s9, client, x);
    lemma_contains_one_more(s10, peer, x);
    lemma_contains_one_more(s11, port, x);
    lemma_contains_optional(s12, "user_agent.original"@, agent, x);
    lemma_contains_optional(s13, "http.request.header.traceparent"@, traceparent, x);
    lemma_contains_optional(s14, "http.request.header.tracestate"@, tracestate, x);
    lemma_contains_one_more(s15, id, x);
    assert(started_fields(server, request, request_id, remote_addr) == s15 + seq![id]);
}

/// How many fields a request span has as the request starts: each of them once.
pub proof fn law_each_field_once(
    server: ServerInfo,
    request: RequestHead,
    request_id: Seq<char>,
    remote_addr: (Seq<char>, u16),
)
    ensures
        started_fields(server, request, request_id, remote_addr).len() == 10 + (
        if reported_method(server, request.method@) != request.method@ {
            1int
        } else {
            0
        }) + (if request.query is Some {
            1int
        } else {
            0
        }) + (if named_server(request, server.https) is Some {
            2int
        } else {
            0
        }) + (if request.user_agent is Some {
            1int
        } else {
            0
        }) + (if request.traceparent is Some {
            1int
        } else {
            0
        }) + (if request.tracestate is Some {
            1int
        } else {
            0
        }),
{
}

/// A span says where its client is: its address and its port are those that the
/// request comes from, and no others.
pub proof fn law_span_names_the_client(
    server: ServerInfo,
    request: RequestHead,
    request_id: Seq<char>,
    remote_addr: (Seq<char>, u16),
    value: ValueView,
)
    ensures
        ({
            let fields = started_fields(server, request, request_id, remote_addr);
            &&& fields.contains(("client.address"@, value)) <==> value == ValueView::Text(
                remote_addr.0,
            )
            &&& fields.contains(("network.peer.address"@, value)) <==> value == ValueView::Text(
                remote_addr.0,
            )
            &&& fields.contains(("network.peer.port"@, value)) <==> value == ValueView::Integer(
                remote_addr.1 as i64,
            )
            &&& !fields.contains(("client.port"@, value))
        }),
{
    reveal_strlit("client.port");
    lemma_span_only_names();
    lemma_text_fields_differ();
    assert("client.port"@[0] == 'c');
    assert("server.port"@[0] == 's') by {
        reveal_strlit("server.port");
    }
    law_fields_of_a_started_span(server, request, request_id, remote_addr, ("client.address"@, value));
    law_fields_of_a_started_span(
        server,
        request,
        request_id,
        remote_addr,
        ("network.peer.address"@, value),
    );
    law_fields_of_a_started_span(
        server,
        request,
        request_id,
        remote_addr,
        ("network.peer.port"@, value),
    );
    law_fields_of_a_started_span(server, request, request_id, remote_addr, ("client.port"@, value));
}

/// Where the server listens makes no difference to a span.
pub proof fn law_span_does_not_depend_on_the_listening_address(
    server: ServerInfo,
    other: ServerInfo,
    request: RequestHead,
    request_id: Seq<char>,
    remote_addr: (Seq<char>, u16),
)
    requires
        server.https == other.https,
        server.methods == other.methods,
    ensures
        started_fields(server, request, request_id, remote_addr) == started_fields(
            other,
            request,
            request_id,
            remote_addr,
        ),
{
}

/// Once a request was routed, its span is named for its method and its route,
/// and has the route and the operation id.
pub proof fn law_fields_of_a_routed_span(
    method: Seq<char>,
    route: Seq<char>,
    operation_id: Seq<char>,
    x: (Seq<char>, ValueView),
)
    ensures
        routed_fields(method, route, operation_id).len() == 3,
        routed_fields(method, route, operation_id).contains(x) <==> {
            ||| method != "_OTHER"@ && x == (
                "otel.name"@,
                ValueView::Text(method.push(' ') + route),
            )
            ||| method == "_OTHER"@ && x == (
                "otel.name"@,
                ValueView::Text(seq!['H', 'T', 'T', 'P', ' '] + route),
            )
            ||| x == ("http.route"@, ValueView::Text(route))
            ||| x == ("dropshot.operation_id"@, ValueView::Text(operation_id))
        },
{
    reveal_strlit(" ");
    reveal_strlit("HTTP");
    let none = Seq::<(Seq<char>, ValueView)>::empty();
    let name = ("otel.name"@, ValueView::Text(routed_name(method, route)));
    let path = ("http.route"@, ValueView::Text(route));
    let id = ("dropshot.operation_id"@, ValueView::Text(operation_id));
    if method == "_OTHER"@ {
        assert(routed_name(method, route) =~= seq!['H', 'T', 'T', 'P', ' '] + route);
    } else {
        assert(routed_name(method, route) =~= method.push(' ') + route);
    }
    lemma_contains_one_more(none, name, x);
    lemma_contains_one_more(none + seq![name], path, x);
    lemma_contains_one_more(none + seq![name] + seq![path], id, x);
    assert(routed_fields(method, route, operation_id) =~= none + seq![name] + seq![path] + seq![
        id,
    ]);
}

/// What is among fields with those of a failed span added.
proof fn lemma_contains_failed(
    earlier: Seq<(Seq<char>, ValueView)>,
    error_type: Seq<char>,
    description: Option<Seq<char>>,
    x: (Seq<char>, ValueView),
)
    ensures
        (earlier + failed_fields(error_type, description)).contains(x) <==> {
            ||| earlier.contains(x)
            ||| x == ("error.type"@, ValueView::Text(error_type))
            ||| x == ("otel.status_code"@, ValueView::Text("ERROR"@))
            ||| description is Some && x == (
                "otel.status_description"@,
                ValueView::Text(description->0),
            )
        },
{
    let one = ("error.type"@, ValueView::Text(error_type));
    let two = ("otel.status_code"@, ValueView::Text("ERROR"@));
    lemma_contains_one_more(earlier, one, x);
    lemma_contains_one_more(earlier + seq![one], two, x);
    lemma_contains_optional(
        earlier + seq![one] + seq![two],
        "otel.status_description"@,
        description,
        x,
    );
    assert(earlier + failed_fields(error_type, description) =~= earlier + seq![one] + seq![two]
        + optional_attribute("otel.status_description"@, description));
}

/// What is among the fields for a status code.
proof fn lemma_contains_status(
    status_code: u16,
    description: Option<Seq<char>>,
    x: (Seq<char>, ValueView),
)
    ensures
        (seq![("http.response.status_code"@, ValueView::Integer(status_code as i64))] + (
        if server_error(status_code) {
            failed_fields(decimal(status_code as nat), description)
        } else {
            Seq::empty()
        })).contains(x) <==> {
            ||| x == ("http.response.status_code"@, ValueView::Integer(status_code as i64))
            ||| 500 <= status_code <= 599 && x == (
                "error.type"@,
                ValueView::Text(decimal(status_code as nat)),
            )
            ||| 500 <= status_code <= 599 && x == (
                "otel.status_code"@,
                ValueView::Text("ERROR"@),
            )
            ||| 500 <= status_code <= 599 && description is Some && x == (
                "otel.status_description"@,
                ValueView::Text(description->0),
            )
        },
{
    let none = Seq::<(Seq<char>, ValueView)>::empty();
    let code = ("http.response.status_code"@, ValueView::Integer(status_code as i64));
    lemma_contains_one_more(none, code, x);
    assert(none + seq![code] =~= seq![code]);
    if server_error(status_code) {
        lemma_contains_failed(seq![code], decimal(status_code as nat), description, x);
    } else {
        assert(seq![code] + none =~= seq![code]);
    }
}

/// A response is recorded by its status code.  For a status from 500 to 599 alone
/// the span also has failed, and its error type is the code.
pub proof fn law_fields_of_a_response(status_code: u16, x: (Seq<char>, ValueView))
    ensures
        responded_fields(status_code).contains(x) <==> {
            ||| x == ("http.response.status_code"@, ValueView::Integer(status_code as i64))
            ||| 500 <= status_code <= 599 && x == (
                "error.type"@,
                ValueView::Text(decimal(status_code as nat)),
            )
            ||| 500 <= status_code <= 599 && x == (
                "otel.status_code"@,
                ValueView::Text("ERROR"@),
            )
        },
        responded_fields(status_code).len() == (if 500 <= status_code <= 599 {
            3int
        } else {
            1
        }),
{
    lemma_contains_status(status_code, None, x);
}

/// An error response is recorded by its status code and its messages, the
/// external one only where there is one.  For a status from 500 to 599 alone the
/// span also has failed: its error type is the code, and it is described by the
/// internal message.
pub proof fn law_fields_of_an_error_response(
    status_code: u16,
    message_external: Option<Seq<char>>,
    message_internal: Seq<char>,
    x: (Seq<char>, ValueView),
)
    ensures
        errored_fields(status_code, message_external, message_internal).contains(x) <==> {
            ||| x == ("http.response.status_code"@, ValueView::Integer(status_code as i64))
            ||| 500 <= status_code <= 599 && x == (
                "error.type"@,
                ValueView::Text(decimal(status_code as nat)),
            )
            ||| 500 <= status_code <= 599 && x == (
                "otel.status_code"@,
                ValueView::Text("ERROR"@),
            )
            ||| 500 <= status_code <= 599 && x == (
                "otel.status_description"@,
                ValueView::Text(message_internal),
            )
            ||| x == ("dropshot.error.message"@, ValueView::Text(message_internal))
            ||| message_external is Some && x == (
                "dropshot.error.message_external"@,
                ValueView::Text(message_external->0),
            )
        },
        errored_fields(status_code, message_external, message_internal).len() == (if 500
            <= status_code <= 599 {
            5int
        } else {
            2
        }) + (if message_external is Some {
            1int
        } else {
            0
        }),
{
    lemma_contains_status(status_code, Some(message_internal), x);
    let status = seq![("http.response.status_code"@, ValueView::Integer(status_code as i64))] + (
    if server_error(status_code) {
        failed_fields(decimal(status_code as nat), Some(message_internal))
    } else {
        Seq::empty()
    });
    let message = ("dropshot.error.message"@, ValueView::Text(message_internal));
    lemma_contains_one_more(status, message, x);
    lemma_contains_optional(
        status + seq![message],
        "dropshot.error.message_external"@,
        message_external,
        x,
    );
}

/// A client that disconnected is recorded as a failure of its own type, without a
/// status code.
pub proof fn law_fields_of_a_disconnect(message: Seq<char>, x: (Seq<char>, ValueView))
    ensures
        disconnected_fields(message).len() == 3,
        disconnected_fields(message).contains(x) <==> {
            ||| x == ("error.type"@, ValueView::Text("client_disconnect"@))
            ||| x == ("otel.status_code"@, ValueView::Text("ERROR"@))
            ||| x == ("otel.status_description"@, ValueView::Text(message))
        },
{
    let none = Seq::<(Seq<char>, ValueView)>::empty();
    lemma_contains_failed(none, "client_disconnect"@, Some(message), x);
    assert(none + disconnected_fields(message) =~= disconnected_fields(message));
}

/// A status from 500 to 599 is written with its three digits.
pub proof fn law_error_type_is_the_code(status_code: u16)
    requires
        500 <= status_code <= 599,
    ensures
        decimal(status_code as nat) == seq![
            '5',
            digit_of((status_code as int / 10) % 10),
            digit_of(status_code as int % 10),
        ],
{
    let n = status_code as nat;
    assert(n / 10 / 10 == 5);
    assert(decimal(5) =~= seq!['5']);
    assert(decimal(n / 10) =~= seq!['5', digit_of((status_code as int / 10) % 10)]);
    assert(decimal(n) =~= seq![
        '5',
        digit_of((status_code as int / 10) % 10),
        digit_of(status_code as int % 10),
    ]);
}

/// The character for a decimal digit.
pub open spec fn digit_of(digit: int) -> char {
    if digit == 0 {
        '0'
    } else if digit == 1 {
        '1'
    } else if digit == 2 {
        '2'
    } else if digit == 3 {
        '3'
    } else if digit == 4 {
        '4'
    } else if digit == 5 {
        '5'
    } else if digit == 6 {
        '6'
    } else if digit == 7 {
        '7'
    } else if digit == 8 {
        '8'
    } else {
        '9'
    }
}

/// The first of several methods that match is the one that is found.
proof fn lemma_first_match_at(methods: Seq<Seq<char>>, method: Seq<char>, i: int)
    requires
        0 <= i < methods.len(),
        ascii_lowered(methods[i]) == ascii_lowered(method),
        forall|j: int|
            0 <= j < i ==> ascii_lowered(#[trigger] methods[j]) != ascii_lowered(method),
    ensures
        first_match(methods, method) == Some(methods[i]),
    decreases methods.len(),
{
    if i > 0 {
        let rest = methods.skip(1);
        assert(ascii_lowered(methods[0]) != ascii_lowered(method));
        assert forall|j: int| 0 <= j < i - 1 implies ascii_lowered(#[trigger] rest[j])
            != ascii_lowered(method) by {
            assert(rest[j] == methods[j + 1]);
        }
        lemma_first_match_at(rest, method, i - 1);
    }
}

/// The standard methods in small letters.
proof fn lemma_standard_methods()
    ensures
        ascii_lowered("GET"@) == seq!['g', 'e', 't'],
        ascii_lowered("HEAD"@) == seq!['h', 'e', 'a', 'd'],
        ascii_lowered("POST"@) == seq!['p', 'o', 's', 't'],
        ascii_lowered("PUT"@) == seq!['p', 'u', 't'],
        ascii_lowered("DELETE"@) == seq!['d', 'e', 'l', 'e', 't', 'e'],
        ascii_lowered("CONNECT"@) == seq!['c', 'o', 'n', 'n', 'e', 'c', 't'],
        ascii_lowered("OPTIONS"@) == seq!['o', 'p', 't', 'i', 'o', 'n', 's'],
        ascii_lowered("TRACE"@) == seq!['t', 'r', 'a', 'c', 'e'],
        ascii_lowered("PATCH"@) == seq!['p', 'a', 't', 'c', 'h'],
{
    reveal_strlit("GET");
    reveal_strlit("HEAD");
    reveal_strlit("POST");
    reveal_strlit("PUT");
    reveal_strlit("DELETE");
    reveal_strlit("CONNECT");
    reveal_strlit("OPTIONS");
    reveal_strlit("TRACE");
    reveal_strlit("PATCH");
    assert(ascii_lowered("GET"@) =~= seq!['g', 'e', 't']);
    assert(ascii_lowered("HEAD"@) =~= seq!['h', 'e', 'a', 'd']);
    assert(ascii_lowered("POST"@) =~= seq!['p', 'o', 's', 't']);
    assert(ascii_lowered("PUT"@) =~= seq!['p', 'u', 't']);
    assert(ascii_lowered("DELETE"@) =~= seq!['d', 'e', 'l', 'e', 't', 'e']);
    assert(ascii_lowered("CONNECT"@) =~= seq!['c', 'o', 'n', 'n', 'e', 'c', 't']);
    assert(ascii_lowered("OPTIONS"@) =~= seq!['o', 'p', 't', 'i', 'o', 'n', 's']);
    assert(ascii_lowered("TRACE"@) =~= seq!['t', 'r', 'a', 'c', 'e']);
    assert(ascii_lowered("PATCH"@) =~= seq!['p', 'a', 't', 'c', 'h']);
}

/// A standard method is reported in its canonical form, whatever the case of its
/// letters and whatever methods the server handles.
pub proof fn law_standard_methods_are_known(server: ServerInfo, method: Seq<char>)
    ensures
        ascii_lowered(method) == seq!['g', 'e', 't'] ==> reported_method(server, method) == "GET"@,
        ascii_lowered(method) == seq!['h', 'e', 'a', 'd'] ==> reported_method(server, method)
            == "HEAD"@,
        ascii_lowered(method) == seq!['p', 'o', 's', 't'] ==> reported_method(server, method)
            == "POST"@,
        ascii_lowered(method) == seq!['p', 'u', 't'] ==> reported_method(server, method) == "PUT"@,
        ascii_lowered(method) == seq!['d', 'e', 'l', 'e', 't', 'e'] ==> reported_method(
            server,
            method,
        ) == "DELETE"@,
        ascii_lowered(method) == seq!['c', 'o', 'n', 'n', 'e', 'c', 't'] ==> reported_method(
            server,
            method,
        ) == "CONNECT"@,
        ascii_lowered(method) == seq!['o', 'p', 't', 'i', 'o', 'n', 's'] ==> reported_method(
            server,
            method,
        ) == "OPTIONS"@,
        ascii_lowered(method) == seq!['t', 'r', 'a', 'c', 'e'] ==> reported_method(server, method)
            == "TRACE"@,
        ascii_lowered(method) == seq!['p', 'a', 't', 'c', 'h'] ==> reported_method(server, method)
            == "PATCH"@,
{
    lemma_standard_methods();
    let known = known_methods(server);
    let lowered = ascii_lowered(method);
    assert(known[0] == "GET"@ && known[1] == "HEAD"@ && known[2] == "POST"@ && known[3] == "PUT"@);
    assert(known[4] == "DELETE"@ && known[5] == "CONNECT"@ && known[6] == "OPTIONS"@);
    assert(known[7] == "TRACE"@ && known[8] == "PATCH"@);
    let get = seq!['g', 'e', 't'];
    let head = seq!['h', 'e', 'a', 'd'];
    let post = seq!['p', 'o', 's', 't'];
    let put = seq!['p', 'u', 't'];
    assert(get[0] == 'g' && put[0] == 'p' && head[0] == 'h' && post[0] == 'p');
    let connect = seq!['c', 'o', 'n', 'n', 'e', 'c', 't'];
    let options = seq!['o', 'p', 't', 'i', 'o', 'n', 's'];
    assert(connect[0] == 'c' && options[0] == 'o');
    let trace = seq!['t', 'r', 'a', 'c', 'e'];
    let patch = seq!['p', 'a', 't', 'c', 'h'];
    assert(trace[0] == 't' && patch[0] == 'p');
    if lowered == get {
        lemma_first_match_at(known, method, 0);
    }
    if lowered == head {
        lemma_first_match_at(known, method, 1);
    }
    if lowered == post {
        lemma_first_match_at(known, method, 2);
    }
    if lowered == put {
        lemma_first_match_at(known, method, 3);
    }
    if lowered == seq!['d', 'e', 'l', 'e', 't', 'e'] {
        lemma_first_match_at(known, method, 4);
    }
    if lowered == connect {
        lemma_first_match_at(known, method, 5);
    }
    if lowered == options {
        lemma_first_match_at(known, method, 6);
    }
    if lowered == trace {
        lemma_first_match_at(known, method, 7);
    }
    if lowered == patch {
        lemma_first_match_at(known, method, 8);
    }
}

/// Any other method is reported as the first of the methods that the server
/// handles and that differ from it in the case of letters at most, and as
/// `_OTHER` if there is none.
pub proof fn law_other_methods_are_known_if_handled(server: ServerInfo, method: Seq<char>, i: int)
    requires
        ascii_lowered(method) != seq!['g', 'e', 't'],
        ascii_lowered(method) != seq!['h', 'e', 'a', 'd'],
        ascii_lowered(method) != seq!['p', 'o', 's', 't'],
        ascii_lowered(method) != seq!['p', 'u', 't'],
        ascii_lowered(method) != seq!['d', 'e', 'l', 'e', 't', 'e'],
        ascii_lowered(method) != seq!['c', 'o', 'n', 'n', 'e', 'c', 't'],
        ascii_lowered(method) != seq!['o', 'p', 't', 'i', 'o', 'n', 's'],
        ascii_lowered(method) != seq!['t', 'r', 'a', 'c', 'e'],
        ascii_lowered(method) != seq!['p', 'a', 't', 'c', 'h'],
    ensures
        0 <= i < server.methods@.len() && ascii_lowered(server.methods@[i]@) == ascii_lowered(
            method,
        ) && (forall|j: int|
            0 <= j < i ==> ascii_lowered((#[trigger] server.methods@[j])@) != ascii_lowered(
                method,
            )) ==> reported_method(server, method) == server.methods@[i]@,
        (forall|j: int|
            0 <= j < server.methods@.len() ==> ascii_lowered((#[trigger] server.methods@[j])@)
                != ascii_lowered(method)) ==> reported_method(server, method) == "_OTHER"@,
{
    lemma_standard_methods();
    let known = known_methods(server);
    assert(known.len() == 9 + server.methods@.len());
    assert(known[0] == "GET"@ && known[1] == "HEAD"@ && known[2] == "POST"@ && known[3] == "PUT"@);
    assert(known[4] == "DELETE"@ && known[5] == "CONNECT"@ && known[6] == "OPTIONS"@);
    assert(known[7] == "TRACE"@ && known[8] == "PATCH"@);
    assert forall|k: int| 0 <= k < 9 implies ascii_lowered(#[trigger] known[k]) != ascii_lowered(
        method,
    ) by {
        assert(k == 0 || k == 1 || k == 2 || k == 3 || k == 4 || k == 5 || k == 6 || k == 7 || k
            == 8);
    }
    if 0 <= i < server.methods@.len() && ascii_lowered(server.methods@[i]@) == ascii_lowered(method)
        && (forall|j: int|
        0 <= j < i ==> ascii_lowered((#[trigger] server.methods@[j])@) != ascii_lowered(method)) {
        assert(known[9 + i] == server.methods@[i]@);
        assert forall|k: int| 0 <= k < 9 + i implies ascii_lowered(#[trigger] known[k])
            != ascii_lowered(method) by {
            if k >= 9 {
                assert(known[k] == server.methods@[k - 9]@);
            }
        }
        lemma_first_match_at(known, method, 9 + i);
    }
    if forall|j: int|
        0 <= j < server.methods@.len() ==> ascii_lowered((#[trigger] server.methods@[j])@)
            != ascii_lowered(method) {
        law_known_methods_are_reported(known, method);
        if first_match(known, method) is Some {
            let k = choose|k: int| 0 <= k < known.len() && known[k] == first_match(known, method)->0;
            if k >= 9 {
                assert(known[k] == server.methods@[k - 9]@);
            }
        }
    }
}

/// Decimal digits are read from the first to the last, each worth ten of the
/// next.
pub proof fn law_decimal_numbers(digits: Seq<char>, c: char)
    requires
        '0' <= c <= '9',
    ensures
        decimal_value(Seq::empty()) == 0,
        decimal_value(digits.push(c)) == 10 * decimal_value(digits) + (c as u32 - 48),
{
    assert(digits.push(c).drop_last() =~= digits);
}

/// A number is read from its digits as it was written.
pub proof fn law_numbers_are_read_as_written(n: nat)
    ensures
        decimal(n).len() > 0,
        all_digits(decimal(n)),
        decimal_value(decimal(n)) == n,
    decreases n,
{
    if n < 10 {
        assert(decimal(n).drop_last() =~= Seq::empty());
        assert(decimal_value(decimal(n).drop_last()) == 0);
    } else {
        law_numbers_are_read_as_written(n / 10);
        assert(decimal(n).drop_last() =~= decimal(n / 10));
        assert forall|i: int| 0 <= i < decimal(n).len() implies '0' <= #[trigger] decimal(n)[i]
            <= '9' by {
            if i < decimal(n / 10).len() {
                assert(decimal(n)[i] == decimal(n / 10)[i]);
            }
        }
    }
}

/// A host that names no port stands for its own name and the scheme's port: 443
/// for HTTPS and 80 otherwise.  One that names a port stands for its own name
/// and that port.
pub proof fn law_hosts_are_read_as_written(address: Seq<char>, port: u16, https: bool)
    requires
        address.len() > 0,
        address[0] != '[',
        forall|i: int| 0 <= i < address.len() ==> #[trigger] address[i] != ':',
    ensures
        server_endpoint(address, https) == Some(
            (
                address,
                if https {
                    443u16
                } else {
                    80u16
                },
            ),
        ),
        server_endpoint(address + seq![':'] + decimal(port as nat), https) == Some((address, port)),
{
    let digits = decimal(port as nat);
    let host = address + seq![':'] + digits;
    law_numbers_are_read_as_written(port as nat);
    law_fields_end_at_separators(address, ':', digits);
    assert forall|i: int| 0 <= i < digits.len() implies #[trigger] digits[i] != ':' by {
        assert('0' <= digits[i] <= '9');
    }
    law_fields_end_at_separators(digits, ':', Seq::empty());
    assert(fields_at(host, ':') =~= seq![address, digits]);
    assert(host[0] == address[0]);
}

/// An address in brackets stands for itself, without them, and a port may follow.
pub proof fn law_bracketed_hosts_are_read_as_written(
    address: Seq<char>,
    port: u16,
    https: bool,
)
    requires
        address.len() > 0,
        forall|i: int| 0 <= i < address.len() ==> #[trigger] address[i] != ']',
    ensures
        server_endpoint(seq!['['] + address + seq![']'], https) == Some(
            (
                address,
                if https {
                    443u16
                } else {
                    80u16
                },
            ),
        ),
        server_endpoint(
            seq!['['] + address + seq![']'] + seq![':'] + decimal(port as nat),
            https,
        ) == Some((address, port)),
{
    let digits = decimal(port as nat);
    let first = seq!['['] + address;
    let plain = seq!['['] + address + seq![']'];
    let rest = seq![':'] + digits;
    let host = seq!['['] + address + seq![']'] + seq![':'] + digits;
    law_numbers_are_read_as_written(port as nat);
    assert forall|i: int| 0 <= i < first.len() implies #[trigger] first[i] != ']' by {
        if i > 0 {
            assert(first[i] == address[i - 1]);
        }
    }
    assert(first.skip(1) =~= address);
    law_fields_end_at_separators(first, ']', Seq::empty());
    assert(plain =~= first + seq![']'] + Seq::<char>::empty());
    assert(fields_at(plain, ']') =~= seq![first, Seq::<char>::empty()]);
    assert(plain[0] == '[');
    law_fields_end_at_separators(first, ']', rest);
    assert(host =~= first + seq![']'] + rest);
    assert forall|i: int| 0 <= i < rest.len() implies #[trigger] rest[i] != ']' by {
        if i > 0 {
            assert(rest[i] == digits[i - 1]);
            assert('0' <= digits[i - 1] <= '9');
        }
    }
    law_fields_end_at_separators(rest, ']', Seq::empty());
    assert(fields_at(host, ']') =~= seq![first, rest]);
    assert(rest.skip(1) =~= digits);
    assert(host[0] == '[');
}

/// Whether a text behind a colon names a port, or is empty and leaves it to the
/// scheme.
pub open spec fn names_port(text: Seq<char>, port: u16, https: bool) -> bool {
    ||| text.len() == 0 && port == (if https {
        443u16
    } else {
        80u16
    })
    ||| {
        &&& text.len() > 0
        &&& forall|i: int| 0 <= i < text.len() ==> '0' <= #[trigger] text[i] <= '9'
        &&& decimal_value(text) == port
    }
}

/// Nothing else names a server: a host stands for an address and a port only if
/// it begins with the address, in brackets or without a colon in it, and has
/// nothing behind it but a colon and the port.
pub proof fn law_only_hosts_name_a_server(
    host: Seq<char>,
    https: bool,
    address: Seq<char>,
    port: u16,
)
    requires
        server_endpoint(host, https) == Some((address, port)),
    ensures
        address.len() > 0,
        host[0] != '[' ==> {
            let end = address.len() as int;
            &&& host.len() >= end
            &&& host.take(end) == address
            &&& host.len() == end ==> names_port(Seq::empty(), port, https)
            &&& host.len() > end ==> host[end] == ':' && names_port(
                host.skip(end + 1),
                port,
                https,
            )
        },
        host[0] == '[' ==> {
            let end = 1 + address.len() as int;
            &&& host.len() > end
            &&& host.subrange(1, end) == address
            &&& host[end] == ']'
            &&& host.len() == end + 1 ==> names_port(Seq::empty(), port, https)
            &&& host.len() > end + 1 ==> host[end + 1] == ':' && names_port(
                host.skip(end + 2),
                port,
                https,
            )
        },
{
    lemma_first_field(host, ':');
    lemma_first_field(host, ']');
    if host.len() > 0 && host[0] == '[' {
        let parts = fields_at(host, ']');
        assert(parts.len() == 2);
        lemma_first_of_several(host, ']');
        let end = parts[0].len() as int;
        let rest = host.skip(end + 1);
        assert(parts.skip(1)[0] == parts[1]);
        lemma_only_field(rest, ']');
        assert(rest == parts[1]);
        assert(address == parts[0].skip(1));
        assert(host.subrange(1, end) =~= address);
        if parts[1].len() > 0 {
            assert(host[end + 1] == rest[0]);
            assert(rest.skip(1) =~= host.skip(end + 2));
        }
    } else {
        let parts = fields_at(host, ':');
        if parts.len() == 1 {
            lemma_only_field(host, ':');
            assert(host.take(address.len() as int) =~= address);
        } else {
            assert(parts.len() == 2);
            lemma_first_of_several(host, ':');
            let end = parts[0].len() as int;
            let rest = host.skip(end + 1);
            assert(parts.skip(1)[0] == parts[1]);
            lemma_only_field(rest, ':');
            assert(rest == parts[1]);
        }
    }
}

/// A request names the server by its target's authority, whatever its `Host`
/// header is, and by that header only if its target has none.  What stands
/// before an `@` in an authority is no part of the name.
pub proof fn law_authority_comes_first(
    request: RequestHead,
    user: Seq<char>,
    host: Seq<char>,
    https: bool,
)
    requires
        forall|i: int| 0 <= i < host.len() ==> #[trigger] host[i] != '@',
    ensures
        request.authority is Some && request.authority->0@ == host ==> named_server(request, https)
            == server_endpoint(host, https),
        request.authority is Some && request.authority->0@ == user + seq!['@'] + host
            ==> named_server(request, https) == server_endpoint(host, https),
        request.authority is None && request.host is Some ==> named_server(request, https)
            == server_endpoint(request.host->0@, https),
        request.authority is None && request.host is None ==> named_server(request, https) is None,
{
    law_fields_end_at_separators(host, '@', Seq::empty());
    law_last_field_follows_last_separator(user, '@', host);
    assert(seq![host].last() == host);
    assert(fields_at(user, '@').push(host).last() == host);
}

} // verus!
