//! Per-request instrumentation.
//!
//! The request path reports a small, fixed set of events: a request starts, it
//! may be routed to an endpoint, and then it either completes with a status
//! code, completes with an error, or is cancelled because the client
//! disconnected.  Each event is reported to probes and recorded on the request's
//! span; what is reported and recorded is decided here.

use crate::attribute::Attribute;
#[allow(unused_imports)]
use crate::attribute::attribute_views;
use crate::request_span::{
    disconnected_span, errored_span, report_method, responded_span, routed_span, started_span,
    RequestHead, ServerInfo, SocketAddress,
};
#[allow(unused_imports)]
use crate::request_span::{
    disconnected_fields, errored_fields, reported_method, responded_fields, routed_fields,
    started_fields,
};
#[allow(unused_imports)]
use crate::text::optional_text;
use vstd::prelude::*;

verus! {

/// The status that is reported for a request whose client disconnected before
/// there was a response: a non-standard code popularized by nginx.
pub const DISCONNECTED_STATUS: u16 = 499;

/// The message that is reported for a request whose client disconnected before
/// there was a response.
pub const DISCONNECTED_MESSAGE: &'static str = "client disconnected before response returned";

/// What is reported as a request starts.
#[derive(Clone, Debug)]
pub struct RequestInfo {
    pub id: String,
    pub local_addr: SocketAddress,
    pub remote_addr: SocketAddress,
    pub method: String,
    pub path: String,
    pub query: Option<String>,
}

/// What is reported as a request is done.
#[derive(Clone, Debug)]
pub struct ResponseInfo {
    pub id: String,
    pub local_addr: SocketAddress,
    pub remote_addr: SocketAddress,
    pub status_code: u16,
    pub message: String,
}

/// Instrumentation handle for a single HTTP request.
///
/// Created just before the request is routed and dispatched.  Callers report
/// the request's final disposition through exactly one of the completion
/// methods.
#[derive(Debug)]
pub struct RequestInstrumentation<'a> {
    request_id: &'a str,
    local_addr: SocketAddress,
    remote_addr: SocketAddress,
    method: String,
}

/// A request that has started.
#[derive(Debug)]
pub struct StartedRequest<'a> {
    /// The handle for the request's further events.
    pub instrumentation: RequestInstrumentation<'a>,
    /// What is reported.
    pub info: RequestInfo,
    /// The fields of the request's span.
    pub span: Vec<Attribute>,
}

/// A request that is done.
#[derive(Debug)]
pub struct Completion {
    /// What is reported.
    pub info: ResponseInfo,
    /// The fields to record on the request's span.
    pub span: Vec<Attribute>,
}

/// Whether a report is about the request of this instrumentation handle, with
/// this status and this message.
pub open spec fn reports(
    info: ResponseInfo,
    request: RequestInstrumentation,
    status_code: u16,
    message: Seq<char>,
) -> bool {
    &&& info.id@ == request.request_id()
    &&& info.local_addr@ == request.local_addr()
    &&& info.remote_addr@ == request.remote_addr()
    &&& info.status_code == status_code
    &&& info.message@ == message
}

impl<'a> RequestInstrumentation<'a> {
    /// The id of the request.
    pub closed spec fn request_id(self) -> Seq<char> {
        self.request_id@
    }

    /// The server's address.
    pub closed spec fn local_addr(self) -> (Seq<char>, u16) {
        self.local_addr@
    }

    /// The client's address.
    pub closed spec fn remote_addr(self) -> (Seq<char>, u16) {
        self.remote_addr@
    }

    /// The method that the request's span reports.
    pub closed spec fn method(self) -> Seq<char> {
        self.method@
    }

    /// Returns the instrumentation handle for a request, what is reported as the
    /// request starts, and the fields that its span is created with.
    pub fn start(
        server: &ServerInfo,
        request: &RequestHead,
        request_id: &'a str,
        remote_addr: SocketAddress,
    ) -> (r: StartedRequest<'a>)
        ensures
            r.instrumentation.request_id() == request_id@,
            r.instrumentation.local_addr() == server.local_addr@,
            r.instrumentation.remote_addr() == remote_addr@,
            r.instrumentation.method() == reported_method(*server, request.method@),
            r.info.id@ == request_id@,
            r.info.local_addr@ == server.local_addr@,
            r.info.local_addr.ip@ == server.local_addr.ip@,
            r.info.local_addr.port == server.local_addr.port,
            r.info.remote_addr.ip@ == remote_addr.ip@,
            r.info.remote_addr.port == remote_addr.port,
            r.info.remote_addr@ == remote_addr@,
            r.info.method@ == request.method@,
            r.info.path@ == request.path@,
            optional_text(r.info.query) == optional_text(request.query),
            attribute_views(r.span@) == started_fields(
                *server,
                *request,
                request_id@,
                remote_addr@,
            ),
    {
        let span = started_span(server, request, request_id, &remote_addr);
        let method = report_method(server, request.method.as_str());
        let query = match &request.query {
            Some(query) => Some(query.clone()),
            None => None,
        };
        let info = RequestInfo {
            id: request_id.to_owned(),
            local_addr: server.local_addr.clone(),
            remote_addr: remote_addr.clone(),
            method: request.method.clone(),
            path: request.path.clone(),
            query,
        };
        let local_addr = server.local_addr.clone();
        StartedRequest {
            instrumentation: RequestInstrumentation { request_id, local_addr, remote_addr, method },
            info,
            span,
        }
    }

    /// Returns the fields to record on the request's span once the request was
    /// routed to the endpoint with the given path template and operation id.
    pub fn routed(&self, route: &str, operation_id: &str) -> (r: Vec<Attribute>)
        ensures
            attribute_views(r@) == routed_fields(self.method(), route@, operation_id@),
    {
        routed_span(self.method.as_str(), route, operation_id)
    }

    /// Returns what is reported and recorded once a response with the given
    /// status code was produced.
    pub fn responded(&self, status_code: u16) -> (r: Completion)
        ensures
            reports(r.info, *self, status_code, Seq::empty()),
            r.info.id@ == self.request_id(),
            r.info.local_addr@ == self.local_addr(),
            r.info.remote_addr@ == self.remote_addr(),
            r.info.status_code == status_code,
            r.info.message@ == Seq::<char>::empty(),
            attribute_views(r.span@) == responded_fields(status_code),
    {
        Completion {
            info: self.done(status_code, String::new()),
            span: responded_span(status_code),
        }
    }

    /// Returns what is reported and recorded once an error response with the
    /// given status code was produced.  What is reported is the message that the
    /// client is told, if there is one, and otherwise the internal one; on the
    /// span, both are recorded.
    pub fn errored(
        &self,
        status_code: u16,
        message_external: Option<&str>,
        message_internal: &str,
    ) -> (r: Completion)
        ensures
            reports(
                r.info,
                *self,
                status_code,
                match message_external {
                    Some(message) => message@,
                    None => message_internal@,
                },
            ),
            r.info.id@ == self.request_id(),
            r.info.local_addr@ == self.local_addr(),
            r.info.remote_addr@ == self.remote_addr(),
            r.info.status_code == status_code,
            r.info.message@ == (match message_external {
                Some(message) => message@,
                None => message_internal@,
            }),
            attribute_views(r.span@) == errored_fields(
                status_code,
                match message_external {
                    Some(message) => Some(message@),
                    None => None,
                },
                message_internal@,
            ),
    {
        let message = match message_external {
            Some(message) => message,
            None => message_internal,
        };
        Completion {
            info: self.done(status_code, message.to_owned()),
            span: errored_span(status_code, message_external, message_internal),
        }
    }

    /// Returns what is reported and recorded once the client disconnected before
    /// a response was returned.
    pub fn disconnected(&self) -> (r: Completion)
        ensures
            reports(r.info, *self, DISCONNECTED_STATUS, DISCONNECTED_MESSAGE@),
            r.info.id@ == self.request_id(),
            r.info.local_addr@ == self.local_addr(),
            r.info.remote_addr@ == self.remote_addr(),
            r.info.status_code == 499,
            r.info.message@ == "client disconnected before response returned"@,
            attribute_views(r.span@) == disconnected_fields(DISCONNECTED_MESSAGE@),
    {
        Completion {
            info: self.done(DISCONNECTED_STATUS, DISCONNECTED_MESSAGE.to_owned()),
            span: disconnected_span(DISCONNECTED_MESSAGE),
        }
    }

    /// Returns a report about this request.
    fn done(&self, status_code: u16, message: String) -> (r: ResponseInfo)
        ensures
            reports(r, *self, status_code, message@),
    {
        ResponseInfo {
            id: self.request_id.to_owned(),
            local_addr: self.local_addr.clone(),
            remote_addr: self.remote_addr.clone(),
            status_code,
            message,
        }
    }
}

} // verus!
