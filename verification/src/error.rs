//! Why an installation fails.

use crate::text::to_debug_text;
#[allow(unused_imports)]
use crate::text::{plain, quoted};
use vstd::prelude::*;

verus! {

/// Errors from installing the export pipelines.
#[derive(Debug, PartialEq, Eq)]
pub enum InitError {
    /// An OTLP exporter could not be built, for the reason given.
    Exporter(String),
    /// A global tracing subscriber is already installed.
    SubscriberAlreadySet,
    /// The environment asks for an OTLP protocol other than `http/protobuf`.
    UnsupportedProtocol(String),
}

/// The message that describes an error.
pub open spec fn error_message(error: InitError) -> Seq<char> {
    match error {
        InitError::Exporter(reason) => "failed to build an OTLP exporter: "@ + reason@,
        InitError::SubscriberAlreadySet => "a global tracing subscriber is already installed"@,
        InitError::UnsupportedProtocol(protocol) => "unsupported OTLP protocol "@ + quoted(
            protocol@,
        ) + " (only \"http/protobuf\" is supported)"@,
    }
}

impl InitError {
    /// Returns a message that describes the error.
    pub fn message(&self) -> (r: String)
        ensures
            r@ == error_message(*self),
            match self {
                InitError::Exporter(reason) => r@ == "failed to build an OTLP exporter: "@
                    + reason@,
                InitError::SubscriberAlreadySet => r@
                    == "a global tracing subscriber is already installed"@,
                InitError::UnsupportedProtocol(protocol) => r@ == "unsupported OTLP protocol "@
                    + quoted(protocol@) + " (only \"http/protobuf\" is supported)"@,
            },
    {
        match self {
            InitError::Exporter(reason) => "failed to build an OTLP exporter: ".to_owned().concat(
                reason.as_str(),
            ),
            InitError::SubscriberAlreadySet =>
            "a global tracing subscriber is already installed".to_owned(),
            InitError::UnsupportedProtocol(protocol) => {
                let shown = to_debug_text(protocol.as_str());
                "unsupported OTLP protocol ".to_owned().concat(shown.as_str()).concat(
                    " (only \"http/protobuf\" is supported)",
                )
            },
        }
    }
}

/// The message about an unsupported protocol names it, as long as there is
/// nothing in the name to escape.
pub proof fn law_message_names_protocol(protocol: String)
    requires
        plain(protocol@),
    ensures
        error_message(InitError::UnsupportedProtocol(protocol))
            == "unsupported OTLP protocol "@ + seq!['"'] + protocol@ + seq!['"']
            + " (only \"http/protobuf\" is supported)"@,
{
    assert("unsupported OTLP protocol "@ + (seq!['"'] + protocol@ + seq!['"'])
        =~= "unsupported OTLP protocol "@ + seq!['"'] + protocol@ + seq!['"']);
}

} // verus!
