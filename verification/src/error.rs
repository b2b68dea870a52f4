//! Why a connection to a target could not be made.

use crate::headers::HeaderError;
use crate::text::join;
use vstd::prelude::*;

verus! {

/// What stopped the preparation of a transport.
#[derive(Clone, Debug, PartialEq, Eq)]
pub enum BuildFailure {
    /// The default headers were refused.
    Header(HeaderError),
    /// The address of the target is no URL that a request can be sent to.
    InvalidUrl { url: String },
    /// The HTTP client could not be built.
    Client { description: String },
}

/// The kinds of failure of a connection attempt.
#[derive(Clone, Debug, PartialEq, Eq)]
pub enum ConnectError {
    /// The configuration store holds no target of that name.
    ConfigNotFound { name: String },
    /// The target lacks a part of its configuration that its kind needs.
    InvalidConfig { name: String },
    /// Headers, URL or HTTP client were refused.
    TransportBuild(BuildFailure),
    /// The transport could not be opened, or the schema not fetched or read.
    TransportConnect { description: String },
    /// The session with the backend failed to start.
    UpstreamProtocol { description: String },
    /// No token could be had for the backend.
    Auth { description: String },
}

/// The text of a failure to prepare a transport.
pub open spec fn build_failure_text(failure: BuildFailure) -> Seq<char> {
    match failure {
        BuildFailure::Header(HeaderError::InvalidName { index }) => "invalid HTTP header name"@,
        BuildFailure::Header(HeaderError::InvalidValue { index }) => {
            "failed to parse header value"@
        },
        BuildFailure::Header(HeaderError::InvalidToken) => "failed to parse header value"@,
        BuildFailure::Header(HeaderError::TooManyHeaders) => "max size reached"@,
        BuildFailure::InvalidUrl { url } => "invalid URL: "@ + url@,
        BuildFailure::Client { description } => description@,
    }
}

impl ConnectError {
    /// The text under which the failure is reported.
    pub open spec fn message_text(self) -> Seq<char> {
        match self {
            ConnectError::ConfigNotFound { name } => "Target configuration not found for "@ + name@,
            ConnectError::InvalidConfig { name } => "OpenAPI target "@ + name@
                + " is missing schema_source definition"@,
            ConnectError::TransportBuild(failure) => build_failure_text(failure),
            ConnectError::TransportConnect { description } => description@,
            ConnectError::UpstreamProtocol { description } => description@,
            ConnectError::Auth { description } => description@,
        }
    }

    /// The text under which the failure is reported.
    pub fn message(&self) -> (r: String)
        ensures
            r@ == self.message_text(),
    {
        match self {
            ConnectError::ConfigNotFound { name } => join(
                "Target configuration not found for ",
                name.as_str(),
            ),
            ConnectError::InvalidConfig { name } => {
                let mut text = join("OpenAPI target ", name.as_str());
                text.append(" is missing schema_source definition");
                text
            },
            ConnectError::TransportBuild(failure) => match failure {
                BuildFailure::Header(HeaderError::InvalidName { .. }) => {
                    "invalid HTTP header name".to_string()
                },
                BuildFailure::Header(HeaderError::InvalidValue { .. }) => {
                    "failed to parse header value".to_string()
                },
                BuildFailure::Header(HeaderError::InvalidToken) => {
                    "failed to parse header value".to_string()
                },
                BuildFailure::Header(HeaderError::TooManyHeaders) => "max size reached".to_string(),
                BuildFailure::InvalidUrl { url } => join("invalid URL: ", url.as_str()),
                BuildFailure::Client { description } => description.clone(),
            },
            ConnectError::TransportConnect { description } => description.clone(),
            ConnectError::UpstreamProtocol { description } => description.clone(),
            ConnectError::Auth { description } => description.clone(),
        }
    }
}

} // verus!
