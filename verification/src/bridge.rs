//! The relay between an upstream session and the downstream peer: what the
//! session is answered when the peer has answered, or has failed to.

use crate::text::join;
use vstd::prelude::*;

verus! {

/// Code of an error that arose inside the relay.
pub const INTERNAL_ERROR: i32 = -32603;

/// An error of the protocol. `D` is the data that may come with it.
#[derive(Clone, Debug, PartialEq, Eq)]
pub struct ProtocolError<D> {
    pub code: i32,
    pub message: String,
    pub data: Option<D>,
}

/// Why a call to the peer gave no result.
#[derive(Clone, Debug, PartialEq, Eq)]
pub enum PeerFailure<D> {
    /// The peer answered with an error of the protocol.
    Protocol(ProtocolError<D>),
    /// Anything else: the transport, a timeout, a cancellation.
    Other { description: String },
}

/// The notifications that are passed on to the peer.
#[derive(Clone, Copy, Debug, PartialEq, Eq, Structural)]
pub enum NotificationKind {
    Cancelled,
    Progress,
    LoggingMessage,
    PromptListChanged,
    ResourceListChanged,
    ToolListChanged,
    ResourceUpdated,
}

/// The error that the session gets for a failure of the peer: an error of
/// the protocol as it came, anything else as an internal error that carries
/// the description of the failure.
pub open spec fn relayed_error<D>(failure: PeerFailure<D>) -> ProtocolError<D> {
    match failure {
        PeerFailure::Protocol(error) => error,
        PeerFailure::Other { description } => ProtocolError {
            code: INTERNAL_ERROR,
            message: description,
            data: None,
        },
    }
}

/// What the session is answered for a request that was passed on to the
/// peer: the result of the peer as it came, or the relayed error.
pub open spec fn relayed<R, D>(outcome: Result<R, PeerFailure<D>>) -> Result<R, ProtocolError<D>> {
    match outcome {
        Ok(result) => Ok(result),
        Err(failure) => Err(relayed_error(failure)),
    }
}

/// Answers the session for a request that was passed on to the peer.
pub fn relay_request<R, D>(outcome: Result<R, PeerFailure<D>>) -> (r: Result<R, ProtocolError<D>>)
    ensures
        r == relayed(outcome),
{
    match outcome {
        Ok(result) => Ok(result),
        Err(PeerFailure::Protocol(error)) => Err(error),
        Err(PeerFailure::Other { description }) => Err(
            ProtocolError { code: INTERNAL_ERROR, message: description, data: None },
        ),
    }
}

/// How the notifications of a kind are called in a report.
pub open spec fn notification_label(kind: NotificationKind) -> Seq<char> {
    match kind {
        NotificationKind::Cancelled => "cancelled"@,
        NotificationKind::Progress => "progress"@,
        NotificationKind::LoggingMessage => "logging message"@,
        NotificationKind::PromptListChanged => "prompt list changed"@,
        NotificationKind::ResourceListChanged => "resource list changed"@,
        NotificationKind::ToolListChanged => "tool list changed"@,
        NotificationKind::ResourceUpdated => "resource updated"@,
    }
}

/// The report of a notification that the peer did not get.
pub open spec fn notification_report(kind: NotificationKind, description: Seq<char>) -> Seq<char> {
    "Failed to notify "@ + notification_label(kind) + ": "@ + description
}

/// Ends the passing on of a notification. A failure is never handed to the
/// session: all that is left of it is the report, for whoever keeps a log.
pub fn relay_notification(kind: NotificationKind, outcome: Result<(), String>) -> (report: Option<
    String,
>)
    ensures
        match outcome {
            Ok(_) => report is None,
            Err(description) => report matches Some(text) && text@ == notification_report(
                kind,
                description@,
            ),
        },
{
    match outcome {
        Ok(_) => None,
        Err(description) => {
            let label = match kind {
                NotificationKind::Cancelled => "cancelled",
                NotificationKind::Progress => "progress",
                NotificationKind::LoggingMessage => "logging message",
                NotificationKind::PromptListChanged => "prompt list changed",
                NotificationKind::ResourceListChanged => "resource list changed",
                NotificationKind::ToolListChanged => "tool list changed",
                NotificationKind::ResourceUpdated => "resource updated",
            };
            let mut text = join("Failed to notify ", label);
            text.append(": ");
            text.append(description.as_str());
            Some(text)
        },
    }
}

} // verus!
