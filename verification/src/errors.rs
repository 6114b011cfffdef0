//! Error types for actor operations.

use vstd::prelude::*;
use vstd::string::*;
use crate::actor::{ActorError, actor_error_text};

verus! {

/// Error category codes inspired by gRPC status codes.
#[derive(Debug, Clone, Copy, PartialEq, Eq, Hash, Structural)]
pub enum ErrorCode {
    /// Unexpected internal error.
    Internal,
    /// Invalid argument provided by the caller.
    InvalidArgument,
    /// The requested actor or resource was not found.
    NotFound,
    /// The actor is temporarily unavailable (e.g., overloaded).
    Unavailable,
    /// The operation timed out.
    Timeout,
    /// The caller lacks permission for this operation.
    PermissionDenied,
    /// A precondition for the operation was not met.
    FailedPrecondition,
    /// A resource limit was exceeded (e.g., rate limit, quota).
    ResourceExhausted,
    /// The operation is not implemented by this actor/adapter.
    Unimplemented,
    /// Unknown error category.
    Unknown,
    /// The operation was cancelled.
    Cancelled,
}

/// The name of an error code, as printed in error texts.
pub open spec fn error_code_name(c: ErrorCode) -> Seq<char> {
    match c {
        ErrorCode::Internal => "Internal"@,
        ErrorCode::InvalidArgument => "InvalidArgument"@,
        ErrorCode::NotFound => "NotFound"@,
        ErrorCode::Unavailable => "Unavailable"@,
        ErrorCode::Timeout => "Timeout"@,
        ErrorCode::PermissionDenied => "PermissionDenied"@,
        ErrorCode::FailedPrecondition => "FailedPrecondition"@,
        ErrorCode::ResourceExhausted => "ResourceExhausted"@,
        ErrorCode::Unimplemented => "Unimplemented"@,
        ErrorCode::Unknown => "Unknown"@,
        ErrorCode::Cancelled => "Cancelled"@,
    }
}

impl ErrorCode {
    /// The name of this code.
    pub fn name(&self) -> (s: &'static str)
        ensures
            s@ == error_code_name(*self),
    {
        match self {
            ErrorCode::Internal => "Internal",
            ErrorCode::InvalidArgument => "InvalidArgument",
            ErrorCode::NotFound => "NotFound",
            ErrorCode::Unavailable => "Unavailable",
            ErrorCode::Timeout => "Timeout",
            ErrorCode::PermissionDenied => "PermissionDenied",
            ErrorCode::FailedPrecondition => "FailedPrecondition",
            ErrorCode::ResourceExhausted => "ResourceExhausted",
            ErrorCode::Unimplemented => "Unimplemented",
            ErrorCode::Unknown => "Unknown",
            ErrorCode::Cancelled => "Cancelled",
        }
    }
}

/// Error returned when sending a message to an actor fails.
#[derive(Debug)]
pub struct ActorSendError(pub String);

impl Clone for ActorSendError {
    fn clone(&self) -> (res: Self)
        ensures
            res == *self,
    {
        ActorSendError(self.0.clone())
    }
}

impl ActorSendError {
    /// Text form: `actor send failed: <reason>`.
    pub fn to_string(&self) -> (s: String)
        ensures
            s@ == "actor send failed: "@ + self.0@,
    {
        let mut s = String::from_str("actor send failed: ");
        s.append(self.0.as_str());
        s
    }
}

/// Error returned by processing group operations.
#[derive(Debug)]
pub struct GroupError(pub String);

impl GroupError {
    /// Text form: `group error: <reason>`.
    pub fn to_string(&self) -> (s: String)
        ensures
            s@ == "group error: "@ + self.0@,
    {
        let mut s = String::from_str("group error: ");
        s.append(self.0.as_str());
        s
    }
}

/// Error returned by cluster event subscription operations.
#[derive(Debug)]
pub struct ClusterError(pub String);

impl ClusterError {
    /// Text form: `cluster error: <reason>`.
    pub fn to_string(&self) -> (s: String)
        ensures
            s@ == "cluster error: "@ + self.0@,
    {
        let mut s = String::from_str("cluster error: ");
        s.append(self.0.as_str());
        s
    }
}

/// What the runtime should do after a handler error or panic.
#[derive(Debug, Clone, Copy, PartialEq, Eq, Structural)]
pub enum ErrorAction {
    /// Skip the failed message and continue processing the next one.
    Resume,
    /// Restart the actor (re-run `create` + `on_start`), then continue.
    Restart,
    /// Stop the actor permanently.
    Stop,
    /// Propagate the error to the actor's supervisor (parent).
    Escalate,
}

/// Error returned when a runtime capability is not supported by the adapter.
#[derive(Debug)]
pub struct NotSupportedError {
    /// The capability that is not supported.
    pub capability: String,
    /// Detailed description of why it is not supported.
    pub message: String,
}

/// Text form of a not-supported error.
pub open spec fn not_supported_text(capability: Seq<char>, message: Seq<char>) -> Seq<char> {
    "not supported: "@ + capability + " — "@ + message
}

impl NotSupportedError {
    /// Text form: `not supported: <capability> — <message>`.
    pub fn to_string(&self) -> (s: String)
        ensures
            s@ == not_supported_text(self.capability@, self.message@),
    {
        let mut s = String::from_str("not supported: ");
        s.append(self.capability.as_str());
        s.append(" — ");
        s.append(self.message.as_str());
        s
    }
}

/// Unified error returned by runtime operations (ask, stream, feed, etc.).
#[derive(Debug)]
pub enum RuntimeError {
    /// Message delivery failed (actor stopped, mailbox full, etc.)
    Send(ActorSendError),
    /// The target actor was not found or has stopped.
    ActorNotFound(String),
    /// The operation timed out.
    Timeout,
    /// The operation was rejected by an interceptor.
    Rejected {
        /// Name of the interceptor that rejected the message.
        interceptor: String,
        /// Reason the message was rejected.
        reason: String,
    },
    /// An interceptor suggests the caller retry after the given duration.
    RetryAfter {
        /// Name of the interceptor that requested the retry.
        interceptor: String,
        /// Suggested delay before retrying.
        retry_after: std::time::Duration,
    },
    /// A handler-level error occurred.
    Actor(ActorError),
    /// The operation was cancelled via a cancellation token.
    Cancelled,
    /// The requested capability is not supported by this adapter.
    NotSupported(NotSupportedError),
}

/// Debug rendering of a duration, as produced by the standard library.
pub uninterp spec fn duration_debug_text(d: std::time::Duration) -> Seq<char>;

/// Renders a duration with `std`'s `Debug` formatting (for example `1.5s`).
/// Claims only that the result is the standard rendering of `d`.
#[verifier::external_body]
fn duration_debug(d: &std::time::Duration) -> (s: String)
    ensures
        s@ == duration_debug_text(*d),
{
    format!("{:?}", d)
}

/// Text form of a runtime error.
pub open spec fn runtime_error_text(e: RuntimeError) -> Seq<char> {
    match e {
        RuntimeError::Send(s) => "send error: "@ + ("actor send failed: "@ + s.0@),
        RuntimeError::ActorNotFound(id) => "actor not found: "@ + id@,
        RuntimeError::Timeout => "operation timed out"@,
        RuntimeError::Rejected { interceptor, reason } =>
            "rejected by '"@ + interceptor@ + "': "@ + reason@,
        RuntimeError::RetryAfter { interceptor, retry_after } =>
            "retry after "@ + duration_debug_text(retry_after) + " (suggested by '"@ + interceptor@ + "')"@,
        RuntimeError::Actor(a) => "actor error: "@ + actor_error_text(a),
        RuntimeError::Cancelled => "operation cancelled"@,
        RuntimeError::NotSupported(n) => not_supported_text(n.capability@, n.message@),
    }
}

impl RuntimeError {
    /// Text form of the error.
    pub fn to_string(&self) -> (s: String)
        ensures
            s@ == runtime_error_text(*self),
    {
        match self {
            RuntimeError::Send(e) => {
                let mut s = String::from_str("send error: ");
                let inner = e.to_string();
                s.append(inner.as_str());
                s
            },
            RuntimeError::ActorNotFound(id) => {
                let mut s = String::from_str("actor not found: ");
                s.append(id.as_str());
                s
            },
            RuntimeError::Timeout => String::from_str("operation timed out"),
            RuntimeError::Rejected { interceptor, reason } => {
                let mut s = String::from_str("rejected by '");
                s.append(interceptor.as_str());
                s.append("': ");
                s.append(reason.as_str());
                s
            },
            RuntimeError::RetryAfter { interceptor, retry_after } => {
                let mut s = String::from_str("retry after ");
                let d = duration_debug(retry_after);
                s.append(d.as_str());
                s.append(" (suggested by '");
                s.append(interceptor.as_str());
                s.append("')");
                s
            },
            RuntimeError::Actor(a) => {
                let mut s = String::from_str("actor error: ");
                let inner = a.to_string();
                s.append(inner.as_str());
                s
            },
            RuntimeError::Cancelled => String::from_str("operation cancelled"),
            RuntimeError::NotSupported(n) => n.to_string(),
        }
    }
}

} // verus!
