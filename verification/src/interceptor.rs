//! Inbound and outbound interceptor pipelines.
//!
//! Interceptors run before a message reaches its handler (inbound) or leaves
//! its sender (outbound). Each can let the message continue, delay, drop,
//! reject it, or bounce it back with a retry hint, and is told the outcome
//! after the handler completes.

use vstd::prelude::*;
use crate::actor::ActorError;
use crate::node::{ActorId, NodeId};

verus! {

/// How the message was sent to the actor.
#[derive(Debug, Clone, Copy, PartialEq, Eq, Hash, Structural)]
pub enum SendMode {
    /// Fire-and-forget: no reply expected.
    Tell,
    /// Request-reply: caller awaits a single response.
    Ask,
    /// Streaming request: handler pushes multiple items to a stream.
    Stream,
    /// Batch feed: deliver pre-collected items without per-item replies.
    Feed,
}

/// Metadata about an inbound message and its target actor.
pub struct InboundContext<'a> {
    /// The target actor.
    pub actor_id: ActorId,
    /// The target actor's name.
    pub actor_name: &'a str,
    /// The message's type name.
    pub message_type: &'static str,
    /// How the message was sent.
    pub send_mode: SendMode,
    /// Whether the message came from another node.
    pub remote: bool,
    /// The node the message came from, when remote.
    pub origin_node: Option<NodeId>,
}

/// The decision returned by an interceptor after inspecting a message.
#[derive(Debug)]
pub enum Disposition {
    /// Continue to the next interceptor / deliver the message.
    Continue,
    /// Delay the message by the specified duration before proceeding.
    Delay(std::time::Duration),
    /// Drop the message silently.
    Drop,
    /// Reject the message with a reason.
    Reject(String),
    /// Tell the caller to retry sending the message after the duration.
    Retry(std::time::Duration),
}

/// Result reported to interceptors after handler execution completes.
#[derive(Debug)]
pub enum Outcome {
    /// Tell: handler returned successfully.
    TellSuccess,
    /// Ask: handler returned a reply successfully.
    AskSuccess,
    /// Handler returned an error or panicked.
    HandlerError {
        /// The handler's error.
        error: ActorError,
    },
    /// Stream completed normally.
    StreamCompleted {
        /// Number of items emitted.
        items_emitted: u64,
    },
    /// Stream was cancelled.
    StreamCancelled {
        /// Number of items emitted before cancellation.
        items_emitted: u64,
    },
}

impl Outcome {
    /// Whether the outcome reports a handler error.
    pub fn is_handler_error(&self) -> (r: bool)
        ensures
            r == (*self is HandlerError),
    {
        match self {
            Outcome::HandlerError { .. } => true,
            _ => false,
        }
    }
}

/// An interceptor that observes or modifies inbound messages.
pub trait InboundInterceptor {
    /// Human-readable name for this interceptor.
    fn name(&self) -> &'static str;

    /// Called before the message is delivered to the handler.
    fn on_receive(&mut self, ctx: &InboundContext<'_>) -> (d: Disposition)
        ensures
            true,
        default_ensures
            d is Continue,
    {
        Disposition::Continue
    }

    /// Called after the handler finishes, once per delivered message.
    fn on_complete(&mut self, ctx: &InboundContext<'_>, outcome: &Outcome) {
    }

    /// Called for each item in a stream or feed; `seq` counts from zero.
    fn on_stream_item(&mut self, ctx: &InboundContext<'_>, seq: u64) {
    }
}

/// Metadata about an outbound message, provided to outbound interceptors.
pub struct OutboundContext<'a> {
    /// The target actor's ID.
    pub target_id: ActorId,
    /// The target actor's name.
    pub target_name: &'a str,
    /// The type name of the message.
    pub message_type: &'static str,
    /// How the message is being sent.
    pub send_mode: SendMode,
    /// Whether the target is on a remote node.
    pub remote: bool,
}

/// An interceptor that runs on the sender side before delivery.
///
/// Implementations describe their decisions with the spec functions
/// `label`, `send_decision`, `stream_decision` and `replied`; the exec
/// methods are held to them.
pub trait OutboundInterceptor: Send + Sync {
    /// The name the interceptor reports.
    spec fn label(&self) -> &'static str;

    /// The decision `on_send` makes for a message in the interceptor's
    /// current state.
    spec fn send_decision(&self, ctx: &OutboundContext) -> Disposition;

    /// The decision `on_stream_item` makes for item `seq` in the
    /// interceptor's current state.
    spec fn stream_decision(&self, ctx: &OutboundContext, seq: u64) -> Disposition;

    /// What holds of the interceptor once `on_reply` has taken in the
    /// outcome of an ask sent in context `ctx`.
    spec fn replied(&self, ctx: &OutboundContext, outcome: &Outcome) -> bool;

    /// Human-readable name.
    fn name(&self) -> (n: &'static str)
        ensures
            n == self.label();

    /// Called before the message is sent; its decision is `send_decision`.
    fn on_send(&mut self, ctx: &OutboundContext<'_>) -> (d: Disposition)
        ensures
            d == old(self).send_decision(ctx);

    /// Called when an ask() reply is received back on the sender side.
    fn on_reply(&mut self, ctx: &OutboundContext<'_>, outcome: &Outcome)
        ensures
            final(self).replied(ctx, outcome);

    /// Called for each item flowing through a stream or feed on the sender
    /// side; `seq` counts from zero. `Drop` (or `Retry`) skips the item,
    /// `Delay` holds it back, `Reject` ends the stream.
    fn on_stream_item(&mut self, ctx: &OutboundContext<'_>, seq: u64) -> (d: Disposition)
        ensures
            d == old(self).stream_decision(ctx, seq);
}

} // verus!
