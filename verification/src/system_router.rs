//! Routing of incoming system messages: validation of their message types
//! and the outcomes a router reports.

use vstd::prelude::*;
use vstd::string::*;
use crate::node::ActorId;
use crate::system_actors::{is_system_message_type, is_system_type};

verus! {

/// Error from system message routing.
#[derive(Debug)]
pub struct RoutingError {
    /// Description of the routing failure.
    pub message: String,
}

impl RoutingError {
    /// Create a new routing error.
    pub fn new(message: &str) -> (e: Self)
        ensures
            e.message@ == message@,
    {
        RoutingError { message: String::from_str(message) }
    }

    /// Text form: `routing error: <message>`.
    pub fn to_string(&self) -> (s: String)
        ensures
            s@ == "routing error: "@ + self.message@,
    {
        let mut s = String::from_str("routing error: ");
        s.append(self.message.as_str());
        s
    }
}

/// Result of successfully routing a system message.
#[derive(Debug)]
pub enum RoutingOutcome {
    /// A spawn request was processed and an actor was created.
    SpawnCompleted {
        /// Request ID for correlating the reply back to the sender.
        request_id: String,
        /// The ID of the newly spawned actor.
        actor_id: ActorId,
    },
    /// A spawn request failed on the remote side.
    SpawnFailed {
        /// The request ID of the SpawnRequest answered.
        request_id: String,
        /// Error description.
        error: String,
    },
    /// A tell-style system message was delivered (no reply payload).
    Acknowledged,
    /// A cancel request was processed and acknowledged.
    CancelAcknowledged,
    /// A cancel request targeted a request that was not found.
    CancelNotFound {
        /// Description of what was not found.
        reason: String,
    },
}

/// Checks that a message type is a known system message type; otherwise
/// the error reads `unknown system message type: <type>`.
pub fn validate_system_message_type(message_type: &str) -> (r: Result<(), RoutingError>)
    ensures
        r is Ok <==> is_system_type(message_type@),
        r matches Err(e) ==> e.message@ == "unknown system message type: "@ + message_type@,
{
    if is_system_message_type(message_type) {
        Ok(())
    } else {
        let mut m = String::from_str("unknown system message type: ");
        m.append(message_type);
        Err(RoutingError { message: m })
    }
}

} // verus!
