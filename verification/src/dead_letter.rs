//! Dead letters: messages that could not be delivered, and handlers that
//! observe them.

use vstd::prelude::*;
use vstd::string::*;
use crate::interceptor::SendMode;
use crate::node::ActorId;

verus! {

/// Reason a message became a dead letter.
#[derive(Debug, PartialEq, Eq)]
pub enum DeadLetterReason {
    /// The target actor has stopped.
    ActorStopped,
    /// The target actor was not found.
    ActorNotFound,
    /// The mailbox was full and overflow strategy rejected the message.
    MailboxFull,
    /// An interceptor dropped the message or stream item.
    DroppedByInterceptor {
        /// Name of the interceptor that dropped the message.
        interceptor: String,
    },
}

/// Text form of a dead-letter reason.
pub open spec fn dead_letter_reason_text(r: DeadLetterReason) -> Seq<char> {
    match r {
        DeadLetterReason::ActorStopped => "actor stopped"@,
        DeadLetterReason::ActorNotFound => "actor not found"@,
        DeadLetterReason::MailboxFull => "mailbox full"@,
        DeadLetterReason::DroppedByInterceptor { interceptor } => "dropped by interceptor '"@ + interceptor@ + "'"@,
    }
}

impl DeadLetterReason {
    /// Text form of the reason.
    pub fn to_string(&self) -> (s: String)
        ensures
            s@ == dead_letter_reason_text(*self),
    {
        match self {
            DeadLetterReason::ActorStopped => String::from_str("actor stopped"),
            DeadLetterReason::ActorNotFound => String::from_str("actor not found"),
            DeadLetterReason::MailboxFull => String::from_str("mailbox full"),
            DeadLetterReason::DroppedByInterceptor { interceptor } => {
                let mut s = String::from_str("dropped by interceptor '");
                s.append(interceptor.as_str());
                s.append("'");
                s
            },
        }
    }
}

impl Clone for DeadLetterReason {
    fn clone(&self) -> (r: Self)
        ensures
            r == *self,
    {
        match self {
            DeadLetterReason::ActorStopped => DeadLetterReason::ActorStopped,
            DeadLetterReason::ActorNotFound => DeadLetterReason::ActorNotFound,
            DeadLetterReason::MailboxFull => DeadLetterReason::MailboxFull,
            DeadLetterReason::DroppedByInterceptor { interceptor } => DeadLetterReason::DroppedByInterceptor { interceptor: interceptor.clone() },
        }
    }
}

/// Information about a dead letter — a message that could not be delivered.
#[derive(Debug)]
pub struct DeadLetterEvent {
    /// The intended target actor.
    pub target_id: ActorId,
    /// The target actor's name (if known).
    pub target_name: Option<String>,
    /// The type name of the message.
    pub message_type: &'static str,
    /// How the message was sent.
    pub send_mode: SendMode,
    /// Why the message could not be delivered.
    pub reason: DeadLetterReason,
}

/// Handler for dead letter events. Registered on the runtime.
pub trait DeadLetterHandler {
    /// Called when a message cannot be delivered.
    fn on_dead_letter(&mut self, event: DeadLetterEvent);
}

/// Dead letter info kept for inspection (without the message body).
#[derive(Debug, PartialEq, Eq)]
pub struct DeadLetterInfo {
    /// The intended target actor.
    pub target_id: ActorId,
    /// The type name of the message.
    pub message_type: String,
    /// How the message was sent.
    pub send_mode: SendMode,
    /// Why the message could not be delivered.
    pub reason: DeadLetterReason,
}

impl Clone for DeadLetterInfo {
    fn clone(&self) -> (r: Self)
        ensures
            r == *self,
    {
        DeadLetterInfo {
            target_id: self.target_id.clone(),
            message_type: self.message_type.clone(),
            send_mode: self.send_mode,
            reason: self.reason.clone(),
        }
    }
}

/// The info a collecting handler keeps of an event.
pub open spec fn info_matches(info: DeadLetterInfo, event: DeadLetterEvent) -> bool {
    &&& info.target_id == event.target_id
    &&& info.message_type@ == event.message_type@
    &&& info.send_mode == event.send_mode
    &&& info.reason == event.reason
}

/// A dead letter handler that collects events, in arrival order.
pub struct CollectingDeadLetterHandler {
    events: Vec<DeadLetterInfo>,
}

impl CollectingDeadLetterHandler {
    /// Collected events, oldest first.
    pub closed spec fn collected(&self) -> Seq<DeadLetterInfo> {
        self.events@
    }

    /// Create a new empty collecting handler.
    pub fn new() -> (h: Self)
        ensures
            h.collected() == Seq::<DeadLetterInfo>::empty(),
    {
        CollectingDeadLetterHandler { events: Vec::new() }
    }

    /// All collected dead letter events, oldest first.
    pub fn events(&self) -> (r: Vec<DeadLetterInfo>)
        ensures
            r@ == self.collected(),
    {
        let mut out: Vec<DeadLetterInfo> = Vec::new();
        let mut i: usize = 0;
        while i < self.events.len()
            invariant
                i <= self.events@.len(),
                out@ == self.events@.take(i as int),
            decreases self.events@.len() - i,
        {
            out.push(self.events[i].clone());
            assert(out@ =~= self.events@.take(i + 1));
            i = i + 1;
        }
        assert(self.events@.take(self.events@.len() as int) =~= self.events@);
        out
    }

    /// Number of collected events.
    pub fn count(&self) -> (n: usize)
        ensures
            n == self.collected().len(),
    {
        self.events.len()
    }

    /// Clear collected events.
    pub fn clear(&mut self)
        ensures
            final(self).collected() == Seq::<DeadLetterInfo>::empty(),
    {
        self.events.clear();
    }
}

impl DeadLetterHandler for CollectingDeadLetterHandler {
    fn on_dead_letter(&mut self, event: DeadLetterEvent)
        ensures
            final(self).collected().len() == old(self).collected().len() + 1,
            final(self).collected().drop_last() == old(self).collected(),
            info_matches(final(self).collected().last(), event),
    {
        let info = DeadLetterInfo {
            target_id: event.target_id,
            message_type: String::from_str(event.message_type),
            send_mode: event.send_mode,
            reason: event.reason,
        };
        self.events.push(info);
        assert(self.events@.drop_last() =~= old(self).events@);
    }
}

} // verus!
