//! Mailbox capacity, overflow and priority configuration.

use vstd::prelude::*;
use std::cmp::Ordering;

verus! {

/// What happens when a bounded mailbox is full.
#[derive(Debug, Clone, Copy, PartialEq, Eq, Structural)]
pub enum OverflowStrategy {
    /// Block the sender until space is available.
    Block,
    /// Reject the message with an error.
    RejectWithError,
    /// Drop the newest message (the one being sent) silently.
    DropNewest,
}

/// Mailbox capacity configuration.
#[derive(Debug, Clone, Copy, PartialEq, Eq, Structural)]
pub enum MailboxConfig {
    /// Unbounded mailbox — no capacity limit (default).
    Unbounded,
    /// Bounded mailbox with a fixed, non-zero capacity.
    Bounded {
        /// Maximum number of messages the mailbox can hold.
        capacity: usize,
        /// Strategy when the mailbox is full.
        overflow: OverflowStrategy,
    },
}

impl Default for MailboxConfig {
    fn default() -> (c: Self)
        ensures
            c == MailboxConfig::Unbounded,
    {
        MailboxConfig::Unbounded
    }
}

impl MailboxConfig {
    /// Create a bounded mailbox config; the capacity must be non-zero.
    pub fn bounded(capacity: usize, overflow: OverflowStrategy) -> (c: Self)
        requires
            capacity > 0,
        ensures
            c == (MailboxConfig::Bounded { capacity, overflow }),
    {
        MailboxConfig::Bounded { capacity, overflow }
    }
}

/// Custom ordering for priority-based mailbox scheduling. `Less` means the
/// first priority is dequeued first.
pub trait MessageComparer {
    /// Compare two priority values.
    fn compare(&self, a_priority: u8, b_priority: u8) -> Ordering;
}

/// Default priority comparer: lower numeric value = higher priority.
pub struct StrictPriorityComparer;

impl MessageComparer for StrictPriorityComparer {
    fn compare(&self, a_priority: u8, b_priority: u8) -> (o: Ordering)
        ensures
            (o == Ordering::Less) == (a_priority < b_priority),
            (o == Ordering::Equal) == (a_priority == b_priority),
            (o == Ordering::Greater) == (a_priority > b_priority),
    {
        if a_priority < b_priority {
            Ordering::Less
        } else if a_priority == b_priority {
            Ordering::Equal
        } else {
            Ordering::Greater
        }
    }
}

} // verus!
