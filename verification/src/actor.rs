//! Core actor types: structured errors, the actor trait, spawn configuration.

use vstd::prelude::*;
use vstd::string::*;
use crate::errors::{ErrorAction, ErrorCode, error_code_name};
use crate::mailbox::MailboxConfig;
use crate::node::NodeId;

verus! {

/// An error originating from within an actor's handler or lifecycle hook.
///
/// Carries a code, message, optional details, and an error chain for causal
/// tracing.
#[derive(Debug)]
pub struct ActorError {
    /// The error category (e.g., Internal, InvalidArgument, NotFound).
    pub code: ErrorCode,
    /// Human-readable error description.
    pub message: String,
    /// Optional structured details (JSON string or domain-specific data).
    pub details: Option<String>,
    /// Causal chain — the error that caused this one.
    pub cause: Option<Box<ActorError>>,
}

/// Text form of an actor error: `[<code>] <message>`, then ` (<details>)`
/// when there are details, then ` caused by: <cause text>` when there is a
/// cause.
pub open spec fn actor_error_text(e: ActorError) -> Seq<char>
    decreases e,
{
    let head = "["@ + error_code_name(e.code) + "] "@ + e.message@;
    let with_details = match e.details {
        Some(d) => head + " ("@ + d@ + ")"@,
        None => head,
    };
    match e.cause {
        Some(c) => with_details + " caused by: "@ + actor_error_text(*c),
        None => with_details,
    }
}

fn clone_opt_string(s: &Option<String>) -> (r: Option<String>)
    ensures
        r == *s,
{
    match s {
        Some(x) => Some(x.clone()),
        None => None,
    }
}

impl Clone for ActorError {
    fn clone(&self) -> (res: Self)
        ensures
            res == *self,
        decreases *self,
    {
        let cause = match &self.cause {
            Some(c) => {
                let inner: &ActorError = &**c;
                Some(Box::new(inner.clone()))
            },
            None => None,
        };
        ActorError {
            code: self.code,
            message: self.message.clone(),
            details: clone_opt_string(&self.details),
            cause,
        }
    }
}

impl ActorError {
    /// Create a simple error with code and message.
    pub fn new(code: ErrorCode, message: &str) -> (e: Self)
        ensures
            e.code == code,
            e.message@ == message@,
            e.details is None,
            e.cause is None,
    {
        ActorError { code, message: String::from_str(message), details: None, cause: None }
    }

    /// Create an internal error (most common for unexpected failures).
    pub fn internal(message: &str) -> (e: Self)
        ensures
            e.code == ErrorCode::Internal,
            e.message@ == message@,
            e.details is None,
            e.cause is None,
    {
        Self::new(ErrorCode::Internal, message)
    }

    /// Add details to the error.
    pub fn with_details(self, details: &str) -> (e: Self)
        ensures
            e.code == self.code,
            e.message == self.message,
            e.details matches Some(d) && d@ == details@,
            e.cause == self.cause,
    {
        let mut e = self;
        e.details = Some(String::from_str(details));
        e
    }

    /// Chain a cause to this error.
    pub fn with_cause(self, cause: ActorError) -> (e: Self)
        ensures
            e.code == self.code,
            e.message == self.message,
            e.details == self.details,
            e.cause == Some(Box::new(cause)),
    {
        let mut e = self;
        e.cause = Some(Box::new(cause));
        e
    }

    /// Text form of the error, including details and the cause chain.
    pub fn to_string(&self) -> (s: String)
        ensures
            s@ == actor_error_text(*self),
        decreases *self,
    {
        let mut s = String::from_str("[");
        s.append(self.code.name());
        s.append("] ");
        s.append(self.message.as_str());
        match &self.details {
            Some(d) => {
                s.append(" (");
                s.append(d.as_str());
                s.append(")");
            },
            None => {},
        }
        match &self.cause {
            Some(c) => {
                let inner: &ActorError = &**c;
                let t = inner.to_string();
                s.append(" caused by: ");
                s.append(t.as_str());
            },
            None => {},
        }
        s
    }
}

/// The core actor trait, implemented by the user's actor struct. State lives
/// in `self`.
pub trait Actor {
    /// Construction arguments for creating this actor.
    type Args;

    /// Local dependencies, resolved at the target node.
    type Deps;

    /// Construct the actor from args and local deps.
    fn create(args: Self::Args, deps: Self::Deps) -> Self where Self: Sized;

    /// Called on handler error/panic. Returns what to do next. Default: stop.
    fn on_error(&mut self, error: &ActorError) -> (action: ErrorAction)
        ensures
            true,
        default_ensures
            action is Stop,
    {
        ErrorAction::Stop
    }
}

/// Configuration for spawning an actor. Default: unbounded mailbox, local
/// spawn.
#[derive(Debug)]
pub struct SpawnConfig {
    /// Mailbox configuration (unbounded by default).
    pub mailbox: MailboxConfig,
    /// Target node for remote spawn. `None` = spawn on local node (default).
    pub target_node: Option<NodeId>,
}

impl Default for SpawnConfig {
    fn default() -> (c: Self)
        ensures
            c.mailbox == MailboxConfig::Unbounded,
            c.target_node is None,
    {
        SpawnConfig { mailbox: MailboxConfig::Unbounded, target_node: None }
    }
}

} // verus!
