//! Dispatch envelopes: what a runtime hands back after delivering a message.

use vstd::prelude::*;
use vstd::string::*;
use crate::errors::RuntimeError;
use crate::interceptor::Disposition;

verus! {

/// Result of dispatching a message: for an ask, the reply and the channel
/// that delivers it to the caller; for a tell, neither.
pub struct DispatchResult<V, F> {
    /// The reply value (present for ask).
    pub reply: Option<V>,
    /// Delivers the reply to the caller (present for ask).
    pub reply_sender: Option<F>,
}

impl<V, F: FnOnce(V)> DispatchResult<V, F> {
    /// The result of a tell: no reply.
    pub fn tell() -> (r: Self)
        ensures
            r.reply is None,
            r.reply_sender is None,
    {
        DispatchResult { reply: None, reply_sender: None }
    }

    /// Deliver the reply to the caller, when there is both a reply and a
    /// channel, by calling the channel once with the reply; returns whether
    /// it was delivered.
    pub fn send_reply(self) -> (sent: bool)
        requires
            self.reply_sender matches Some(f) ==> forall|v: V| call_requires(f, (v,)),
        ensures
            sent == (self.reply is Some && self.reply_sender is Some),
            sent ==> call_ensures(self.reply_sender->0, (self.reply->0,), ()),
    {
        match (self.reply, self.reply_sender) {
            (Some(reply), Some(sender)) => {
                sender(reply);
                true
            },
            _ => false,
        }
    }
}

/// Tell envelope: carries the message for fire-and-forget delivery.
pub struct TypedDispatch<M> {
    /// The message payload.
    pub msg: M,
}

/// The error an asking caller gets when an interceptor stops its message:
/// a rejection, a retry hint, or "not found" for a drop; nothing for the
/// other decisions (the message went on, or is only delayed).
pub fn rejection_error(disposition: Disposition, interceptor_name: &str) -> (r: Option<RuntimeError>)
    ensures
        (match disposition {
            Disposition::Reject(reason) =>
                r matches Some(RuntimeError::Rejected { interceptor, reason: why }) && interceptor@ == interceptor_name@ && why == reason,
            Disposition::Retry(d) =>
                r matches Some(RuntimeError::RetryAfter { interceptor, retry_after }) && interceptor@ == interceptor_name@ && retry_after == d,
            Disposition::Drop =>
                r matches Some(RuntimeError::ActorNotFound(m)) && m@ == "dropped by interceptor '"@ + interceptor_name@ + "'"@,
            _ => r is None,
        }),
{
    match disposition {
        Disposition::Reject(reason) => Some(RuntimeError::Rejected { interceptor: String::from_str(interceptor_name), reason }),
        Disposition::Retry(retry_after) => Some(RuntimeError::RetryAfter { interceptor: String::from_str(interceptor_name), retry_after }),
        Disposition::Drop => {
            let mut m = String::from_str("dropped by interceptor '");
            m.append(interceptor_name);
            m.append("'");
            Some(RuntimeError::ActorNotFound(m))
        },
        _ => None,
    }
}

/// The caller's result of an ask once its reply channel resolves: the reply
/// or error sent, or "not found" when the channel closed without a reply.
pub fn reply_from_channel<R>(received: Option<Result<R, RuntimeError>>) -> (r: Result<R, RuntimeError>)
    ensures
        (match received {
            Some(x) => r == x,
            None => r matches Err(RuntimeError::ActorNotFound(m))
                && m@ == "reply channel closed — actor may have stopped, panicked, or the request was cancelled"@,
        }),
{
    match received {
        Some(x) => x,
        None => Err(RuntimeError::ActorNotFound(
            String::from_str("reply channel closed — actor may have stopped, panicked, or the request was cancelled"),
        )),
    }
}

} // verus!
