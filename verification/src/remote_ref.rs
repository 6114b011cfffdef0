//! Decisions of a reference to an actor on a remote node.
//!
//! A remote reference knows, per message type, whether it may be told or
//! asked; it packs the serialized message into a wire envelope for the
//! transport, and turns what the transport and the reply decoder report
//! into the caller's result.

use vstd::prelude::*;
use vstd::string::*;
use crate::errors::{ActorSendError, RuntimeError};
use crate::interceptor::SendMode;
use crate::node::{actor_id_text, ActorId};
use crate::remote::{SerializationError, WireEnvelope, WireHeaders};

verus! {

/// Which registered serializer serves a tell.
#[derive(Debug, Clone, Copy, PartialEq, Eq, Structural)]
pub enum SerializerSlot {
    /// The type was registered for tell.
    Tell,
    /// The type was registered for ask only; its ask serializer is used.
    Ask,
}

/// Error text for a type registered for neither tell nor ask.
pub open spec fn unregistered_tell_text(message_type: Seq<char>, target: ActorId) -> Seq<char> {
    "message type '"@ + message_type + "' not registered for remote send to "@ + actor_id_text(target.key())
}

/// Error text for a type not registered for ask.
pub open spec fn unregistered_ask_text(message_type: Seq<char>, target: ActorId) -> Seq<char> {
    "ask message type '"@ + message_type + "' not registered for remote send to "@ + actor_id_text(target.key())
}

/// The serializer for a tell: the tell serializer when the type has one,
/// else its ask serializer, else an error.
pub fn tell_serializer(for_tell: bool, for_ask: bool, message_type: &str, target: &ActorId) -> (r: Result<SerializerSlot, ActorSendError>)
    ensures
        for_tell ==> r == Ok::<SerializerSlot, ActorSendError>(SerializerSlot::Tell),
        !for_tell && for_ask ==> r == Ok::<SerializerSlot, ActorSendError>(SerializerSlot::Ask),
        !for_tell && !for_ask ==> (r matches Err(e) && e.0@ == unregistered_tell_text(message_type@, *target)),
{
    if for_tell {
        Ok(SerializerSlot::Tell)
    } else if for_ask {
        Ok(SerializerSlot::Ask)
    } else {
        let mut s = String::from_str("message type '");
        s.append(message_type);
        s.append("' not registered for remote send to ");
        let t = target.to_string();
        s.append(t.as_str());
        Err(ActorSendError(s))
    }
}

/// An ask needs an ask registration.
pub fn ask_serializer(for_ask: bool, message_type: &str, target: &ActorId) -> (r: Result<(), ActorSendError>)
    ensures
        for_ask ==> r is Ok,
        !for_ask ==> (r matches Err(e) && e.0@ == unregistered_ask_text(message_type@, *target)),
{
    if for_ask {
        Ok(())
    } else {
        let mut s = String::from_str("ask message type '");
        s.append(message_type);
        s.append("' not registered for remote send to ");
        let t = target.to_string();
        s.append(t.as_str());
        Err(ActorSendError(s))
    }
}

/// The send error for a message that could not be serialized.
pub fn serialization_failure(e: &SerializationError) -> (r: ActorSendError)
    ensures
        r.0@ == "serialization failed: "@ + e.message@,
{
    let mut s = String::from_str("serialization failed: ");
    s.append(e.message.as_str());
    ActorSendError(s)
}

/// The envelope of a remote tell or ask: the serialized body to the target,
/// without headers or version; an ask carries its request id.
pub fn remote_envelope(target: &ActorId, target_name: &str, message_type: String, body: Vec<u8>, request_id: Option<u128>) -> (w: WireEnvelope)
    ensures
        w.target == *target,
        w.target_name@ == target_name@,
        w.message_type@ == message_type@,
        w.send_mode == (if request_id is Some { SendMode::Ask } else { SendMode::Tell }),
        w.headers.map() == Map::<Seq<char>, Seq<u8>>::empty(),
        w.body@ == body@,
        w.request_id == request_id,
        w.version is None,
{
    WireEnvelope {
        target: target.clone(),
        target_name: String::from_str(target_name),
        message_type,
        send_mode: if request_id.is_some() { SendMode::Ask } else { SendMode::Tell },
        headers: WireHeaders::new(),
        body,
        request_id,
        version: None,
    }
}

/// What became of a remote ask, as the transport and the reply decoder
/// report it.
#[derive(Debug)]
pub enum RemoteAskOutcome<R> {
    /// The caller cancelled before the reply came.
    Cancelled,
    /// The transport failed, with its error text.
    TransportFailed(String),
    /// The reply body could not be decoded.
    UndecodableReply(SerializationError),
    /// The decoded reply has another type than the ask expects.
    WrongReplyType,
    /// The decoded reply.
    Reply(R),
}

/// The caller's result of a remote ask.
pub fn remote_ask_result<R>(outcome: RemoteAskOutcome<R>) -> (r: Result<R, RuntimeError>)
    ensures
        (match outcome {
            RemoteAskOutcome::Cancelled => r matches Err(RuntimeError::Cancelled),
            RemoteAskOutcome::TransportFailed(t) =>
                r matches Err(RuntimeError::Send(e)) && e.0@ == "remote ask failed: "@ + t@,
            RemoteAskOutcome::UndecodableReply(d) =>
                r matches Err(RuntimeError::Send(e)) && e.0@ == "reply deserialization failed: "@ + d.message@,
            RemoteAskOutcome::WrongReplyType =>
                r matches Err(RuntimeError::Send(e)) && e.0@ == "reply type mismatch"@,
            RemoteAskOutcome::Reply(v) => r == Ok::<R, RuntimeError>(v),
        }),
{
    match outcome {
        RemoteAskOutcome::Cancelled => Err(RuntimeError::Cancelled),
        RemoteAskOutcome::TransportFailed(t) => {
            let mut s = String::from_str("remote ask failed: ");
            s.append(t.as_str());
            Err(RuntimeError::Send(ActorSendError(s)))
        },
        RemoteAskOutcome::UndecodableReply(d) => {
            let mut s = String::from_str("reply deserialization failed: ");
            s.append(d.message.as_str());
            Err(RuntimeError::Send(ActorSendError(s)))
        },
        RemoteAskOutcome::WrongReplyType => Err(RuntimeError::Send(ActorSendError(String::from_str("reply type mismatch")))),
        RemoteAskOutcome::Reply(v) => Ok(v),
    }
}

/// The error of a remote stream, which the transport cannot carry yet.
pub fn remote_stream_unsupported() -> (e: ActorSendError)
    ensures
        e.0@ == "remote stream not yet implemented — requires streaming transport support"@,
{
    ActorSendError(String::from_str("remote stream not yet implemented — requires streaming transport support"))
}

/// The error of a remote feed, which the transport cannot carry yet.
pub fn remote_feed_unsupported() -> (e: ActorSendError)
    ensures
        e.0@ == "remote feed not yet implemented — requires streaming transport support"@,
{
    ActorSendError(String::from_str("remote feed not yet implemented — requires streaming transport support"))
}

} // verus!
