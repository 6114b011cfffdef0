//! # dactor
//!
//! Provider-agnostic building blocks for distributed actors: identities,
//! error types, interceptors (circuit breaker, metrics, tracing) and the
//! outbound pipeline, supervision strategies, system actors (spawn, watch,
//! cancel, node directory), the protobuf wire format of system messages and
//! envelopes, in-memory persistence and recovery decisions, outbound
//! priority queues, batching, pool routing, broadcast results and groups.

pub mod text;
pub mod node;
pub mod errors;
pub mod actor;
pub mod mailbox;
pub mod message;
pub mod assoc;
pub mod time;
pub mod interceptor;
pub mod circuit_breaker;
pub mod supervision;
pub mod system_actors;
pub mod system_router;
pub mod dead_letter;
pub mod otel;
pub mod stream;
pub mod cluster;
pub mod version;
pub mod remote;
pub mod wire;
pub mod proto;
pub mod persistence;
pub mod outbound_queue;
pub mod pool;
pub mod broadcast;
pub mod metrics;
pub mod runtime_support;
pub mod batched_transport;
pub mod clock;
pub mod remote_ref;
pub mod group;
pub mod dispatch;
