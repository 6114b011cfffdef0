//! Tracing interceptor for OpenTelemetry-style observability: counts traced
//! messages and maps send modes and outcomes to span attribute values.

use vstd::prelude::*;
use crate::interceptor::{Disposition, InboundContext, InboundInterceptor, OutboundContext, OutboundInterceptor, Outcome, SendMode};

verus! {

/// Tracing-based interceptor, usable both inbound and outbound.
pub struct OtelInterceptor {
    traced_count: u64,
}

/// The attribute value of a send mode.
pub open spec fn send_mode_text(mode: SendMode) -> Seq<char> {
    match mode {
        SendMode::Tell => "tell"@,
        SendMode::Ask => "ask"@,
        SendMode::Stream => "stream"@,
        SendMode::Feed => "feed"@,
    }
}

/// The status code of an outcome: `OK` for successes and completed
/// streams, `ERROR` for handler errors and cancelled streams.
pub open spec fn outcome_status_text(outcome: Outcome) -> Seq<char> {
    match outcome {
        Outcome::TellSuccess | Outcome::AskSuccess | Outcome::StreamCompleted { .. } => "OK"@,
        Outcome::HandlerError { .. } | Outcome::StreamCancelled { .. } => "ERROR"@,
    }
}

/// The count after tracing `n` messages one at a time from a count of `c`.
pub open spec fn traced_after(c: u64, n: nat) -> u64
    decreases n,
{
    if n == 0 {
        c
    } else {
        vstd::wrapping::u64_specs::wrapping_add(traced_after(c, (n - 1) as nat), 1)
    }
}

/// Tracing `n` messages, inbound and outbound in any mix, from a count of
/// `c` leaves the count at `c + n` modulo 2^64.
pub proof fn law_traced_run(c: u64, n: nat)
    ensures
        traced_after(c, n) == (c + n) % 0x1_0000_0000_0000_0000,
    decreases n,
{
    let m: int = 0x1_0000_0000_0000_0000;
    if n == 0 {
        vstd::arithmetic::div_mod::lemma_small_mod(c as nat, m as nat);
    } else {
        law_traced_run(c, (n - 1) as nat);
        let x: int = c + n - 1;
        let a: int = x % m;
        vstd::arithmetic::div_mod::lemma_mod_pos_bound(x, m);
        vstd::arithmetic::div_mod::lemma_add_mod_noop(x, 1, m);
        vstd::arithmetic::div_mod::lemma_small_mod(1, m as nat);
        assert((a + 1) % m == (x + 1) % m);
        if a + 1 < m {
            vstd::arithmetic::div_mod::lemma_small_mod((a + 1) as nat, m as nat);
        } else {
            vstd::arithmetic::div_mod::lemma_mod_self_0(m);
        }
    }
}

impl OtelInterceptor {
    /// Total messages traced since creation.
    pub closed spec fn count(&self) -> u64 {
        self.traced_count
    }

    /// Create a new interceptor with nothing traced.
    pub fn new() -> (o: Self)
        ensures
            o.count() == 0,
    {
        OtelInterceptor { traced_count: 0 }
    }

    /// Total messages traced since creation.
    pub fn traced_count(&self) -> (n: u64)
        ensures
            n == self.count(),
    {
        self.traced_count
    }

    /// The attribute value of a send mode.
    pub fn send_mode_str(mode: SendMode) -> (s: &'static str)
        ensures
            s@ == send_mode_text(mode),
    {
        match mode {
            SendMode::Tell => "tell",
            SendMode::Ask => "ask",
            SendMode::Stream => "stream",
            SendMode::Feed => "feed",
        }
    }

    /// The status code of an outcome.
    pub fn outcome_status(outcome: &Outcome) -> (s: &'static str)
        ensures
            s@ == outcome_status_text(*outcome),
    {
        match outcome {
            Outcome::TellSuccess | Outcome::AskSuccess | Outcome::StreamCompleted { .. } => "OK",
            Outcome::HandlerError { .. } | Outcome::StreamCancelled { .. } => "ERROR",
        }
    }

    fn trace_one(&mut self)
        ensures
            final(self).count() == vstd::wrapping::u64_specs::wrapping_add(old(self).count(), 1),
    {
        self.traced_count = self.traced_count.wrapping_add(1);
    }
}

impl Default for OtelInterceptor {
    fn default() -> (o: Self)
        ensures
            o.count() == 0,
    {
        OtelInterceptor::new()
    }
}

impl InboundInterceptor for OtelInterceptor {
    fn name(&self) -> &'static str
        returns
            "otel",
    {
        "otel"
    }

    fn on_receive(&mut self, ctx: &InboundContext<'_>) -> (d: Disposition)
        ensures
            d is Continue,
            final(self).count() == vstd::wrapping::u64_specs::wrapping_add(old(self).count(), 1),
    {
        self.trace_one();
        Disposition::Continue
    }

    fn on_complete(&mut self, ctx: &InboundContext<'_>, outcome: &Outcome)
        ensures
            final(self).count() == old(self).count(),
    {
    }
}

impl OutboundInterceptor for OtelInterceptor {
    open spec fn label(&self) -> &'static str {
        "otel"
    }

    open spec fn send_decision(&self, ctx: &OutboundContext) -> Disposition {
        Disposition::Continue
    }

    open spec fn stream_decision(&self, ctx: &OutboundContext, seq: u64) -> Disposition {
        Disposition::Continue
    }

    open spec fn replied(&self, ctx: &OutboundContext, outcome: &Outcome) -> bool {
        true
    }

    fn name(&self) -> &'static str
        returns
            "otel",
    {
        "otel"
    }

    fn on_send(&mut self, ctx: &OutboundContext<'_>) -> (d: Disposition)
        ensures
            d is Continue,
            final(self).count() == vstd::wrapping::u64_specs::wrapping_add(old(self).count(), 1),
    {
        self.trace_one();
        Disposition::Continue
    }

    fn on_stream_item(&mut self, ctx: &OutboundContext<'_>, seq: u64) -> (d: Disposition) {
        Disposition::Continue
    }

    fn on_reply(&mut self, ctx: &OutboundContext<'_>, outcome: &Outcome)
        ensures
            final(self).count() == old(self).count(),
    {
    }
}

} // verus!
