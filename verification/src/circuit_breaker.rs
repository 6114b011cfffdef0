//! Circuit breaker interceptor for per-actor fault isolation.
//!
//! Tracks error rates per actor and trips the circuit when the error count
//! within a sliding time window reaches a configurable threshold.
//!
//! - **Closed** — normal operation, messages flow through.
//! - **Open** — too many errors; all messages are rejected immediately.
//! - **HalfOpen** — cooldown elapsed; one probe message is allowed through
//!   to test whether the actor has recovered.
//!
//! Times are nanosecond counts on the monotonic clock; `on_receive_at` and
//! `on_complete_at` take the current time as an argument, and the
//! [`InboundInterceptor`] impl reads the clock and delegates to them.

use vstd::prelude::*;
use vstd::string::*;
use crate::assoc::{assoc_find, assoc_map, keys_distinct, lemma_assoc_dom, lemma_assoc_find, lemma_assoc_index, lemma_assoc_push, lemma_assoc_update, KeyEq};
use crate::interceptor::{Disposition, InboundContext, InboundInterceptor, Outcome};
use crate::node::{ActorId, ActorKey};
use crate::time::{duration_to_nanos, elapsed, instant_now, nanos_of, nanos_since};

verus! {

/// The three states of a circuit breaker.
#[derive(Debug, Clone, Copy, PartialEq, Eq, Structural)]
pub enum CircuitState {
    /// Normal — messages flow through.
    Closed,
    /// Tripped — messages are rejected immediately.
    Open,
    /// Testing — one probe message is allowed through.
    HalfOpen,
}

/// Per-actor circuit as plain values.
pub struct CircuitModel {
    /// Current state.
    pub state: CircuitState,
    /// Times of recent errors, oldest first.
    pub errors: Seq<u64>,
    /// When the circuit last opened.
    pub opened_at: Option<u64>,
    /// Whether a probe message is in flight (half-open).
    pub probe_in_flight: bool,
}

/// The circuit of an actor that has not been seen yet.
pub open spec fn fresh_circuit() -> CircuitModel {
    CircuitModel { state: CircuitState::Closed, errors: Seq::empty(), opened_at: None, probe_in_flight: false }
}

/// Drops the leading error times that are older than `window` at `now`.
pub open spec fn pruned(ts: Seq<u64>, window: u64, now: u64) -> Seq<u64>
    decreases ts.len(),
{
    if ts.len() > 0 && elapsed(now, ts[0]) > window {
        pruned(ts.drop_first(), window, now)
    } else {
        ts
    }
}

/// A message arrives at `now`: the new circuit, and whether the message may
/// pass (`true`) or is rejected (`false`).
pub open spec fn receive_step(m: CircuitModel, cooldown: u64, now: u64) -> (CircuitModel, bool) {
    match m.state {
        CircuitState::Closed => (m, true),
        CircuitState::Open => {
            if m.opened_at is Some && elapsed(now, m.opened_at->0) >= cooldown {
                (CircuitModel { state: CircuitState::HalfOpen, probe_in_flight: true, ..m }, true)
            } else {
                (m, false)
            }
        },
        CircuitState::HalfOpen => {
            if m.probe_in_flight {
                (m, false)
            } else {
                (CircuitModel { probe_in_flight: true, ..m }, true)
            }
        },
    }
}

/// A handler finished at `now`, with an error or not: the new circuit.
pub open spec fn complete_step(m: CircuitModel, is_error: bool, threshold: u32, window: u64, now: u64) -> CircuitModel {
    match m.state {
        CircuitState::Closed => {
            if is_error {
                let errs = pruned(m.errors.push(now), window, now);
                if errs.len() >= threshold {
                    CircuitModel { state: CircuitState::Open, errors: errs, opened_at: Some(now), ..m }
                } else {
                    CircuitModel { errors: errs, ..m }
                }
            } else {
                m
            }
        },
        CircuitState::HalfOpen => {
            if is_error {
                CircuitModel {
                    state: CircuitState::Open,
                    errors: pruned(m.errors.push(now), window, now),
                    opened_at: Some(now),
                    probe_in_flight: false,
                }
            } else {
                CircuitModel { state: CircuitState::Closed, errors: Seq::empty(), opened_at: None, probe_in_flight: false }
            }
        },
        CircuitState::Open => {
            if is_error {
                CircuitModel { errors: pruned(m.errors.push(now), window, now), ..m }
            } else {
                m
            }
        },
    }
}

/// Validity of a circuit for a threshold: an open or half-open circuit knows
/// when it opened, and a closed circuit holds fewer errors than the
/// threshold (or none).
pub open spec fn circuit_wf(m: CircuitModel, threshold: u32) -> bool {
    &&& (m.state == CircuitState::Open ==> m.opened_at is Some)
    &&& (m.state == CircuitState::HalfOpen ==> m.opened_at is Some)
    &&& (m.state == CircuitState::Closed && m.errors.len() > 0 ==> m.errors.len() < threshold)
}

/// Per-actor bookkeeping for the circuit breaker.
pub struct CircuitBreakerState {
    /// Current state.
    pub state: CircuitState,
    /// Timestamps of recent errors (within the error window), oldest first.
    pub error_timestamps: std::collections::VecDeque<u64>,
    /// When the circuit was last opened.
    pub opened_at: Option<u64>,
    /// Whether a probe message is currently in flight (HalfOpen).
    pub probe_in_flight: bool,
}

impl View for CircuitBreakerState {
    type V = CircuitModel;

    open spec fn view(&self) -> CircuitModel {
        CircuitModel {
            state: self.state,
            errors: self.error_timestamps@,
            opened_at: self.opened_at,
            probe_in_flight: self.probe_in_flight,
        }
    }
}

impl CircuitBreakerState {
    /// A closed circuit with no recorded errors.
    pub fn new() -> (s: Self)
        ensures
            s@ == fresh_circuit(),
    {
        CircuitBreakerState { state: CircuitState::Closed, error_timestamps: std::collections::VecDeque::new(), opened_at: None, probe_in_flight: false }
    }

    /// Remove error timestamps older than the window.
    pub fn prune_errors(&mut self, window: u64, now: u64)
        ensures
            final(self)@ == (CircuitModel { errors: pruned(old(self)@.errors, window, now), ..old(self)@ }),
    {
        while self.error_timestamps.len() > 0 && self.error_timestamps[0] <= now && now - self.error_timestamps[0] > window
            invariant
                pruned(old(self)@.errors, window, now) == pruned(self.error_timestamps@, window, now),
                self.state == old(self).state,
                self.opened_at == old(self).opened_at,
                self.probe_in_flight == old(self).probe_in_flight,
            decreases self.error_timestamps@.len(),
        {
            let ghost cur = self.error_timestamps@;
            let _ = self.error_timestamps.pop_front();
            assert(cur.drop_first() =~= self.error_timestamps@);
        }
        assert(pruned(self.error_timestamps@, window, now) == self.error_timestamps@);
    }

    /// Applies [`receive_step`]; returns whether the message may pass.
    pub fn on_receive_at(&mut self, cooldown: u64, now: u64) -> (pass: bool)
        ensures
            (final(self)@, pass) == receive_step(old(self)@, cooldown, now),
    {
        match self.state {
            CircuitState::Closed => true,
            CircuitState::Open => {
                match self.opened_at {
                    Some(t) => {
                        if t <= now && now - t >= cooldown || t > now && cooldown == 0 {
                            self.state = CircuitState::HalfOpen;
                            self.probe_in_flight = true;
                            true
                        } else {
                            false
                        }
                    },
                    None => false,
                }
            },
            CircuitState::HalfOpen => {
                if self.probe_in_flight {
                    false
                } else {
                    self.probe_in_flight = true;
                    true
                }
            },
        }
    }

    /// Applies [`complete_step`].
    pub fn on_complete_at(&mut self, is_error: bool, threshold: u32, window: u64, now: u64)
        ensures
            final(self)@ == complete_step(old(self)@, is_error, threshold, window, now),
    {
        match self.state {
            CircuitState::Closed => {
                if is_error {
                    self.error_timestamps.push_back(now);
                    self.prune_errors(window, now);
                    if self.error_timestamps.len() >= threshold as usize {
                        self.state = CircuitState::Open;
                        self.opened_at = Some(now);
                    }
                }
            },
            CircuitState::HalfOpen => {
                self.probe_in_flight = false;
                if is_error {
                    self.state = CircuitState::Open;
                    self.opened_at = Some(now);
                    self.error_timestamps.push_back(now);
                    self.prune_errors(window, now);
                } else {
                    self.state = CircuitState::Closed;
                    self.error_timestamps.clear();
                    self.opened_at = None;
                }
            },
            CircuitState::Open => {
                if is_error {
                    self.error_timestamps.push_back(now);
                    self.prune_errors(window, now);
                }
            },
        }
    }
}

/// Inbound interceptor that implements the circuit breaker pattern.
///
/// When an actor's error count within a sliding time window reaches
/// `error_threshold`, the circuit opens and all subsequent messages are
/// rejected. After `cooldown` elapses the circuit enters half-open state,
/// allowing a single probe message through. If the probe succeeds the
/// circuit closes; if it fails the circuit re-opens.
pub struct CircuitBreakerInterceptor {
    /// Number of errors within the window required to trip the circuit.
    error_threshold: u32,
    /// Sliding window for counting errors, in nanoseconds.
    error_window: u64,
    /// How long the circuit stays open before half-open, in nanoseconds.
    cooldown: u64,
    /// Per-actor circuit state.
    states: Vec<(ActorId, CircuitBreakerState)>,
    /// Origin of the monotonic clock readings.
    origin: std::time::Instant,
}

/// Validity of a per-actor table: distinct actors, each circuit valid for
/// the threshold.
pub open spec fn table_wf(states: Seq<(ActorId, CircuitBreakerState)>, threshold: u32) -> bool {
    &&& keys_distinct(states)
    &&& forall|i: int| 0 <= i < states.len() ==> circuit_wf(#[trigger] states[i].1@, threshold)
}

/// The circuit an actor has in a table (a fresh one when absent).
pub open spec fn table_circuit(states: Seq<(ActorId, CircuitBreakerState)>, k: ActorKey) -> CircuitModel {
    if assoc_map(states).dom().contains(k) {
        assoc_map(states)[k]@
    } else {
        fresh_circuit()
    }
}

/// Position of the actor's entry in the table, adding a fresh one if needed.
fn table_entry(states: &mut Vec<(ActorId, CircuitBreakerState)>, actor_id: &ActorId, threshold: u32) -> (i: usize)
    requires
        table_wf(old(states)@, threshold),
    ensures
        table_wf(final(states)@, threshold),
        i < final(states)@.len(),
        final(states)@[i as int].0@ == actor_id@,
        forall|k: ActorKey| table_circuit(final(states)@, k) == table_circuit(old(states)@, k),
{
    let r = assoc_find(states, actor_id);
    proof {
        lemma_assoc_find(states@, actor_id@, r);
    }
    match r {
        Some(i) => i,
        None => {
            let ghost before = states@;
            let key = actor_id.duplicate();
            let st = CircuitBreakerState::new();
            proof {
                lemma_assoc_push(before, key, st);
            }
            states.push((key, st));
            assert(states@ == before.push((key, st)));
            assert forall|j: int| 0 <= j < states@.len() implies circuit_wf(#[trigger] states@[j].1@, threshold) by {
                if j < before.len() {
                    assert(states@[j] == before[j]);
                }
            }
            states.len() - 1
        },
    }
}

/// Completing a handler keeps a circuit valid.
pub proof fn lemma_complete_keeps_wf(m: CircuitModel, is_error: bool, threshold: u32, window: u64, now: u64)
    requires
        circuit_wf(m, threshold),
    ensures
        circuit_wf(complete_step(m, is_error, threshold, window, now), threshold),
{
}

/// Receiving a message keeps a circuit valid.
pub proof fn lemma_receive_keeps_wf(m: CircuitModel, cooldown: u64, now: u64, threshold: u32)
    requires
        circuit_wf(m, threshold),
    ensures
        circuit_wf(receive_step(m, cooldown, now).0, threshold),
{
}

/// The receive step on the table entry for an actor.
fn table_receive(states: &mut Vec<(ActorId, CircuitBreakerState)>, actor_id: &ActorId, threshold: u32, cooldown: u64, now: u64) -> (pass: bool)
    requires
        table_wf(old(states)@, threshold),
    ensures
        table_wf(final(states)@, threshold),
        table_circuit(final(states)@, actor_id@) == receive_step(table_circuit(old(states)@, actor_id@), cooldown, now).0,
        pass == receive_step(table_circuit(old(states)@, actor_id@), cooldown, now).1,
        forall|k: ActorKey| k != actor_id@ ==> table_circuit(final(states)@, k) == table_circuit(old(states)@, k),
{
    let i = table_entry(states, actor_id, threshold);
    let ghost before = states@;
    proof {
        lemma_assoc_index(before, i as int);
    }
    let pass = states[i].1.on_receive_at(cooldown, now);
    proof {
        let after = states@;
        assert(after == before.update(i as int, (before[i as int].0, after[i as int].1)));
        lemma_assoc_update(before, i as int, after[i as int].1);
        assert forall|j: int| 0 <= j < after.len() implies circuit_wf(#[trigger] after[j].1@, threshold) by {
            if j != i {
                assert(after[j] == before[j]);
            } else {
                lemma_receive_keeps_wf(before[j].1@, cooldown, now, threshold);
            }
        }
    }
    pass
}

/// The completion step on the table entry for an actor.
fn table_complete(states: &mut Vec<(ActorId, CircuitBreakerState)>, actor_id: &ActorId, is_error: bool, threshold: u32, window: u64, now: u64)
    requires
        table_wf(old(states)@, threshold),
    ensures
        table_wf(final(states)@, threshold),
        table_circuit(final(states)@, actor_id@) == complete_step(table_circuit(old(states)@, actor_id@), is_error, threshold, window, now),
        forall|k: ActorKey| k != actor_id@ ==> table_circuit(final(states)@, k) == table_circuit(old(states)@, k),
{
    let i = table_entry(states, actor_id, threshold);
    let ghost before = states@;
    proof {
        lemma_assoc_index(before, i as int);
    }
    states[i].1.on_complete_at(is_error, threshold, window, now);
    proof {
        let after = states@;
        assert(after == before.update(i as int, (before[i as int].0, after[i as int].1)));
        lemma_assoc_update(before, i as int, after[i as int].1);
        assert forall|j: int| 0 <= j < after.len() implies circuit_wf(#[trigger] after[j].1@, threshold) by {
            if j != i {
                assert(after[j] == before[j]);
            } else {
                lemma_complete_keeps_wf(before[j].1@, is_error, threshold, window, now);
            }
        }
    }
}

impl CircuitBreakerInterceptor {
    /// Error threshold.
    pub closed spec fn threshold(&self) -> u32 {
        self.error_threshold
    }

    /// Error window in nanoseconds.
    pub closed spec fn window(&self) -> u64 {
        self.error_window
    }

    /// Cooldown in nanoseconds.
    pub closed spec fn cooldown_nanos(&self) -> u64 {
        self.cooldown
    }

    /// The circuit of an actor (a fresh one for actors never seen).
    pub closed spec fn circuit(&self, k: ActorKey) -> CircuitModel {
        table_circuit(self.states@, k)
    }

    #[verifier::type_invariant]
    spec fn wf(&self) -> bool {
        table_wf(self.states@, self.error_threshold)
    }

    /// Create a new circuit breaker interceptor: trip after `error_threshold`
    /// errors within `error_window`, stay open for `cooldown`.
    pub fn new(error_threshold: u32, error_window: std::time::Duration, cooldown: std::time::Duration) -> (cb: Self)
        ensures
            cb.threshold() == error_threshold,
            cb.window() == nanos_of(error_window),
            cb.cooldown_nanos() == nanos_of(cooldown),
            forall|k: ActorKey| cb.circuit(k) == fresh_circuit(),
    {
        let states: Vec<(ActorId, CircuitBreakerState)> = Vec::new();
        assert(assoc_map(states@) == Map::<ActorKey, CircuitBreakerState>::empty());
        CircuitBreakerInterceptor {
            error_threshold,
            error_window: duration_to_nanos(error_window),
            cooldown: duration_to_nanos(cooldown),
            states,
            origin: instant_now(),
        }
    }

    /// Query the current circuit state for an actor (`Closed` if unseen).
    pub fn state_for(&self, actor_id: &ActorId) -> (s: CircuitState)
        ensures
            s == self.circuit(actor_id@).state,
    {
        proof {
            use_type_invariant(self);
        }
        let r = assoc_find(&self.states, actor_id);
        proof {
            lemma_assoc_find(self.states@, actor_id@, r);
        }
        match r {
            Some(i) => self.states[i].1.state,
            None => CircuitState::Closed,
        }
    }

    /// A message for `actor_id` (named `actor_name`) arrives at time `now`:
    /// the actor's circuit takes a [`receive_step`], all other circuits stay,
    /// and the message continues or is rejected with
    /// `circuit breaker open: <actor_name>`.
    pub fn on_receive_at(&mut self, actor_id: &ActorId, actor_name: &str, now: u64) -> (d: Disposition)
        ensures
            final(self).threshold() == old(self).threshold(),
            final(self).window() == old(self).window(),
            final(self).cooldown_nanos() == old(self).cooldown_nanos(),
            final(self).circuit(actor_id@) == receive_step(old(self).circuit(actor_id@), old(self).cooldown_nanos(), now).0,
            forall|k: ActorKey| k != actor_id@ ==> final(self).circuit(k) == old(self).circuit(k),
            receive_step(old(self).circuit(actor_id@), old(self).cooldown_nanos(), now).1 ==> d is Continue,
            !receive_step(old(self).circuit(actor_id@), old(self).cooldown_nanos(), now).1 ==>
                (d matches Disposition::Reject(reason) && reason@ == "circuit breaker open: "@ + actor_name@),
    {
        proof {
            use_type_invariant(&*self);
        }
        let mut states: Vec<(ActorId, CircuitBreakerState)> = Vec::new();
        std::mem::swap(&mut states, &mut self.states);
        let pass = table_receive(&mut states, actor_id, self.error_threshold, self.cooldown, now);
        self.states = states;
        if pass {
            Disposition::Continue
        } else {
            let mut reason = String::from_str("circuit breaker open: ");
            reason.append(actor_name);
            Disposition::Reject(reason)
        }
    }

    /// The handler for `actor_id` finished at time `now`, with an error or
    /// not: the actor's circuit takes a [`complete_step`], all other circuits
    /// stay.
    pub fn on_complete_at(&mut self, actor_id: &ActorId, is_error: bool, now: u64)
        ensures
            final(self).threshold() == old(self).threshold(),
            final(self).window() == old(self).window(),
            final(self).cooldown_nanos() == old(self).cooldown_nanos(),
            final(self).circuit(actor_id@) == complete_step(old(self).circuit(actor_id@), is_error, old(self).threshold(), old(self).window(), now),
            forall|k: ActorKey| k != actor_id@ ==> final(self).circuit(k) == old(self).circuit(k),
    {
        proof {
            use_type_invariant(&*self);
        }
        let mut states: Vec<(ActorId, CircuitBreakerState)> = Vec::new();
        std::mem::swap(&mut states, &mut self.states);
        table_complete(&mut states, actor_id, is_error, self.error_threshold, self.error_window, now);
        self.states = states;
    }
}

impl InboundInterceptor for CircuitBreakerInterceptor {
    fn name(&self) -> (n: &'static str)
        ensures
            n@ == "circuit-breaker"@,
    {
        "circuit-breaker"
    }

    fn on_receive(&mut self, ctx: &InboundContext<'_>) -> (d: Disposition)
        ensures
            exists|now: u64|
                final(self).circuit(ctx.actor_id@) == (#[trigger] receive_step(old(self).circuit(ctx.actor_id@), old(self).cooldown_nanos(), now)).0
                && (receive_step(old(self).circuit(ctx.actor_id@), old(self).cooldown_nanos(), now).1 <==> d is Continue),
            forall|k: ActorKey| k != ctx.actor_id@ ==> final(self).circuit(k) == old(self).circuit(k),
    {
        let now = nanos_since(&self.origin);
        self.on_receive_at(&ctx.actor_id, ctx.actor_name, now)
    }

    fn on_complete(&mut self, ctx: &InboundContext<'_>, outcome: &Outcome)
        ensures
            exists|now: u64|
                final(self).circuit(ctx.actor_id@) == #[trigger] complete_step(old(self).circuit(ctx.actor_id@), *outcome is HandlerError, old(self).threshold(), old(self).window(), now),
            forall|k: ActorKey| k != ctx.actor_id@ ==> final(self).circuit(k) == old(self).circuit(k),
    {
        let now = nanos_since(&self.origin);
        let is_error = outcome.is_handler_error();
        self.on_complete_at(&ctx.actor_id, is_error, now);
    }
}


/// The circuit after handlers fail at each of the times `ts`, in order.
pub open spec fn after_errors(m: CircuitModel, ts: Seq<u64>, threshold: u32, window: u64) -> CircuitModel
    decreases ts.len(),
{
    if ts.len() == 0 {
        m
    } else {
        complete_step(after_errors(m, ts.drop_last(), threshold, window), true, threshold, window, ts.last())
    }
}

/// Times that never decrease.
pub open spec fn non_decreasing(ts: Seq<u64>) -> bool {
    forall|i: int, j: int| 0 <= i <= j < ts.len() ==> ts[i] <= ts[j]
}

/// Pruning error times recorded in order keeps exactly those within the
/// window of `now`, each as often as it was recorded: a time stays iff it
/// was recorded and is at most `window` old, however old and recent times
/// are mixed.
pub proof fn law_pruned_keeps_in_window(ts: Seq<u64>, window: u64, now: u64, t: u64)
    requires
        non_decreasing(ts),
    ensures
        pruned(ts, window, now).contains(t) <==> (ts.contains(t) && elapsed(now, t) <= window),
        pruned(ts, window, now).to_multiset().count(t)
            == if elapsed(now, t) <= window { ts.to_multiset().count(t) } else { 0 },
    decreases ts.len(),
{
    broadcast use vstd::seq_lib::group_to_multiset_ensures;
    let r = pruned(ts, window, now);
    if ts.len() == 0 {
        assert(ts.to_multiset().len() == 0);
        if ts.to_multiset().count(t) > 0 {
            assert(ts.contains(t));
        }
    } else if elapsed(now, ts[0]) > window {
        let d = ts.drop_first();
        assert(non_decreasing(d)) by {
            assert forall|i: int, j: int| 0 <= i <= j < d.len() implies d[i] <= d[j] by {
                assert(d[i] == ts[i + 1] && d[j] == ts[j + 1]);
            }
        }
        law_pruned_keeps_in_window(d, window, now, t);
        assert(d.insert(0, ts[0]) =~= ts);
        assert(ts.contains(t) <==> (t == ts[0] || d.contains(t))) by {
            if ts.contains(t) && t != ts[0] {
                let k = choose|k: int| 0 <= k < ts.len() && ts[k] == t;
                assert(d[k - 1] == t);
            }
            if d.contains(t) {
                let k = choose|k: int| 0 <= k < d.len() && d[k] == t;
                assert(ts[k + 1] == t);
            }
            if t == ts[0] {
                assert(ts[0] == t);
            }
        }
        assert(r.to_multiset().count(t) > 0 <==> r.contains(t));
        assert(d.to_multiset().count(t) > 0 <==> d.contains(t));
    } else {
        assert forall|i: int| 0 <= i < ts.len() implies elapsed(now, #[trigger] ts[i]) <= window by {
            assert(ts[0] <= ts[i]);
        }
        assert(r == ts);
        if ts.contains(t) {
            let k = choose|k: int| 0 <= k < ts.len() && ts[k] == t;
            assert(elapsed(now, ts[k]) <= window);
        }
        assert(ts.to_multiset().count(t) > 0 <==> ts.contains(t));
    }
}

/// Pruning only ever drops the oldest error times: what is left is the
/// recorded times from some position on, in the order they were recorded.
pub proof fn law_pruned_is_suffix(ts: Seq<u64>, window: u64, now: u64)
    ensures
        exists|k: int| 0 <= k <= ts.len() && pruned(ts, window, now) == #[trigger] ts.subrange(k, ts.len() as int),
    decreases ts.len(),
{
    if ts.len() > 0 && elapsed(now, ts[0]) > window {
        let d = ts.drop_first();
        law_pruned_is_suffix(d, window, now);
        let k = choose|k: int| 0 <= k <= d.len() && pruned(d, window, now) == #[trigger] d.subrange(k, d.len() as int);
        assert(d.subrange(k, d.len() as int) =~= ts.subrange(k + 1, ts.len() as int));
    } else {
        assert(ts.subrange(0, ts.len() as int) =~= ts);
    }
}

/// Nothing is pruned when every time is within the window of `now`.
proof fn lemma_pruned_keeps_recent(ts: Seq<u64>, window: u64, now: u64)
    requires
        forall|i: int| 0 <= i < ts.len() ==> elapsed(now, #[trigger] ts[i]) <= window,
    ensures
        pruned(ts, window, now) == ts,
{
}

/// Fewer errors than the threshold, all within the window, leave a fresh
/// circuit closed with all of them recorded; the error that reaches the
/// threshold opens it.
pub proof fn law_opens_at_threshold(ts: Seq<u64>, threshold: u32, window: u64)
    requires
        threshold > 0,
        ts.len() <= threshold,
        non_decreasing(ts),
        ts.len() > 0 ==> ts.last() - ts[0] <= window,
    ensures
        ts.len() < threshold ==> after_errors(fresh_circuit(), ts, threshold, window).state == CircuitState::Closed
            && after_errors(fresh_circuit(), ts, threshold, window).errors == ts,
        ts.len() == threshold ==> after_errors(fresh_circuit(), ts, threshold, window).state == CircuitState::Open,
    decreases ts.len(),
{
    if ts.len() > 0 {
        let prev = ts.drop_last();
        assert(prev.len() > 0 ==> prev.last() - prev[0] <= window) by {
            if prev.len() > 0 {
                assert(prev.last() == ts[ts.len() - 2]);
                assert(ts[ts.len() - 2] <= ts.last());
            }
        }
        law_opens_at_threshold(prev, threshold, window);
        let now = ts.last();
        assert forall|i: int| 0 <= i < prev.push(now).len() implies elapsed(now, #[trigger] prev.push(now)[i]) <= window by {
            assert(prev.push(now)[i] == ts[i]);
            assert(ts[0] <= ts[i] <= now);
        }
        lemma_pruned_keeps_recent(prev.push(now), window, now);
        assert(prev.push(now) =~= ts);
    }
}

/// A successful handler leaves a closed circuit as it is.
pub proof fn law_success_keeps_closed(m: CircuitModel, threshold: u32, window: u64, now: u64)
    requires
        m.state == CircuitState::Closed,
    ensures
        complete_step(m, false, threshold, window, now) == m,
        receive_step(m, 0, now) == (m, true),
{
}

/// An open circuit rejects every message until the cooldown has passed
/// since it opened, and changes nothing meanwhile.
pub proof fn law_open_rejects_during_cooldown(m: CircuitModel, cooldown: u64, now: u64)
    requires
        m.state == CircuitState::Open,
        m.opened_at matches Some(t) && elapsed(now, t) < cooldown,
    ensures
        receive_step(m, cooldown, now) == (m, false),
{
}

/// After the cooldown exactly one probe passes: the first message moves the
/// circuit to half-open and passes, the next one is rejected while the probe
/// is in flight.
pub proof fn law_single_probe(m: CircuitModel, cooldown: u64, t1: u64, t2: u64)
    requires
        m.state == CircuitState::Open,
        m.opened_at matches Some(t) && elapsed(t1, t) >= cooldown,
    ensures
        receive_step(m, cooldown, t1).1,
        receive_step(m, cooldown, t1).0.state == CircuitState::HalfOpen,
        !receive_step(receive_step(m, cooldown, t1).0, cooldown, t2).1,
{
}

/// The probe decides: a successful probe closes the circuit and forgets
/// past errors; a failed one opens it again at that time.
pub proof fn law_probe_outcome(m: CircuitModel, threshold: u32, window: u64, now: u64)
    requires
        m.state == CircuitState::HalfOpen,
    ensures
        complete_step(m, false, threshold, window, now) == fresh_circuit(),
        complete_step(m, true, threshold, window, now).state == CircuitState::Open,
        complete_step(m, true, threshold, window, now).opened_at == Some(now),
{
}

/// Every step keeps a circuit valid.
pub proof fn law_steps_keep_valid(m: CircuitModel, is_error: bool, threshold: u32, window: u64, cooldown: u64, now: u64)
    requires
        circuit_wf(m, threshold),
    ensures
        circuit_wf(complete_step(m, is_error, threshold, window, now), threshold),
        circuit_wf(receive_step(m, cooldown, now).0, threshold),
{
    lemma_complete_keeps_wf(m, is_error, threshold, window, now);
    lemma_receive_keeps_wf(m, cooldown, now, threshold);
}

} // verus!
