//! Supervision: child-termination notices and the strategies a supervisor
//! uses to react to failed children ([`OneForOne`], [`AllForOne`],
//! [`RestForOne`]), each limiting restarts to `max_restarts` within a time
//! window.
//!
//! Times are nanosecond counts on the monotonic clock; the `*_at` methods
//! take the current time as an argument and the [`SupervisionStrategy`]
//! impls read the clock and delegate to them.

use vstd::prelude::*;
use vstd::string::*;
use crate::actor::ActorError;
use crate::assoc::{assoc_find, assoc_map, keys_distinct, lemma_assoc_find, lemma_assoc_index, lemma_assoc_push, lemma_assoc_update, KeyEq};
use crate::node::{ActorId, ActorKey, NodeId, keys_of};
use crate::time::{duration_to_nanos, elapsed, instant_now, nanos_of, nanos_since};

verus! {

/// Notification delivered when a watched actor terminates.
#[derive(Debug)]
pub struct ChildTerminated {
    /// The ID of the actor that terminated.
    pub child_id: ActorId,
    /// The name the actor was spawned with.
    pub child_name: String,
    /// `None` for graceful shutdown, `Some(reason)` for failure.
    pub reason: Option<String>,
}

/// Action a supervisor should take when a child fails.
#[derive(Debug, Clone, Copy, PartialEq, Eq, Structural)]
pub enum SupervisionAction {
    /// Restart the failed child (and possibly siblings, depending on strategy).
    Restart,
    /// Stop the failed child permanently.
    Stop,
    /// Escalate the failure to this supervisor's parent.
    Escalate,
}

/// Determines how a supervisor reacts to child failures.
pub trait SupervisionStrategy {
    /// Called when a child actor fails; returns the action to take.
    fn on_child_failed(&mut self, child_id: &ActorId, child_name: &str, error: &ActorError) -> SupervisionAction;
}

/// The restart times that are still within `within` at `now`.
pub open spec fn recent(ts: Seq<u64>, within: u64, now: u64) -> Seq<u64> {
    ts.filter(in_window(within, now))
}

/// Whether a time is within `within` of `now`.
pub open spec fn in_window(within: u64, now: u64) -> spec_fn(u64) -> bool {
    |t: u64| elapsed(now, t) <= within
}

/// One restart attempt at `now` against a list of earlier restart times:
/// the times kept afterwards, and whether the restart is allowed. Times
/// outside the window are forgotten; the restart is allowed when fewer than
/// `max_restarts` remain, and then its time is recorded.
pub open spec fn restart_step(ts: Seq<u64>, max_restarts: u32, within: u64, now: u64) -> (Seq<u64>, bool) {
    let kept = recent(ts, within, now);
    if kept.len() >= max_restarts {
        (kept, false)
    } else {
        (kept.push(now), true)
    }
}

/// The restart times kept for a key in a table (none when absent).
pub open spec fn history_of(table: Seq<(ActorId, Vec<u64>)>, k: ActorKey) -> Seq<u64> {
    if assoc_map(table).dom().contains(k) {
        assoc_map(table)[k]@
    } else {
        Seq::empty()
    }
}

/// The key under which group-wide restarts are counted.
pub open spec fn group_key() -> ActorKey {
    ("__supervision_group__"@, 0u64)
}

fn recent_restarts(ts: &Vec<u64>, within: u64, now: u64) -> (kept: Vec<u64>)
    ensures
        kept@ == recent(ts@, within, now),
{
    let ghost pred = in_window(within, now);
    let mut kept: Vec<u64> = Vec::new();
    let mut i: usize = 0;
    assert(ts@.take(0).filter(pred) =~= Seq::<u64>::empty()) by {
        reveal(Seq::filter);
    }
    while i < ts.len()
        invariant
            i <= ts@.len(),
            kept@ == ts@.take(i as int).filter(pred),
            pred == in_window(within, now),
        decreases ts@.len() - i,
    {
        let t = ts[i];
        if t > now || now - t <= within {
            kept.push(t);
        }
        proof {
            reveal(Seq::filter);
            assert(pred(t) == (elapsed(now, t) <= within));
            assert((elapsed(now, t) <= within) == (t > now || now - t <= within));
            assert(ts@.take(i + 1).drop_last() =~= ts@.take(i as int));
            assert(ts@.take(i + 1).last() == t);
        }
        i = i + 1;
    }
    assert(ts@.take(ts@.len() as int) =~= ts@);
    kept
}

/// Restart-rate tracking shared by the built-in strategies: per-key restart
/// times within a sliding window.
pub struct RestartTracker {
    max_restarts: u32,
    within: u64,
    timestamps: Vec<(ActorId, Vec<u64>)>,
}

impl RestartTracker {
    /// Maximum restarts within the window.
    pub closed spec fn max(&self) -> u32 {
        self.max_restarts
    }

    /// Window length in nanoseconds.
    pub closed spec fn window(&self) -> u64 {
        self.within
    }

    /// Restart times recorded for a key.
    pub closed spec fn history(&self, k: ActorKey) -> Seq<u64> {
        history_of(self.timestamps@, k)
    }

    #[verifier::type_invariant]
    spec fn wf(&self) -> bool {
        keys_distinct(self.timestamps@)
    }

    /// A tracker with no recorded restarts.
    pub fn new(max_restarts: u32, within: u64) -> (t: Self)
        ensures
            t.max() == max_restarts,
            t.window() == within,
            forall|k: ActorKey| t.history(k) == Seq::<u64>::empty(),
    {
        let timestamps: Vec<(ActorId, Vec<u64>)> = Vec::new();
        assert(assoc_map(timestamps@) == Map::<ActorKey, Vec<u64>>::empty());
        RestartTracker { max_restarts, within, timestamps }
    }

    /// Record a restart attempt for `child_id` at `now`. Returns whether it
    /// is allowed; see [`restart_step`].
    pub fn record(&mut self, child_id: &ActorId, now: u64) -> (allowed: bool)
        ensures
            final(self).max() == old(self).max(),
            final(self).window() == old(self).window(),
            (final(self).history(child_id@), allowed) == restart_step(old(self).history(child_id@), old(self).max(), old(self).window(), now),
            forall|k: ActorKey| k != child_id@ ==> final(self).history(k) == old(self).history(k),
    {
        proof {
            use_type_invariant(&*self);
        }
        let mut table: Vec<(ActorId, Vec<u64>)> = Vec::new();
        std::mem::swap(&mut table, &mut self.timestamps);
        let allowed = record_in(&mut table, child_id, self.max_restarts, self.within, now);
        self.timestamps = table;
        allowed
    }

    /// Record a restart attempt against the group-wide budget (the key
    /// `__supervision_group__`/0).
    pub fn record_global(&mut self, now: u64) -> (allowed: bool)
        ensures
            final(self).max() == old(self).max(),
            final(self).window() == old(self).window(),
            (final(self).history(group_key()), allowed) == restart_step(old(self).history(group_key()), old(self).max(), old(self).window(), now),
            forall|k: ActorKey| k != group_key() ==> final(self).history(k) == old(self).history(k),
    {
        let sentinel = ActorId { node: NodeId(String::from_str("__supervision_group__")), local: 0 };
        self.record(&sentinel, now)
    }
}

fn record_in(table: &mut Vec<(ActorId, Vec<u64>)>, child_id: &ActorId, max_restarts: u32, within: u64, now: u64) -> (allowed: bool)
    requires
        keys_distinct(old(table)@),
    ensures
        keys_distinct(final(table)@),
        (history_of(final(table)@, child_id@), allowed) == restart_step(history_of(old(table)@, child_id@), max_restarts, within, now),
        forall|k: ActorKey| k != child_id@ ==> history_of(final(table)@, k) == history_of(old(table)@, k),
{
    let r = assoc_find(table, child_id);
    proof {
        lemma_assoc_find(table@, child_id@, r);
    }
    let i = match r {
        Some(i) => i,
        None => {
            let ghost before = table@;
            let key = child_id.duplicate();
            let empty: Vec<u64> = Vec::new();
            proof {
                lemma_assoc_push(before, key, empty);
            }
            table.push((key, empty));
            assert(table@ == before.push((key, empty)));
            assert forall|k: ActorKey| history_of(table@, k) == history_of(before, k) by {
                if k == child_id@ {
                    assert(empty@ =~= Seq::<u64>::empty());
                }
            }
            table.len() - 1
        },
    };
    let ghost before = table@;
    proof {
        lemma_assoc_index(before, i as int);
    }
    let mut kept = recent_restarts(&table[i].1, within, now);
    let allowed = kept.len() < max_restarts as usize;
    if allowed {
        kept.push(now);
    }
    let key = table[i].0.duplicate();
    proof {
        lemma_assoc_update(before, i as int, kept);
    }
    table.set(i, (key, kept));
    assert(table@ == before.update(i as int, (before[i as int].0, kept)));
    allowed
}

/// Restart only the failed child actor. This is the default strategy.
///
/// If `max_restarts` is exceeded within `within` for that child, returns
/// [`SupervisionAction::Stop`].
pub struct OneForOne {
    tracker: RestartTracker,
    origin: std::time::Instant,
}

impl OneForOne {
    /// The restart bookkeeping.
    pub closed spec fn tracker(&self) -> RestartTracker {
        self.tracker
    }

    /// Create a new OneForOne strategy with the given restart limits.
    pub fn new(max_restarts: u32, within: std::time::Duration) -> (s: Self)
        ensures
            s.tracker().max() == max_restarts,
            s.tracker().window() == nanos_of(within),
            forall|k: ActorKey| s.tracker().history(k) == Seq::<u64>::empty(),
    {
        OneForOne { tracker: RestartTracker::new(max_restarts, duration_to_nanos(within)), origin: instant_now() }
    }

    /// A child failed at `now`: restart it while its own budget allows,
    /// otherwise stop it.
    pub fn on_child_failed_at(&mut self, child_id: &ActorId, now: u64) -> (a: SupervisionAction)
        ensures
            final(self).tracker().max() == old(self).tracker().max(),
            final(self).tracker().window() == old(self).tracker().window(),
            (final(self).tracker().history(child_id@), a == SupervisionAction::Restart)
                == restart_step(old(self).tracker().history(child_id@), old(self).tracker().max(), old(self).tracker().window(), now),
            a != SupervisionAction::Escalate,
            forall|k: ActorKey| k != child_id@ ==> final(self).tracker().history(k) == old(self).tracker().history(k),
    {
        if self.tracker.record(child_id, now) {
            SupervisionAction::Restart
        } else {
            SupervisionAction::Stop
        }
    }
}

impl SupervisionStrategy for OneForOne {
    fn on_child_failed(&mut self, child_id: &ActorId, child_name: &str, error: &ActorError) -> (a: SupervisionAction)
        ensures
            exists|now: u64| (final(self).tracker().history(child_id@), a == SupervisionAction::Restart)
                == #[trigger] restart_step(old(self).tracker().history(child_id@), old(self).tracker().max(), old(self).tracker().window(), now),
            a != SupervisionAction::Escalate,
            forall|k: ActorKey| k != child_id@ ==> final(self).tracker().history(k) == old(self).tracker().history(k),
    {
        let now = nanos_since(&self.origin);
        self.on_child_failed_at(child_id, now)
    }
}

/// Restart **all** children when any one fails, against one group-wide
/// restart budget.
pub struct AllForOne {
    tracker: RestartTracker,
    origin: std::time::Instant,
}

impl AllForOne {
    /// The restart bookkeeping.
    pub closed spec fn tracker(&self) -> RestartTracker {
        self.tracker
    }

    /// Create a new AllForOne strategy with the given restart limits.
    pub fn new(max_restarts: u32, within: std::time::Duration) -> (s: Self)
        ensures
            s.tracker().max() == max_restarts,
            s.tracker().window() == nanos_of(within),
            forall|k: ActorKey| s.tracker().history(k) == Seq::<u64>::empty(),
    {
        AllForOne { tracker: RestartTracker::new(max_restarts, duration_to_nanos(within)), origin: instant_now() }
    }

    /// Some child failed at `now`: restart while the group budget allows,
    /// otherwise stop.
    pub fn on_child_failed_at(&mut self, now: u64) -> (a: SupervisionAction)
        ensures
            final(self).tracker().max() == old(self).tracker().max(),
            final(self).tracker().window() == old(self).tracker().window(),
            (final(self).tracker().history(group_key()), a == SupervisionAction::Restart)
                == restart_step(old(self).tracker().history(group_key()), old(self).tracker().max(), old(self).tracker().window(), now),
            a != SupervisionAction::Escalate,
    {
        if self.tracker.record_global(now) {
            SupervisionAction::Restart
        } else {
            SupervisionAction::Stop
        }
    }
}

impl SupervisionStrategy for AllForOne {
    fn on_child_failed(&mut self, child_id: &ActorId, child_name: &str, error: &ActorError) -> (a: SupervisionAction)
        ensures
            exists|now: u64| (final(self).tracker().history(group_key()), a == SupervisionAction::Restart)
                == #[trigger] restart_step(old(self).tracker().history(group_key()), old(self).tracker().max(), old(self).tracker().window(), now),
            a != SupervisionAction::Escalate,
    {
        let now = nanos_since(&self.origin);
        self.on_child_failed_at(now)
    }
}

/// The children to restart when `failed` fails: from the first registered
/// child equal to it to the end, or just `failed` when it is not registered.
pub open spec fn rest_from(children: Seq<ActorKey>, failed: ActorKey) -> Seq<ActorKey> {
    if exists|i: int| 0 <= i < children.len() && children[i] == failed {
        let p = choose|p: int| 0 <= p < children.len() && children[p] == failed
            && forall|j: int| 0 <= j < p ==> children[j] != failed;
        children.subrange(p, children.len() as int)
    } else {
        seq![failed]
    }
}

/// Restart the failed child **and** all children registered after it.
pub struct RestForOne {
    tracker: RestartTracker,
    children: Vec<ActorId>,
    origin: std::time::Instant,
}

impl RestForOne {
    /// The restart bookkeeping.
    pub closed spec fn tracker(&self) -> RestartTracker {
        self.tracker
    }

    /// Registered children, in registration order.
    pub closed spec fn children(&self) -> Seq<ActorKey> {
        keys_of(self.children@)
    }

    /// Create a new RestForOne strategy with the given restart limits.
    pub fn new(max_restarts: u32, within: std::time::Duration) -> (s: Self)
        ensures
            s.tracker().max() == max_restarts,
            s.tracker().window() == nanos_of(within),
            forall|k: ActorKey| s.tracker().history(k) == Seq::<u64>::empty(),
            s.children() == Seq::<ActorKey>::empty(),
    {
        let s = RestForOne { tracker: RestartTracker::new(max_restarts, duration_to_nanos(within)), children: Vec::new(), origin: instant_now() };
        assert(keys_of(s.children@) =~= Seq::<ActorKey>::empty());
        s
    }

    /// Register a child in spawn order.
    pub fn register_child(&mut self, child_id: ActorId)
        ensures
            final(self).children() == old(self).children().push(child_id@),
            final(self).tracker() == old(self).tracker(),
    {
        self.children.push(child_id);
        assert(keys_of(self.children@) =~= keys_of(old(self).children@).push(child_id@));
    }

    /// The children to restart when `failed_id` fails: the failed child
    /// plus every child registered after it (see [`rest_from`]).
    pub fn children_to_restart(&self, failed_id: &ActorId) -> (r: Vec<ActorId>)
        ensures
            keys_of(r@) == rest_from(self.children(), failed_id@),
    {
        let ghost ks = self.children();
        let mut pos: usize = 0;
        while pos < self.children.len() && !self.children[pos].same_as(failed_id)
            invariant
                pos <= self.children@.len(),
                ks == keys_of(self.children@),
                forall|j: int| 0 <= j < pos ==> ks[j] != failed_id@,
            decreases self.children@.len() - pos,
        {
            pos = pos + 1;
        }
        if pos < self.children.len() {
            let mut out: Vec<ActorId> = Vec::new();
            let mut i: usize = pos;
            while i < self.children.len()
                invariant
                    pos <= i <= self.children@.len(),
                    ks == keys_of(self.children@),
                    keys_of(out@) == ks.subrange(pos as int, i as int),
                decreases self.children@.len() - i,
            {
                let c = self.children[i].clone();
                let ghost prev = out@;
                out.push(c);
                assert(out@ == prev.push(c));
                assert(c@ == ks[i as int]);
                assert(keys_of(out@) =~= keys_of(prev).push(c@));
                assert(keys_of(out@) =~= ks.subrange(pos as int, i + 1));
                i = i + 1;
            }
            assert(ks[pos as int] == failed_id@);
            let ghost p = choose|p: int| 0 <= p < ks.len() && ks[p] == failed_id@
                && forall|j: int| 0 <= j < p ==> ks[j] != failed_id@;
            assert(p == pos) by {
                if p < pos {
                } else if p > pos {
                    assert(ks[pos as int] != failed_id@);
                }
            }
            out
        } else {
            let mut out: Vec<ActorId> = Vec::new();
            out.push(failed_id.clone());
            assert(keys_of(out@) =~= seq![failed_id@]);
            out
        }
    }

    /// Some child failed at `now`: restart while the group budget allows,
    /// otherwise stop.
    pub fn on_child_failed_at(&mut self, now: u64) -> (a: SupervisionAction)
        ensures
            final(self).tracker().max() == old(self).tracker().max(),
            final(self).tracker().window() == old(self).tracker().window(),
            final(self).children() == old(self).children(),
            (final(self).tracker().history(group_key()), a == SupervisionAction::Restart)
                == restart_step(old(self).tracker().history(group_key()), old(self).tracker().max(), old(self).tracker().window(), now),
            a != SupervisionAction::Escalate,
    {
        if self.tracker.record_global(now) {
            SupervisionAction::Restart
        } else {
            SupervisionAction::Stop
        }
    }
}

impl SupervisionStrategy for RestForOne {
    fn on_child_failed(&mut self, child_id: &ActorId, child_name: &str, error: &ActorError) -> (a: SupervisionAction)
        ensures
            exists|now: u64| (final(self).tracker().history(group_key()), a == SupervisionAction::Restart)
                == #[trigger] restart_step(old(self).tracker().history(group_key()), old(self).tracker().max(), old(self).tracker().window(), now),
            a != SupervisionAction::Escalate,
            final(self).children() == old(self).children(),
    {
        let now = nanos_since(&self.origin);
        self.on_child_failed_at(now)
    }
}


/// Restart times that are all within the window are all kept.
proof fn lemma_recent_all(ts: Seq<u64>, within: u64, now: u64)
    requires
        forall|i: int| 0 <= i < ts.len() ==> elapsed(now, #[trigger] ts[i]) <= within,
    ensures
        recent(ts, within, now) == ts,
    decreases ts.len(),
{
    reveal(Seq::filter);
    if ts.len() > 0 {
        lemma_recent_all(ts.drop_last(), within, now);
        assert(ts.drop_last().push(ts.last()) =~= ts);
    }
}

/// The restart budget: with every earlier restart still within the window,
/// a restart is allowed exactly when fewer than `max_restarts` were made;
/// an allowed restart is recorded, a refused one records nothing.
pub proof fn law_restart_budget(ts: Seq<u64>, max_restarts: u32, within: u64, now: u64)
    requires
        forall|i: int| 0 <= i < ts.len() ==> elapsed(now, #[trigger] ts[i]) <= within,
    ensures
        restart_step(ts, max_restarts, within, now).1 == (ts.len() < max_restarts),
        restart_step(ts, max_restarts, within, now).0 == if ts.len() < max_restarts { ts.push(now) } else { ts },
{
    lemma_recent_all(ts, within, now);
}

/// Restarts outside the window are forgotten: once every earlier restart is
/// older than the window, a restart is allowed whenever the budget is not
/// zero.
pub proof fn law_old_restarts_forgotten(ts: Seq<u64>, max_restarts: u32, within: u64, now: u64)
    requires
        max_restarts > 0,
        forall|i: int| 0 <= i < ts.len() ==> elapsed(now, #[trigger] ts[i]) > within,
    ensures
        restart_step(ts, max_restarts, within, now) == (seq![now], true),
    decreases ts.len(),
{
    reveal(Seq::filter);
    if ts.len() > 0 {
        law_old_restarts_forgotten(ts.drop_last(), max_restarts, within, now);
    }
    assert(recent(ts, within, now) =~= Seq::<u64>::empty()) by {
        lemma_recent_none(ts, within, now);
    }
    assert(Seq::<u64>::empty().push(now) =~= seq![now]);
}

/// No restart time is kept when all are outside the window.
proof fn lemma_recent_none(ts: Seq<u64>, within: u64, now: u64)
    requires
        forall|i: int| 0 <= i < ts.len() ==> elapsed(now, #[trigger] ts[i]) > within,
    ensures
        recent(ts, within, now) == Seq::<u64>::empty(),
    decreases ts.len(),
{
    reveal(Seq::filter);
    if ts.len() > 0 {
        lemma_recent_none(ts.drop_last(), within, now);
    }
}

/// The restart times kept at `now` are exactly the earlier ones within the
/// window, each as often as it occurred, whatever mix of old and recent
/// times came before: a time is kept iff it was recorded and is at most
/// `within` old.
pub proof fn law_recent_keeps_in_window(ts: Seq<u64>, within: u64, now: u64, t: u64)
    ensures
        recent(ts, within, now).contains(t) <==> (ts.contains(t) && elapsed(now, t) <= within),
        recent(ts, within, now).to_multiset().count(t)
            == if elapsed(now, t) <= within { ts.to_multiset().count(t) } else { 0 },
    decreases ts.len(),
{
    broadcast use vstd::seq_lib::group_to_multiset_ensures;
    reveal(Seq::filter);
    let r = recent(ts, within, now);
    if ts.len() == 0 {
        assert(r =~= Seq::<u64>::empty());
        assert(r.to_multiset().len() == 0);
        assert(ts.to_multiset().len() == 0);
        if r.to_multiset().count(t) > 0 {
            assert(r.contains(t));
        }
        if ts.to_multiset().count(t) > 0 {
            assert(ts.contains(t));
        }
    } else {
        let p = ts.drop_last();
        let x = ts.last();
        law_recent_keeps_in_window(p, within, now, t);
        assert(ts =~= p.push(x));
        assert(p.push(x).to_multiset() =~= p.to_multiset().insert(x));
        if elapsed(now, x) <= within {
            assert(r =~= recent(p, within, now).push(x));
            assert(recent(p, within, now).push(x).to_multiset() =~= recent(p, within, now).to_multiset().insert(x));
        } else {
            assert(r =~= recent(p, within, now));
        }
        assert(r.to_multiset().count(t) > 0 <==> r.contains(t));
        assert(ts.to_multiset().count(t) > 0 <==> ts.contains(t));
    }
}

} // verus!
