//! Per-actor metrics: all-time counters and time-bucketed windowed data.
//!
//! Each handle keeps all-time message and error counters and a list of time
//! buckets, oldest first. Recording at time `now` first forgets buckets that
//! started more than `window` before `now`, then adds to the newest bucket,
//! opening a new one when the newest started `bucket_duration` or more
//! before `now`. Windowed queries look at the buckets that started within
//! `window` of `now`. Times are nanoseconds since the handle was created.

use vstd::prelude::*;
use vstd::string::*;
use vstd::relations::{sorted_by, total_ordering};
use vstd::seq_lib::{lemma_sorted_unique, to_multiset_build, to_multiset_insert};
use crate::assoc::{assoc_find, assoc_map, keys_distinct, lemma_assoc_find, lemma_assoc_len, lemma_assoc_push, lemma_assoc_remove, lemma_assoc_update, KeyedMap};
use crate::interceptor::{Disposition, InboundContext, InboundInterceptor, Outcome};
use crate::node::{ActorId, ActorKey};
use crate::time::{duration_from_millis, duration_to_nanos, elapsed, instant_now, nanos_of, nanos_since};

verus! {

/// A bucket as plain values.
pub struct BucketModel {
    pub start: u64,
    pub messages: u64,
    pub errors: u64,
    pub latencies: Seq<u64>,
    pub by_type: Map<Seq<char>, u64>,
}

/// Counts of one time bucket.
pub struct MetricsBucket {
    timestamp: u64,
    message_count: u64,
    error_count: u64,
    latencies: Vec<u64>,
    by_type: KeyedMap<String, u64>,
}

impl View for MetricsBucket {
    type V = BucketModel;

    closed spec fn view(&self) -> BucketModel {
        BucketModel {
            start: self.timestamp,
            messages: self.message_count,
            errors: self.error_count,
            latencies: self.latencies@,
            by_type: self.by_type.map(),
        }
    }
}

/// A bucket opened at `now`, with nothing recorded.
pub open spec fn empty_bucket(now: u64) -> BucketModel {
    BucketModel { start: now, messages: 0, errors: 0, latencies: Seq::empty(), by_type: Map::empty() }
}

/// `a + b`, saturated at `u64::MAX`.
pub open spec fn sat_add(a: u64, b: u64) -> u64 {
    if a + b > u64::MAX {
        u64::MAX
    } else {
        (a + b) as u64
    }
}

/// `a + 1`, wrapping to 0 after `u64::MAX`.
pub open spec fn wrap_inc(a: u64) -> u64 {
    if a == u64::MAX {
        0
    } else {
        (a + 1) as u64
    }
}

/// A count after `n` increments from `c`.
pub open spec fn incremented(c: u64, n: nat) -> u64
    decreases n,
{
    if n == 0 {
        c
    } else {
        wrap_inc(incremented(c, (n - 1) as nat))
    }
}

/// Recording `n` messages (or `n` errors) on a handle whose count is `c`
/// leaves the count at `c + n` modulo 2^64.
pub proof fn law_count_run(c: u64, n: nat)
    ensures
        incremented(c, n) == (c + n) % 0x1_0000_0000_0000_0000,
    decreases n,
{
    let m: int = 0x1_0000_0000_0000_0000;
    if n == 0 {
        vstd::arithmetic::div_mod::lemma_small_mod(c as nat, m as nat);
    } else {
        law_count_run(c, (n - 1) as nat);
        let x: int = c + n - 1;
        let a: int = x % m;
        vstd::arithmetic::div_mod::lemma_mod_pos_bound(x, m);
        vstd::arithmetic::div_mod::lemma_add_mod_noop(x, 1, m);
        vstd::arithmetic::div_mod::lemma_small_mod(1, m as nat);
        assert((a + 1) % m == (x + 1) % m);
        if a + 1 < m {
            vstd::arithmetic::div_mod::lemma_small_mod((a + 1) as nat, m as nat);
        } else {
            vstd::arithmetic::div_mod::lemma_mod_self_0(m);
        }
    }
}

/// Drops the leading buckets that started more than `window` before `now`.
pub open spec fn evict(bs: Seq<BucketModel>, window: u64, now: u64) -> Seq<BucketModel>
    decreases bs.len(),
{
    if bs.len() > 0 && elapsed(now, bs[0].start) > window {
        evict(bs.drop_first(), window, now)
    } else {
        bs
    }
}

/// The buckets after eviction, with a newest bucket to record into at `now`.
pub open spec fn with_current(bs: Seq<BucketModel>, bucket_duration: u64, window: u64, now: u64) -> Seq<BucketModel> {
    let e = evict(bs, window, now);
    if e.len() > 0 && elapsed(now, e.last().start) < bucket_duration {
        e
    } else {
        e.push(empty_bucket(now))
    }
}

/// Changes the newest bucket.
pub open spec fn update_last(bs: Seq<BucketModel>, b: BucketModel) -> Seq<BucketModel> {
    bs.update(bs.len() - 1, b)
}

/// The newest bucket after one message of type `ty`.
pub open spec fn bucket_with_message(b: BucketModel, ty: Seq<char>) -> BucketModel {
    BucketModel {
        messages: wrap_inc(b.messages),
        by_type: b.by_type.insert(ty, wrap_inc(if b.by_type.dom().contains(ty) { b.by_type[ty] } else { 0 })),
        ..b
    }
}

/// Whether a bucket started within `window` of `now`.
pub open spec fn active_at(window: u64, now: u64) -> spec_fn(BucketModel) -> bool {
    |b: BucketModel| elapsed(now, b.start) <= window
}

/// Sum of the message counts of buckets, saturated.
pub open spec fn sum_messages(bs: Seq<BucketModel>) -> u64
    decreases bs.len(),
{
    if bs.len() == 0 {
        0
    } else {
        sat_add(sum_messages(bs.drop_last()), bs.last().messages)
    }
}

/// Sum of the error counts of buckets, saturated.
pub open spec fn sum_errors(bs: Seq<BucketModel>) -> u64
    decreases bs.len(),
{
    if bs.len() == 0 {
        0
    } else {
        sat_add(sum_errors(bs.drop_last()), bs.last().errors)
    }
}

/// Adding the per-type counts of `m` to `acc` (saturated).
pub open spec fn merge_counts(acc: Map<Seq<char>, u64>, m: Map<Seq<char>, u64>) -> Map<Seq<char>, u64> {
    Map::new(
        |k: Seq<char>| acc.dom().contains(k) || m.dom().contains(k),
        |k: Seq<char>|
            sat_add(
                if acc.dom().contains(k) { acc[k] } else { 0 },
                if m.dom().contains(k) { m[k] } else { 0 },
            ),
    )
}

/// Per-type counts of buckets added together.
pub open spec fn merged_by_type(bs: Seq<BucketModel>) -> Map<Seq<char>, u64>
    decreases bs.len(),
{
    if bs.len() == 0 {
        Map::empty()
    } else {
        merge_counts(merged_by_type(bs.drop_last()), bs.last().by_type)
    }
}

/// Latencies of buckets, oldest bucket first.
pub open spec fn all_latencies(bs: Seq<BucketModel>) -> Seq<u64>
    decreases bs.len(),
{
    if bs.len() == 0 {
        Seq::empty()
    } else {
        all_latencies(bs.drop_last()) + bs.last().latencies
    }
}

/// The buckets of a list, as plain values.
pub open spec fn buckets_view(v: Seq<MetricsBucket>) -> Seq<BucketModel> {
    v.map_values(|b: MetricsBucket| b@)
}

/// Per-actor metrics handle.
pub struct ActorMetricsHandle {
    message_count: u64,
    error_count: u64,
    buckets: std::collections::VecDeque<MetricsBucket>,
    window: u64,
    bucket_duration: u64,
    origin: std::time::Instant,
}

impl MetricsBucket {
    fn new(now: u64) -> (b: Self)
        ensures
            b@ == empty_bucket(now),
    {
        let b = MetricsBucket {
            timestamp: now,
            message_count: 0,
            error_count: 0,
            latencies: Vec::new(),
            by_type: KeyedMap::new(),
        };
        assert(b@.latencies =~= Seq::<u64>::empty());
        b
    }
}

/// Whether a bucket started more than `window` before `now`.
fn bucket_expired(b: &MetricsBucket, window: u64, now: u64) -> (r: bool)
    ensures
        r == (elapsed(now, b@.start) > window),
{
    b.timestamp <= now && now - b.timestamp > window
}

impl ActorMetricsHandle {
    /// All-time messages (wrapping at 2^64).
    pub closed spec fn messages(&self) -> u64 {
        self.message_count
    }

    /// All-time errors (wrapping at 2^64).
    pub closed spec fn errors(&self) -> u64 {
        self.error_count
    }

    /// The buckets, oldest first.
    pub closed spec fn buckets(&self) -> Seq<BucketModel> {
        buckets_view(self.buckets@)
    }

    /// Window length in nanoseconds.
    pub closed spec fn window(&self) -> u64 {
        self.window
    }

    /// Bucket length in nanoseconds.
    pub closed spec fn bucket_duration(&self) -> u64 {
        self.bucket_duration
    }

    /// A handle with nothing recorded, for the given window and bucket length.
    pub fn new(window: std::time::Duration, bucket_duration: std::time::Duration) -> (h: Self)
        ensures
            h.messages() == 0,
            h.errors() == 0,
            h.buckets() == Seq::<BucketModel>::empty(),
            h.window() == nanos_of(window),
            h.bucket_duration() == nanos_of(bucket_duration),
    {
        let h = ActorMetricsHandle {
            message_count: 0,
            error_count: 0,
            buckets: std::collections::VecDeque::new(),
            window: duration_to_nanos(window),
            bucket_duration: duration_to_nanos(bucket_duration),
            origin: instant_now(),
        };
        assert(h.buckets() =~= Seq::<BucketModel>::empty());
        h
    }

    /// Nanoseconds since the handle was created.
    fn now(&self) -> u64 {
        nanos_since(&self.origin)
    }

    /// Evicts old buckets and makes sure a current one exists at `now`.
    fn current_bucket(&mut self, now: u64)
        ensures
            final(self).buckets() == with_current(old(self).buckets(), old(self).bucket_duration(), old(self).window(), now),
            final(self).buckets().len() > 0,
            final(self).messages() == old(self).messages(),
            final(self).errors() == old(self).errors(),
            final(self).window() == old(self).window(),
            final(self).bucket_duration() == old(self).bucket_duration(),
    {
        let ghost bs = self.buckets();
        while self.buckets.len() > 0 && bucket_expired(&self.buckets[0], self.window, now)
            invariant
                evict(bs, self.window, now) == evict(buckets_view(self.buckets@), self.window, now),
                self.message_count == old(self).message_count,
                self.error_count == old(self).error_count,
                self.window == old(self).window,
                self.bucket_duration == old(self).bucket_duration,
                bs == old(self).buckets(),
            decreases self.buckets@.len(),
        {
            let ghost cur = self.buckets@;
            assert(buckets_view(cur)[0] == cur[0]@);
            let _ = self.buckets.pop_front();
            assert(buckets_view(cur).drop_first() =~= buckets_view(self.buckets@));
        }
        proof {
            let rest = buckets_view(self.buckets@);
            if rest.len() > 0 {
                assert(rest[0] == self.buckets@[0]@);
            }
            assert(evict(rest, self.window, now) == rest);
        }
        let need_new = if self.buckets.len() > 0 {
            let t = self.buckets[self.buckets.len() - 1].timestamp;
            let age: u64 = if t > now { 0 } else { now - t };
            assert(self.buckets@.last()@ == buckets_view(self.buckets@).last());
            age >= self.bucket_duration
        } else {
            true
        };
        let ghost e = buckets_view(self.buckets@);
        if need_new {
            self.buckets.push_back(MetricsBucket::new(now));
            assert(buckets_view(self.buckets@) =~= e.push(empty_bucket(now)));
        }
    }

    /// Replaces the newest bucket by `f` applied to it (see callers).
    fn take_last(&mut self) -> (b: MetricsBucket)
        requires
            old(self).buckets@.len() > 0,
        ensures
            b@ == old(self).buckets().last(),
            final(self).buckets() == old(self).buckets().drop_last(),
            final(self).messages() == old(self).messages(),
            final(self).errors() == old(self).errors(),
            final(self).window() == old(self).window(),
            final(self).bucket_duration() == old(self).bucket_duration(),
    {
        let b = self.buckets.pop_back().unwrap();
        assert(self.buckets() =~= old(self).buckets().drop_last());
        b
    }

    /// Appends a bucket as the newest.
    fn put_last(&mut self, b: MetricsBucket)
        ensures
            final(self).buckets() == old(self).buckets().push(b@),
            final(self).messages() == old(self).messages(),
            final(self).errors() == old(self).errors(),
            final(self).window() == old(self).window(),
            final(self).bucket_duration() == old(self).bucket_duration(),
    {
        let ghost b_view = b@;
        self.buckets.push_back(b);
        assert(self.buckets() =~= old(self).buckets().push(b_view));
    }

    /// Record a message of type `message_type` at time `now`.
    pub fn record_message_at(&mut self, message_type: &str, now: u64)
        ensures
            final(self).messages() == wrap_inc(old(self).messages()),
            final(self).errors() == old(self).errors(),
            final(self).buckets() == ({
                let cur = with_current(old(self).buckets(), old(self).bucket_duration(), old(self).window(), now);
                update_last(cur, bucket_with_message(cur.last(), message_type@))
            }),
            final(self).window() == old(self).window(),
            final(self).bucket_duration() == old(self).bucket_duration(),
    {
        self.message_count = self.message_count.wrapping_add(1);
        self.current_bucket(now);
        let ghost cur = self.buckets();
        let mut b = self.take_last();
        b.message_count = b.message_count.wrapping_add(1);
        let key = String::from_str(message_type);
        let old_count: u64 = match b.by_type.get(&key) {
            Some(c) => *c,
            None => 0,
        };
        b.by_type.insert(key, old_count.wrapping_add(1));
        assert(b@ == bucket_with_message(cur.last(), message_type@));
        self.put_last(b);
        assert(self.buckets() =~= update_last(cur, bucket_with_message(cur.last(), message_type@)));
    }

    /// Record an error at time `now`.
    pub fn record_error_at(&mut self, now: u64)
        ensures
            final(self).errors() == wrap_inc(old(self).errors()),
            final(self).messages() == old(self).messages(),
            final(self).buckets() == ({
                let cur = with_current(old(self).buckets(), old(self).bucket_duration(), old(self).window(), now);
                update_last(cur, BucketModel { errors: wrap_inc(cur.last().errors), ..cur.last() })
            }),
            final(self).window() == old(self).window(),
            final(self).bucket_duration() == old(self).bucket_duration(),
    {
        self.error_count = self.error_count.wrapping_add(1);
        self.current_bucket(now);
        let ghost cur = self.buckets();
        let mut b = self.take_last();
        b.error_count = b.error_count.wrapping_add(1);
        assert(b@ == BucketModel { errors: wrap_inc(cur.last().errors), ..cur.last() });
        self.put_last(b);
        assert(self.buckets() =~= update_last(cur, BucketModel { errors: wrap_inc(cur.last().errors), ..cur.last() }));
    }

    /// Record a handler latency of `latency` nanoseconds at time `now`.
    pub fn record_latency_at(&mut self, latency: u64, now: u64)
        ensures
            final(self).messages() == old(self).messages(),
            final(self).errors() == old(self).errors(),
            final(self).buckets() == ({
                let cur = with_current(old(self).buckets(), old(self).bucket_duration(), old(self).window(), now);
                update_last(cur, BucketModel { latencies: cur.last().latencies.push(latency), ..cur.last() })
            }),
            final(self).window() == old(self).window(),
            final(self).bucket_duration() == old(self).bucket_duration(),
    {
        self.current_bucket(now);
        let ghost cur = self.buckets();
        let mut b = self.take_last();
        b.latencies.push(latency);
        assert(b@ == BucketModel { latencies: cur.last().latencies.push(latency), ..cur.last() });
        self.put_last(b);
        assert(self.buckets() =~= update_last(cur, BucketModel { latencies: cur.last().latencies.push(latency), ..cur.last() }));
    }

    /// Record a message now.
    pub fn record_message(&mut self, message_type: &str)
        ensures
            final(self).messages() == wrap_inc(old(self).messages()),
            final(self).errors() == old(self).errors(),
            exists|now: u64| final(self).buckets() == ({
                let cur = #[trigger] with_current(old(self).buckets(), old(self).bucket_duration(), old(self).window(), now);
                update_last(cur, bucket_with_message(cur.last(), message_type@))
            }),
            final(self).window() == old(self).window(),
            final(self).bucket_duration() == old(self).bucket_duration(),
    {
        let now = self.now();
        self.record_message_at(message_type, now);
    }

    /// Record an error now.
    pub fn record_error(&mut self)
        ensures
            final(self).errors() == wrap_inc(old(self).errors()),
            final(self).messages() == old(self).messages(),
            exists|now: u64| final(self).buckets() == ({
                let cur = #[trigger] with_current(old(self).buckets(), old(self).bucket_duration(), old(self).window(), now);
                update_last(cur, BucketModel { errors: wrap_inc(cur.last().errors), ..cur.last() })
            }),
            final(self).window() == old(self).window(),
            final(self).bucket_duration() == old(self).bucket_duration(),
    {
        let now = self.now();
        self.record_error_at(now);
    }

    /// Record a handler latency now.
    pub fn record_latency(&mut self, latency: std::time::Duration)
        ensures
            final(self).messages() == old(self).messages(),
            final(self).errors() == old(self).errors(),
            exists|now: u64| final(self).buckets() == ({
                let cur = #[trigger] with_current(old(self).buckets(), old(self).bucket_duration(), old(self).window(), now);
                update_last(cur, BucketModel { latencies: cur.last().latencies.push(nanos_of(latency)), ..cur.last() })
            }),
            final(self).window() == old(self).window(),
            final(self).bucket_duration() == old(self).bucket_duration(),
    {
        let now = self.now();
        let l = duration_to_nanos(latency);
        self.record_latency_at(l, now);
    }

    /// All-time message count.
    pub fn message_count(&self) -> (n: u64)
        ensures
            n == self.messages(),
    {
        self.message_count
    }

    /// All-time error count.
    pub fn error_count(&self) -> (n: u64)
        ensures
            n == self.errors(),
    {
        self.error_count
    }

    /// Window length in nanoseconds.
    pub fn window_nanos(&self) -> (n: u64)
        ensures
            n == self.window(),
    {
        self.window
    }

    /// Messages and errors in the buckets active at `now` (saturated sums).
    pub fn windowed_counts_at(&self, now: u64) -> (r: (u64, u64))
        ensures
            r.0 == sum_messages(self.buckets().filter(active_at(self.window(), now))),
            r.1 == sum_errors(self.buckets().filter(active_at(self.window(), now))),
    {
        let ghost bs = self.buckets();
        let ghost p = active_at(self.window, now);
        let mut m: u64 = 0;
        let mut e: u64 = 0;
        let mut i: usize = 0;
        proof {
            reveal(Seq::filter);
        }
        assert(bs.take(0).filter(p) =~= Seq::<BucketModel>::empty());
        while i < self.buckets.len()
            invariant
                i <= self.buckets@.len(),
                bs == self.buckets(),
                p == active_at(self.window, now),
                m == sum_messages(bs.take(i as int).filter(p)),
                e == sum_errors(bs.take(i as int).filter(p)),
            decreases self.buckets@.len() - i,
        {
            proof {
                reveal(Seq::filter);
                assert(bs.take(i + 1).drop_last() =~= bs.take(i as int));
                assert(bs.take(i + 1).last() == bs[i as int]);
            }
            let t = self.buckets[i].timestamp;
            if t > now || now - t <= self.window {
                let ghost f = bs.take(i as int).filter(p);
                assert(f.push(bs[i as int]).drop_last() =~= f);
                m = m.saturating_add(self.buckets[i].message_count);
                e = e.saturating_add(self.buckets[i].error_count);
            }
            i = i + 1;
        }
        assert(bs.take(bs.len() as int) =~= bs);
        (m, e)
    }

    /// Messages and errors in the buckets active now.
    pub fn windowed_counts(&self) -> (r: (u64, u64))
        ensures
            exists|now: u64|
                r.0 == sum_messages(#[trigger] self.buckets().filter(active_at(self.window(), now)))
                && r.1 == sum_errors(self.buckets().filter(active_at(self.window(), now))),
    {
        let now = self.now();
        self.windowed_counts_at(now)
    }

    /// Latencies recorded in the buckets active at `now`, oldest first.
    pub fn latencies_at(&self, now: u64) -> (r: Vec<u64>)
        ensures
            r@ == all_latencies(self.buckets().filter(active_at(self.window(), now))),
    {
        let ghost bs = self.buckets();
        let ghost p = active_at(self.window, now);
        let mut out: Vec<u64> = Vec::new();
        let mut i: usize = 0;
        proof {
            reveal(Seq::filter);
        }
        assert(bs.take(0).filter(p) =~= Seq::<BucketModel>::empty());
        while i < self.buckets.len()
            invariant
                i <= self.buckets@.len(),
                bs == self.buckets(),
                p == active_at(self.window, now),
                out@ == all_latencies(bs.take(i as int).filter(p)),
            decreases self.buckets@.len() - i,
        {
            proof {
                reveal(Seq::filter);
                assert(bs.take(i + 1).drop_last() =~= bs.take(i as int));
                assert(bs.take(i + 1).last() == bs[i as int]);
            }
            let t = self.buckets[i].timestamp;
            if t > now || now - t <= self.window {
                let ghost f = bs.take(i as int).filter(p);
                assert(f.push(bs[i as int]).drop_last() =~= f);
                let ghost before = out@;
                out.extend_from_slice(self.buckets[i].latencies.as_slice());
                assert(out@ =~= before + bs[i as int].latencies);
            }
            i = i + 1;
        }
        assert(bs.take(bs.len() as int) =~= bs);
        out
    }

    /// Per-type message counts of the buckets active at `now`.
    pub fn messages_by_type_at(&self, now: u64) -> (r: KeyedMap<String, u64>)
        ensures
            r.map() == merged_by_type(self.buckets().filter(active_at(self.window(), now))),
    {
        let ghost bs = self.buckets();
        let ghost p = active_at(self.window, now);
        let mut out: KeyedMap<String, u64> = KeyedMap::new();
        let mut i: usize = 0;
        proof {
            reveal(Seq::filter);
        }
        assert(bs.take(0).filter(p) =~= Seq::<BucketModel>::empty());
        assert(out.map() =~= merged_by_type(Seq::<BucketModel>::empty()));
        while i < self.buckets.len()
            invariant
                i <= self.buckets@.len(),
                bs == self.buckets(),
                p == active_at(self.window, now),
                out.map() == merged_by_type(bs.take(i as int).filter(p)),
            decreases self.buckets@.len() - i,
        {
            proof {
                reveal(Seq::filter);
                assert(bs.take(i + 1).drop_last() =~= bs.take(i as int));
                assert(bs.take(i + 1).last() == bs[i as int]);
            }
            let t = self.buckets[i].timestamp;
            if t > now || now - t <= self.window {
                let ghost f = bs.take(i as int).filter(p);
                assert(f.push(bs[i as int]).drop_last() =~= f);
                add_counts(&mut out, &self.buckets[i].by_type);
            }
            i = i + 1;
        }
        assert(bs.take(bs.len() as int) =~= bs);
        out
    }
}

/// Adding one count to a map of counts.
pub open spec fn add_one(acc: Map<Seq<char>, u64>, k: Seq<char>, v: u64) -> Map<Seq<char>, u64> {
    acc.insert(k, sat_add(if acc.dom().contains(k) { acc[k] } else { 0 }, v))
}

/// Merging a map with one more key is merging without it, then adding it.
proof fn lemma_merge_insert(acc: Map<Seq<char>, u64>, m: Map<Seq<char>, u64>, k: Seq<char>, v: u64)
    requires
        !m.dom().contains(k),
    ensures
        merge_counts(acc, m.insert(k, v)) == add_one(merge_counts(acc, m), k, v),
{
    assert(merge_counts(acc, m.insert(k, v)) =~= add_one(merge_counts(acc, m), k, v));
}

/// Adds every count of `src` into `acc`.
fn add_counts(acc: &mut KeyedMap<String, u64>, src: &KeyedMap<String, u64>)
    ensures
        final(acc).map() == merge_counts(old(acc).map(), src.map()),
{
    let pairs = src.entries();
    let ghost ps = pairs@;
    let mut i: usize = 0;
    assert(merge_counts(old(acc).map(), assoc_map(ps.take(0))) =~= old(acc).map());
    while i < pairs.len()
        invariant
            i <= ps.len(),
            ps == pairs@,
            keys_distinct(ps),
            assoc_map(ps) == src.map(),
            acc.map() == merge_counts(old(acc).map(), assoc_map(ps.take(i as int))),
        decreases ps.len() - i,
    {
        let (k, v) = (&pairs[i].0, pairs[i].1);
        let cur: u64 = match acc.get(k) {
            Some(c) => *c,
            None => 0,
        };
        let ghost before = acc.map();
        acc.insert(k.clone(), cur.saturating_add(v));
        proof {
            let t = ps.take(i as int);
            assert(ps.take(i + 1).drop_last() =~= t);
            assert(ps.take(i + 1).last() == ps[i as int]);
            crate::assoc::lemma_assoc_dom(t);
            assert(!assoc_map(t).dom().contains(k@)) by {
                if assoc_map(t).dom().contains(k@) {
                    let j = choose|j: int| 0 <= j < t.len() && t[j].0@ == k@;
                    assert(t[j] == ps[j]);
                }
            }
            lemma_merge_insert(old(acc).map(), assoc_map(t), k@, v);
        }
        i = i + 1;
    }
    assert(ps.take(ps.len() as int) =~= ps);
}

} // verus!

verus! {

/// A message recorded at `now` is counted among the messages, and its type
/// among the message types, within the window at `now`, as long as buckets
/// are no longer than the window and the newest bucket's count has not
/// reached `u64::MAX`.
pub proof fn law_recorded_message_in_window(bs: Seq<BucketModel>, bucket_duration: u64, window: u64, now: u64, ty: Seq<char>)
    requires
        bucket_duration <= window,
        with_current(bs, bucket_duration, window, now).last().messages < u64::MAX,
    ensures
        ({
            let cur = with_current(bs, bucket_duration, window, now);
            let after = update_last(cur, bucket_with_message(cur.last(), ty));
            &&& sum_messages(after.filter(active_at(window, now))) >= 1
            &&& merged_by_type(after.filter(active_at(window, now))).dom().contains(ty)
        }),
{
    let cur = with_current(bs, bucket_duration, window, now);
    let b = cur.last();
    let nb = bucket_with_message(b, ty);
    let after = update_last(cur, nb);
    let p = active_at(window, now);
    assert(cur.len() > 0);
    assert(p(nb));
    assert(after =~= cur.drop_last().push(nb));
    cur.drop_last().lemma_filter_push(nb, p);
    let f = after.filter(p);
    assert(f == cur.drop_last().filter(p).push(nb));
    assert(f.drop_last() =~= cur.drop_last().filter(p));
    assert(f.last() == nb);
}

/// The order that latencies are sorted by.
pub open spec fn latency_le() -> spec_fn(u64, u64) -> bool {
    |a: u64, b: u64| a <= b
}

/// Latencies in ascending order.
pub open spec fn sorted_latencies(s: Seq<u64>) -> Seq<u64> {
    s.sort_by(latency_le())
}

/// `latency_le` is a total order.
proof fn lemma_latency_le_total()
    ensures
        total_ordering(latency_le()),
{
}

/// The latencies of `v`, sorted ascending.
fn sort_latencies(v: &Vec<u64>) -> (r: Vec<u64>)
    ensures
        r@ == sorted_latencies(v@),
{
    let mut out: Vec<u64> = Vec::new();
    let mut i: usize = 0;
    assert(v@.take(0) =~= out@);
    while i < v.len()
        invariant
            i <= v@.len(),
            sorted_by(out@, latency_le()),
            out@.to_multiset() == v@.take(i as int).to_multiset(),
        decreases v@.len() - i,
    {
        let x = v[i];
        let mut p: usize = 0;
        while p < out.len() && out[p] <= x
            invariant
                p <= out@.len(),
                forall|j: int| 0 <= j < p ==> out@[j] <= x,
            decreases out@.len() - p,
        {
            p = p + 1;
        }
        let ghost before = out@;
        proof {
            assert forall|j: int| p <= j < before.len() implies before[j] > x by {
                if j > p {
                    assert(latency_le()(before[p as int], before[j]));
                }
            }
        }
        out.insert(p, x);
        proof {
            to_multiset_insert(before, p as int, x);
            assert(v@.take(i + 1) =~= v@.take(i as int).push(x));
            to_multiset_build(v@.take(i as int), x);
            assert forall|a: int, b: int| 0 <= a < b < out@.len() implies #[trigger] latency_le()(out@[a], out@[b]) by {
                if b < p {
                    assert(latency_le()(before[a], before[b]));
                } else if a > p {
                    assert(latency_le()(before[a - 1], before[b - 1]));
                } else if a < p && b > p {
                    assert(before[a] <= x);
                }
            }
        }
        i = i + 1;
    }
    proof {
        assert(v@.take(v@.len() as int) =~= v@);
        lemma_latency_le_total();
        v@.lemma_sort_by_ensures(latency_le());
        lemma_sorted_unique(out@, v@.sort_by(latency_le()), latency_le());
    }
    out
}


/// Average, largest and 99th-percentile handler latency, in nanoseconds.
#[derive(Debug, Clone, Copy, PartialEq, Eq)]
pub struct LatencyStats {
    pub avg: Option<u64>,
    pub max: Option<u64>,
    pub p99: Option<u64>,
}

/// Sum of latencies.
pub open spec fn latency_sum(s: Seq<u64>) -> nat
    decreases s.len(),
{
    if s.len() == 0 {
        0
    } else {
        latency_sum(s.drop_last()) + s.last() as nat
    }
}

/// The rank of the 99th percentile among `n` sorted values: `ceil(0.99 * n) - 1`.
pub open spec fn p99_rank(n: nat) -> int {
    (n * 99 + 99) / 100 - 1
}

/// The latency statistics of a list of latencies.
pub open spec fn latency_stats(s: Seq<u64>) -> LatencyStats {
    if s.len() == 0 {
        LatencyStats { avg: None, max: None, p99: None }
    } else {
        LatencyStats {
            avg: Some((latency_sum(s) / s.len()) as u64),
            max: Some(sorted_latencies(s).last()),
            p99: Some(sorted_latencies(s)[p99_rank(s.len())]),
        }
    }
}

proof fn lemma_avg_fits(total: nat, n: nat)
    requires
        n > 0,
        total <= n * (u64::MAX as nat),
    ensures
        total / n <= u64::MAX,
{
    assert(total / n <= u64::MAX) by (nonlinear_arith)
        requires
            n > 0,
            total <= n * (u64::MAX as nat),
    ;
}

/// The statistics of the latencies in `v`.
pub fn summarize_latencies(v: &Vec<u64>) -> (r: LatencyStats)
    ensures
        r == latency_stats(v@),
{
    if v.len() == 0 {
        return LatencyStats { avg: None, max: None, p99: None };
    }
    let mut total: u128 = 0;
    let mut i: usize = 0;
    while i < v.len()
        invariant
            i <= v@.len(),
            total == latency_sum(v@.take(i as int)),
            total <= i * (u64::MAX as nat),
        decreases v@.len() - i,
    {
        proof {
            assert(v@.take(i + 1).drop_last() =~= v@.take(i as int));
            assert(v@.take(i + 1).last() == v@[i as int]);
            assert((i + 1) * (u64::MAX as nat) == i * (u64::MAX as nat) + u64::MAX) by (nonlinear_arith);
            assert(i * (u64::MAX as nat) < 0x1_0000_0000_0000_0000 * 0x1_0000_0000_0000_0000 - 0x1_0000_0000_0000_0000) by (nonlinear_arith)
                requires
                    i < 0x1_0000_0000_0000_0000,
            ;
        }
        total = total + v[i] as u128;
        i = i + 1;
    }
    proof {
        assert(v@.take(v@.len() as int) =~= v@);
        lemma_avg_fits(total as nat, v@.len());
    }
    let n = v.len() as u128;
    let avg = (total / n) as u64;
    let sorted = sort_latencies(v);
    proof {
        lemma_latency_le_total();
        v@.lemma_sort_by_ensures(latency_le());
        assert(sorted@.to_multiset().len() == v@.to_multiset().len());
        vstd::seq_lib::to_multiset_len(sorted@);
        vstd::seq_lib::to_multiset_len(v@);
        assert(1 <= (v@.len() * 99 + 99) / 100 <= v@.len()) by (nonlinear_arith)
            requires
                v@.len() >= 1,
        ;
    }
    let len = sorted.len();
    let rank: usize = ((len as u128 * 99 + 99) / 100 - 1) as usize;
    LatencyStats { avg: Some(avg), max: Some(sorted[len - 1]), p99: Some(sorted[rank]) }
}


/// What a handle shows over its window at one moment.
pub struct WindowSummary {
    /// All-time messages.
    pub message_count: u64,
    /// All-time errors.
    pub error_count: u64,
    /// Messages within the window.
    pub windowed_messages: u64,
    /// Errors within the window.
    pub windowed_errors: u64,
    /// Messages by type within the window.
    pub messages_by_type: KeyedMap<String, u64>,
    /// Handler latency statistics within the window.
    pub latency: LatencyStats,
}

impl ActorMetricsHandle {
    /// Latency statistics of the buckets active at `now`.
    pub fn latency_stats_at(&self, now: u64) -> (r: LatencyStats)
        ensures
            r == latency_stats(all_latencies(self.buckets().filter(active_at(self.window(), now)))),
    {
        let l = self.latencies_at(now);
        summarize_latencies(&l)
    }

    /// Everything the handle shows over its window at `now`.
    pub fn summary_at(&self, now: u64) -> (r: WindowSummary)
        ensures
            r.message_count == self.messages(),
            r.error_count == self.errors(),
            r.windowed_messages == sum_messages(self.buckets().filter(active_at(self.window(), now))),
            r.windowed_errors == sum_errors(self.buckets().filter(active_at(self.window(), now))),
            r.messages_by_type.map() == merged_by_type(self.buckets().filter(active_at(self.window(), now))),
            r.latency == latency_stats(all_latencies(self.buckets().filter(active_at(self.window(), now)))),
    {
        let (wm, we) = self.windowed_counts_at(now);
        WindowSummary {
            message_count: self.message_count,
            error_count: self.error_count,
            windowed_messages: wm,
            windowed_errors: we,
            messages_by_type: self.messages_by_type_at(now),
            latency: self.latency_stats_at(now),
        }
    }

    /// Everything the handle shows over its window now.
    pub fn summary(&self) -> (r: WindowSummary)
        ensures
            r.message_count == self.messages(),
            r.error_count == self.errors(),
            exists|now: u64| #[trigger] sum_messages(self.buckets().filter(active_at(self.window(), now))) == r.windowed_messages
                && r.windowed_errors == sum_errors(self.buckets().filter(active_at(self.window(), now)))
                && r.messages_by_type.map() == merged_by_type(self.buckets().filter(active_at(self.window(), now)))
                && r.latency == latency_stats(all_latencies(self.buckets().filter(active_at(self.window(), now)))),
    {
        let now = self.now();
        self.summary_at(now)
    }
}

/// Whether a handle has nothing recorded and the given window and bucket length.
pub open spec fn fresh_handle(h: ActorMetricsHandle, window: u64, bucket_duration: u64) -> bool {
    &&& h.messages() == 0
    &&& h.errors() == 0
    &&& h.buckets() == Seq::<BucketModel>::empty()
    &&& h.window() == window
    &&& h.bucket_duration() == bucket_duration
}

/// Saturated sum of the all-time message counts of registered handles.
pub open spec fn total_messages_of(s: Seq<(ActorId, ActorMetricsHandle)>) -> u64
    decreases s.len(),
{
    if s.len() == 0 {
        0
    } else {
        sat_add(total_messages_of(s.drop_last()), s.last().1.messages())
    }
}

/// Saturated sum of the all-time error counts of registered handles.
pub open spec fn total_errors_of(s: Seq<(ActorId, ActorMetricsHandle)>) -> u64
    decreases s.len(),
{
    if s.len() == 0 {
        0
    } else {
        sat_add(total_errors_of(s.drop_last()), s.last().1.errors())
    }
}

/// A handle's messages within its window at `now`.
pub open spec fn handle_windowed_messages(h: ActorMetricsHandle, now: u64) -> u64 {
    sum_messages(h.buckets().filter(active_at(h.window(), now)))
}

/// A handle's errors within its window at `now`.
pub open spec fn handle_windowed_errors(h: ActorMetricsHandle, now: u64) -> u64 {
    sum_errors(h.buckets().filter(active_at(h.window(), now)))
}

/// Saturated sum of the windowed message counts of registered handles, each
/// read at its own moment in `ts`.
pub open spec fn windowed_messages_of(s: Seq<(ActorId, ActorMetricsHandle)>, ts: Seq<u64>) -> u64
    decreases s.len(),
{
    if s.len() == 0 {
        0
    } else {
        sat_add(windowed_messages_of(s.drop_last(), ts.drop_last()), handle_windowed_messages(s.last().1, ts.last()))
    }
}

/// Saturated sum of the windowed error counts of registered handles, each
/// read at its own moment in `ts`.
pub open spec fn windowed_errors_of(s: Seq<(ActorId, ActorMetricsHandle)>, ts: Seq<u64>) -> u64
    decreases s.len(),
{
    if s.len() == 0 {
        0
    } else {
        sat_add(windowed_errors_of(s.drop_last(), ts.drop_last()), handle_windowed_errors(s.last().1, ts.last()))
    }
}

/// The position of actor `k`'s entry in `s`.
pub open spec fn entry_index(s: Seq<(ActorId, ActorMetricsHandle)>, k: ActorKey) -> int {
    choose|i: int| 0 <= i < s.len() && s[i].0@ == k
}

/// With distinct keys, the entry found for a key is the one that holds it.
proof fn lemma_entry_index(s: Seq<(ActorId, ActorMetricsHandle)>, i: int)
    requires
        keys_distinct(s),
        0 <= i < s.len(),
    ensures
        entry_index(s, s[i].0@) == i,
{
    let k = s[i].0@;
    assert(s[i].0@ == k);
    let j = entry_index(s, k);
    assert(0 <= j < s.len() && s[j].0@ == k);
}

/// `t` is `s` after registering handle `h` for actor `k`: an entry already
/// held for `k` gets `h` in place, otherwise an entry for `k` is appended;
/// every other entry stays as it was.
pub open spec fn registered_into(
    s: Seq<(ActorId, ActorMetricsHandle)>,
    t: Seq<(ActorId, ActorMetricsHandle)>,
    k: ActorKey,
    h: ActorMetricsHandle,
) -> bool {
    if assoc_map(s).dom().contains(k) {
        let i = entry_index(s, k);
        &&& t.len() == s.len()
        &&& t[i].0@ == k
        &&& t[i].1 == h
        &&& forall|j: int| 0 <= j < s.len() && j != i ==> #[trigger] t[j] == s[j]
    } else {
        &&& t.len() == s.len() + 1
        &&& t.last().0@ == k
        &&& t.last().1 == h
        &&& forall|j: int| 0 <= j < s.len() ==> #[trigger] t[j] == s[j]
    }
}

/// The plain sum of a count over registered handles.
pub open spec fn count_sum(s: Seq<(ActorId, ActorMetricsHandle)>, f: spec_fn(ActorMetricsHandle) -> u64) -> nat
    decreases s.len(),
{
    if s.len() == 0 {
        0
    } else {
        count_sum(s.drop_last(), f) + f(s.last().1) as nat
    }
}

/// The message count of a handle.
pub open spec fn messages_of(h: ActorMetricsHandle) -> u64 {
    h.messages()
}

/// The error count of a handle.
pub open spec fn errors_of(h: ActorMetricsHandle) -> u64 {
    h.errors()
}

/// Saturated totals are the plain sums capped at `u64::MAX`.
proof fn lemma_totals_capped(s: Seq<(ActorId, ActorMetricsHandle)>)
    ensures
        total_messages_of(s) == if count_sum(s, |h: ActorMetricsHandle| messages_of(h)) > u64::MAX {
            u64::MAX as nat
        } else {
            count_sum(s, |h: ActorMetricsHandle| messages_of(h))
        },
        total_errors_of(s) == if count_sum(s, |h: ActorMetricsHandle| errors_of(h)) > u64::MAX {
            u64::MAX as nat
        } else {
            count_sum(s, |h: ActorMetricsHandle| errors_of(h))
        },
    decreases s.len(),
{
    if s.len() > 0 {
        lemma_totals_capped(s.drop_last());
    }
}

/// Removing one entry takes its count out of the plain sum.
proof fn lemma_count_sum_remove(s: Seq<(ActorId, ActorMetricsHandle)>, i: int, f: spec_fn(ActorMetricsHandle) -> u64)
    requires
        0 <= i < s.len(),
    ensures
        count_sum(s, f) == count_sum(s.remove(i), f) + f(s[i].1),
    decreases s.len(),
{
    if i < s.len() - 1 {
        let t = s.drop_last();
        lemma_count_sum_remove(t, i, f);
        assert(s.remove(i).drop_last() =~= t.remove(i));
        assert(s.remove(i).last() == s.last());
    } else {
        assert(s.remove(i) =~= s.drop_last());
    }
}

/// Two entry lists that register the same handles under the same actors,
/// each actor once, have the same plain sums.
proof fn lemma_count_sum_same_map(s: Seq<(ActorId, ActorMetricsHandle)>, t: Seq<(ActorId, ActorMetricsHandle)>, f: spec_fn(ActorMetricsHandle) -> u64)
    requires
        keys_distinct(s),
        keys_distinct(t),
        assoc_map(s) == assoc_map(t),
    ensures
        count_sum(s, f) == count_sum(t, f),
    decreases s.len(),
{
    crate::assoc::lemma_assoc_dom(s);
    crate::assoc::lemma_assoc_dom(t);
    if s.len() == 0 {
        if t.len() > 0 {
            assert(assoc_map(t).dom().contains(t[0].0@));
        }
    } else {
        let n = s.len() - 1;
        let k = s.last().0@;
        crate::assoc::lemma_assoc_index(s, n);
        assert(s[n].0@ == k);
        assert(assoc_map(t).dom().contains(k));
        let i = choose|i: int| 0 <= i < t.len() && t[i].0@ == k;
        crate::assoc::lemma_assoc_index(t, i);
        lemma_assoc_remove(s, n);
        lemma_assoc_remove(t, i);
        assert(s.remove(n) =~= s.drop_last());
        lemma_count_sum_same_map(s.drop_last(), t.remove(i), f);
        lemma_count_sum_remove(t, i, f);
    }
}

/// The registry's totals are a function of which handles are registered
/// under which actors, whatever order they were registered in: any two
/// entry lists holding each actor once with the same handles give the same
/// saturated message and error totals.
pub proof fn law_totals_follow_handles(s: Seq<(ActorId, ActorMetricsHandle)>, t: Seq<(ActorId, ActorMetricsHandle)>)
    requires
        keys_distinct(s),
        keys_distinct(t),
        assoc_map(s) == assoc_map(t),
    ensures
        total_messages_of(s) == total_messages_of(t),
        total_errors_of(s) == total_errors_of(t),
{
    lemma_totals_capped(s);
    lemma_totals_capped(t);
    lemma_count_sum_same_map(s, t, |h: ActorMetricsHandle| messages_of(h));
    lemma_count_sum_same_map(s, t, |h: ActorMetricsHandle| errors_of(h));
}

/// Registering a handle for an actor that was not registered adds the
/// handle's message and error counts to the registry's totals.
pub proof fn law_register_new_totals(
    s: Seq<(ActorId, ActorMetricsHandle)>,
    t: Seq<(ActorId, ActorMetricsHandle)>,
    k: ActorKey,
    h: ActorMetricsHandle,
)
    requires
        registered_into(s, t, k, h),
        !assoc_map(s).dom().contains(k),
    ensures
        total_messages_of(t) == sat_add(total_messages_of(s), h.messages()),
        total_errors_of(t) == sat_add(total_errors_of(s), h.errors()),
{
    assert(t.drop_last() =~= s);
}

/// `t` is `s` with the handle of actor `k` (when registered) replaced by
/// `h` in place; every other entry stays as it was.
pub open spec fn updated_in_place(
    s: Seq<(ActorId, ActorMetricsHandle)>,
    t: Seq<(ActorId, ActorMetricsHandle)>,
    k: ActorKey,
    h: ActorMetricsHandle,
) -> bool {
    if assoc_map(s).dom().contains(k) {
        let i = entry_index(s, k);
        &&& t.len() == s.len()
        &&& t[i].0 == s[i].0
        &&& t[i].1 == h
        &&& forall|j: int| 0 <= j < s.len() && j != i ==> #[trigger] t[j] == s[j]
    } else {
        t == s
    }
}

/// `t` is `s` without the entry of actor `k`.
pub open spec fn unregistered_from(
    s: Seq<(ActorId, ActorMetricsHandle)>,
    t: Seq<(ActorId, ActorMetricsHandle)>,
    k: ActorKey,
) -> bool {
    if assoc_map(s).dom().contains(k) {
        t == s.remove(entry_index(s, k))
    } else {
        t == s
    }
}

/// Central registry of per-actor metrics handles.
pub struct MetricsRegistry {
    handles: Vec<(ActorId, ActorMetricsHandle)>,
    window: std::time::Duration,
    bucket_duration: std::time::Duration,
}

impl MetricsRegistry {
    #[verifier::type_invariant]
    spec fn wf(&self) -> bool {
        keys_distinct(self.handles@)
    }

    /// The registered handles by actor: the entries read as a map.
    pub open spec fn handles(&self) -> Map<ActorKey, ActorMetricsHandle> {
        assoc_map(self.entries())
    }

    /// The registered handles in registration order.
    pub closed spec fn entries(&self) -> Seq<(ActorId, ActorMetricsHandle)> {
        self.handles@
    }

    /// Window length of new handles, in nanoseconds.
    pub closed spec fn window(&self) -> u64 {
        nanos_of(self.window)
    }

    /// Finitely many actors are registered.
    pub proof fn lemma_finite(&self)
        ensures
            self.handles().dom().finite(),
    {
        crate::assoc::lemma_assoc_dom(self.entries());
    }

    /// Bucket length of new handles, in nanoseconds.
    pub closed spec fn bucket_duration(&self) -> u64 {
        nanos_of(self.bucket_duration)
    }

    /// A registry with no actors.
    pub fn new(window: std::time::Duration, bucket_duration: std::time::Duration) -> (r: Self)
        ensures
            r.handles() == Map::<ActorKey, ActorMetricsHandle>::empty(),
            r.entries() == Seq::<(ActorId, ActorMetricsHandle)>::empty(),
            r.window() == nanos_of(window),
            r.bucket_duration() == nanos_of(bucket_duration),
    {
        let r = MetricsRegistry { handles: Vec::new(), window, bucket_duration };
        assert(r.handles() =~= Map::<ActorKey, ActorMetricsHandle>::empty());
        r
    }

    /// Create a new handle without registering it.
    pub fn create_handle(&self) -> (h: ActorMetricsHandle)
        ensures
            fresh_handle(h, self.window(), self.bucket_duration()),
    {
        ActorMetricsHandle::new(self.window, self.bucket_duration)
    }

    /// Register a handle under the given actor, replacing any earlier one.
    pub fn register_handle(&mut self, actor_id: ActorId, handle: ActorMetricsHandle)
        ensures
            final(self).handles() == old(self).handles().insert(actor_id@, handle),
            registered_into(old(self).entries(), final(self).entries(), actor_id@, handle),
            final(self).window() == old(self).window(),
            final(self).bucket_duration() == old(self).bucket_duration(),
    {
        proof {
            use_type_invariant(&*self);
        }
        let mut table: Vec<(ActorId, ActorMetricsHandle)> = Vec::new();
        std::mem::swap(&mut table, &mut self.handles);
        let r = assoc_find(&table, &actor_id);
        proof {
            lemma_assoc_find(table@, actor_id@, r);
        }
        match r {
            Some(i) => {
                let key = table[i].0.clone();
                proof {
                    lemma_assoc_update(table@, i as int, handle);
                    lemma_entry_index(table@, i as int);
                }
                table.set(i, (key, handle));
            },
            None => {
                proof {
                    lemma_assoc_push(table@, actor_id, handle);
                }
                table.push((actor_id, handle));
            },
        }
        self.handles = table;
    }

    /// Register an actor with a new handle, replacing any earlier one.
    pub fn register(&mut self, actor_id: ActorId)
        ensures
            final(self).handles().dom() == old(self).handles().dom().insert(actor_id@),
            fresh_handle(final(self).handles()[actor_id@], old(self).window(), old(self).bucket_duration()),
            forall|k: ActorKey| k != actor_id@ && #[trigger] old(self).handles().dom().contains(k)
                ==> final(self).handles()[k] == old(self).handles()[k],
            registered_into(old(self).entries(), final(self).entries(), actor_id@, final(self).handles()[actor_id@]),
            final(self).window() == old(self).window(),
            final(self).bucket_duration() == old(self).bucket_duration(),
    {
        let h = self.create_handle();
        self.register_handle(actor_id, h);
    }

    /// Record a message on an actor's handle; false when it is not registered.
    pub fn record_message(&mut self, actor_id: &ActorId, message_type: &str) -> (r: bool)
        ensures
            r == old(self).handles().dom().contains(actor_id@),
            final(self).handles().dom() == old(self).handles().dom(),
            updated_in_place(old(self).entries(), final(self).entries(), actor_id@, final(self).handles()[actor_id@]),
            r ==> final(self).handles()[actor_id@].messages() == wrap_inc(old(self).handles()[actor_id@].messages()),
            r ==> final(self).handles()[actor_id@].errors() == old(self).handles()[actor_id@].errors(),
            forall|k: ActorKey| k != actor_id@ && #[trigger] old(self).handles().dom().contains(k)
                ==> final(self).handles()[k] == old(self).handles()[k],
            final(self).window() == old(self).window(),
            final(self).bucket_duration() == old(self).bucket_duration(),
    {
        proof {
            use_type_invariant(&*self);
        }
        let mut table: Vec<(ActorId, ActorMetricsHandle)> = Vec::new();
        std::mem::swap(&mut table, &mut self.handles);
        let ghost before = table@;
        let r = assoc_find(&table, actor_id);
        proof {
            lemma_assoc_find(table@, actor_id@, r);
        }
        let found = match r {
            Some(i) => {
                table[i].1.record_message(message_type);
                proof {
                    assert(table@ =~= before.update(i as int, (before[i as int].0, table@[i as int].1)));
                    lemma_assoc_update(before, i as int, table@[i as int].1);
                    lemma_entry_index(before, i as int);
                }
                true
            },
            None => false,
        };
        self.handles = table;
        found
    }

    /// Record an error on an actor's handle; false when it is not registered.
    pub fn record_error(&mut self, actor_id: &ActorId) -> (r: bool)
        ensures
            r == old(self).handles().dom().contains(actor_id@),
            final(self).handles().dom() == old(self).handles().dom(),
            updated_in_place(old(self).entries(), final(self).entries(), actor_id@, final(self).handles()[actor_id@]),
            r ==> final(self).handles()[actor_id@].errors() == wrap_inc(old(self).handles()[actor_id@].errors()),
            r ==> final(self).handles()[actor_id@].messages() == old(self).handles()[actor_id@].messages(),
            forall|k: ActorKey| k != actor_id@ && #[trigger] old(self).handles().dom().contains(k)
                ==> final(self).handles()[k] == old(self).handles()[k],
            final(self).window() == old(self).window(),
            final(self).bucket_duration() == old(self).bucket_duration(),
    {
        proof {
            use_type_invariant(&*self);
        }
        let mut table: Vec<(ActorId, ActorMetricsHandle)> = Vec::new();
        std::mem::swap(&mut table, &mut self.handles);
        let ghost before = table@;
        let r = assoc_find(&table, actor_id);
        proof {
            lemma_assoc_find(table@, actor_id@, r);
        }
        let found = match r {
            Some(i) => {
                table[i].1.record_error();
                proof {
                    assert(table@ =~= before.update(i as int, (before[i as int].0, table@[i as int].1)));
                    lemma_assoc_update(before, i as int, table@[i as int].1);
                    lemma_entry_index(before, i as int);
                }
                true
            },
            None => false,
        };
        self.handles = table;
        found
    }

    /// Record a handler latency on an actor's handle; false when it is not registered.
    pub fn record_latency(&mut self, actor_id: &ActorId, latency: std::time::Duration) -> (r: bool)
        ensures
            r == old(self).handles().dom().contains(actor_id@),
            final(self).handles().dom() == old(self).handles().dom(),
            updated_in_place(old(self).entries(), final(self).entries(), actor_id@, final(self).handles()[actor_id@]),
            r ==> final(self).handles()[actor_id@].messages() == old(self).handles()[actor_id@].messages(),
            r ==> final(self).handles()[actor_id@].errors() == old(self).handles()[actor_id@].errors(),
            forall|k: ActorKey| k != actor_id@ && #[trigger] old(self).handles().dom().contains(k)
                ==> final(self).handles()[k] == old(self).handles()[k],
            final(self).window() == old(self).window(),
            final(self).bucket_duration() == old(self).bucket_duration(),
    {
        proof {
            use_type_invariant(&*self);
        }
        let mut table: Vec<(ActorId, ActorMetricsHandle)> = Vec::new();
        std::mem::swap(&mut table, &mut self.handles);
        let ghost before = table@;
        let r = assoc_find(&table, actor_id);
        proof {
            lemma_assoc_find(table@, actor_id@, r);
        }
        let found = match r {
            Some(i) => {
                table[i].1.record_latency(latency);
                proof {
                    assert(table@ =~= before.update(i as int, (before[i as int].0, table@[i as int].1)));
                    lemma_assoc_update(before, i as int, table@[i as int].1);
                    lemma_entry_index(before, i as int);
                }
                true
            },
            None => false,
        };
        self.handles = table;
        found
    }

    /// Remove an actor's handle.
    pub fn unregister(&mut self, actor_id: &ActorId)
        ensures
            final(self).handles() == old(self).handles().remove(actor_id@),
            unregistered_from(old(self).entries(), final(self).entries(), actor_id@),
            final(self).window() == old(self).window(),
            final(self).bucket_duration() == old(self).bucket_duration(),
    {
        proof {
            use_type_invariant(&*self);
        }
        let mut table: Vec<(ActorId, ActorMetricsHandle)> = Vec::new();
        std::mem::swap(&mut table, &mut self.handles);
        let r = assoc_find(&table, actor_id);
        proof {
            lemma_assoc_find(table@, actor_id@, r);
        }
        match r {
            Some(i) => {
                proof {
                    lemma_assoc_remove(table@, i as int);
                    lemma_entry_index(table@, i as int);
                }
                table.remove(i);
            },
            None => {
                assert(assoc_map(table@).remove(actor_id@) =~= assoc_map(table@));
            },
        }
        self.handles = table;
    }

    /// The handle of an actor, if registered.
    pub fn get(&self, actor_id: &ActorId) -> (r: Option<&ActorMetricsHandle>)
        ensures
            r is Some <==> self.handles().dom().contains(actor_id@),
            r matches Some(h) ==> *h == self.handles()[actor_id@],
    {
        proof {
            use_type_invariant(self);
        }
        let r = assoc_find(&self.handles, actor_id);
        proof {
            lemma_assoc_find(self.handles@, actor_id@, r);
        }
        match r {
            Some(i) => Some(&self.handles[i].1),
            None => None,
        }
    }

    /// Window length of new handles, in nanoseconds.
    pub fn window_nanos(&self) -> (n: u64)
        ensures
            n == self.window(),
    {
        duration_to_nanos(self.window)
    }

    /// The registered actors and their handles, in registration order.
    pub fn entry_list(&self) -> (r: &Vec<(ActorId, ActorMetricsHandle)>)
        ensures
            r@ == self.entries(),
            keys_distinct(r@),
    {
        proof {
            use_type_invariant(self);
        }
        &self.handles
    }

    /// Number of registered actors.
    pub fn actor_count(&self) -> (n: usize)
        ensures
            n == self.handles().dom().len(),
    {
        proof {
            use_type_invariant(self);
            lemma_assoc_len(self.handles@);
        }
        self.handles.len()
    }

    /// Total all-time messages of registered actors, saturated.
    pub fn total_messages(&self) -> (n: u64)
        ensures
            n == total_messages_of(self.entries()),
    {
        let mut t: u64 = 0;
        let mut i: usize = 0;
        while i < self.handles.len()
            invariant
                i <= self.handles@.len(),
                t == total_messages_of(self.handles@.take(i as int)),
            decreases self.handles@.len() - i,
        {
            proof {
                assert(self.handles@.take(i + 1).drop_last() =~= self.handles@.take(i as int));
            }
            t = t.saturating_add(self.handles[i].1.message_count());
            i = i + 1;
        }
        assert(self.handles@.take(self.handles@.len() as int) =~= self.handles@);
        t
    }

    /// Messages and errors within each handle's window, summed over
    /// registered actors (saturated). Each handle is read at its own moment.
    pub fn windowed_totals(&self) -> (r: (u64, u64))
        ensures
            exists|ts: Seq<u64>|
                ts.len() == self.entries().len()
                && r.0 == #[trigger] windowed_messages_of(self.entries(), ts)
                && r.1 == windowed_errors_of(self.entries(), ts),
    {
        let mut m: u64 = 0;
        let mut e: u64 = 0;
        let mut i: usize = 0;
        let ghost mut ts: Seq<u64> = Seq::empty();
        while i < self.handles.len()
            invariant
                i <= self.handles@.len(),
                ts.len() == i,
                m == windowed_messages_of(self.handles@.take(i as int), ts),
                e == windowed_errors_of(self.handles@.take(i as int), ts),
            decreases self.handles@.len() - i,
        {
            let now = self.handles[i].1.now();
            let (hm, he) = self.handles[i].1.windowed_counts_at(now);
            proof {
                assert(self.handles@.take(i + 1).drop_last() =~= self.handles@.take(i as int));
                assert(ts.push(now).drop_last() =~= ts);
                ts = ts.push(now);
            }
            m = m.saturating_add(hm);
            e = e.saturating_add(he);
            i = i + 1;
        }
        assert(self.handles@.take(self.handles@.len() as int) =~= self.handles@);
        assert(windowed_messages_of(self.entries(), ts) == m);
        (m, e)
    }

    /// Total all-time errors of registered actors, saturated.
    pub fn total_errors(&self) -> (n: u64)
        ensures
            n == total_errors_of(self.entries()),
    {
        let mut t: u64 = 0;
        let mut i: usize = 0;
        while i < self.handles.len()
            invariant
                i <= self.handles@.len(),
                t == total_errors_of(self.handles@.take(i as int)),
            decreases self.handles@.len() - i,
        {
            proof {
                assert(self.handles@.take(i + 1).drop_last() =~= self.handles@.take(i as int));
            }
            t = t.saturating_add(self.handles[i].1.error_count());
            i = i + 1;
        }
        assert(self.handles@.take(self.handles@.len() as int) =~= self.handles@);
        t
    }
}

impl Default for MetricsRegistry {
    /// A 60-second window with 1-second buckets.
    fn default() -> (r: Self)
        ensures
            r.handles() == Map::<ActorKey, ActorMetricsHandle>::empty(),
            r.window() == 60_000_000_000u64,
            r.bucket_duration() == 1_000_000_000u64,
    {
        MetricsRegistry::new(duration_from_millis(60_000), duration_from_millis(1_000))
    }
}

/// Inbound interceptor that records an actor's metrics on its handle.
pub struct MetricsInterceptor {
    handle: ActorMetricsHandle,
    received_at: u64,
}

impl MetricsInterceptor {
    /// The handle metrics are recorded on.
    pub closed spec fn recorded(&self) -> ActorMetricsHandle {
        self.handle
    }

    /// An interceptor recording on `handle`.
    pub fn new(handle: ActorMetricsHandle) -> (r: Self)
        ensures
            r.recorded() == handle,
    {
        MetricsInterceptor { handle, received_at: 0 }
    }

    /// The underlying handle.
    pub fn handle(&self) -> (r: &ActorMetricsHandle)
        ensures
            *r == self.recorded(),
    {
        &self.handle
    }

    /// Takes the handle back out of the interceptor.
    pub fn into_handle(self) -> (r: ActorMetricsHandle)
        ensures
            r == self.recorded(),
    {
        self.handle
    }
}

impl InboundInterceptor for MetricsInterceptor {
    fn name(&self) -> (n: &'static str)
        ensures
            n@ == "metrics"@,
    {
        "metrics"
    }

    fn on_receive(&mut self, ctx: &InboundContext<'_>) -> (d: Disposition)
        ensures
            d is Continue,
            final(self).recorded().messages() == wrap_inc(old(self).recorded().messages()),
            final(self).recorded().errors() == old(self).recorded().errors(),
    {
        let now = self.handle.now();
        self.received_at = now;
        self.handle.record_message_at(ctx.message_type, now);
        Disposition::Continue
    }

    fn on_complete(&mut self, ctx: &InboundContext<'_>, outcome: &Outcome)
        ensures
            final(self).recorded().messages() == old(self).recorded().messages(),
            final(self).recorded().errors() == (if *outcome is HandlerError {
                wrap_inc(old(self).recorded().errors())
            } else {
                old(self).recorded().errors()
            }),
    {
        let now = self.handle.now();
        let latency: u64 = if now >= self.received_at { now - self.received_at } else { 0 };
        self.handle.record_latency_at(latency, now);
        if outcome.is_handler_error() {
            self.handle.record_error_at(now);
        }
    }
}

} // verus!
