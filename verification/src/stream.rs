//! Streaming configuration and errors.

use vstd::prelude::*;
use vstd::string::*;
use crate::time::{duration_to_nanos, nanos_of};

verus! {

/// Errors from stream send operations.
#[derive(Debug, Clone, Copy, PartialEq, Eq, Structural)]
pub enum StreamSendError {
    /// The consumer dropped the stream (no longer reading).
    ConsumerDropped,
    /// The channel buffer is full (backpressure).
    Full,
}

impl StreamSendError {
    /// Text form of the error.
    pub fn to_string(&self) -> (s: String)
        ensures
            s@ == (match *self {
                StreamSendError::ConsumerDropped => "stream consumer dropped"@,
                StreamSendError::Full => "stream buffer full"@,
            }),
    {
        match self {
            StreamSendError::ConsumerDropped => String::from_str("stream consumer dropped"),
            StreamSendError::Full => String::from_str("stream buffer full"),
        }
    }
}

/// Batching configuration: flush when `max_items` items have accumulated or
/// `max_delay` has elapsed since the first item of the batch.
#[derive(Debug, Clone, Copy)]
pub struct BatchConfig {
    /// Maximum items per batch (at least one).
    pub max_items: usize,
    /// Maximum time to wait for more items before flushing.
    pub max_delay: std::time::Duration,
}

impl BatchConfig {
    /// Create a new batch configuration; a zero item limit is raised to one.
    pub fn new(max_items: usize, max_delay: std::time::Duration) -> (c: Self)
        ensures
            c.max_items == (if max_items == 0 { 1 } else { max_items }),
            c.max_delay == max_delay,
    {
        BatchConfig { max_items: if max_items == 0 { 1 } else { max_items }, max_delay }
    }

    /// The delay limit in nanoseconds.
    pub fn max_delay_nanos(&self) -> (n: u64)
        ensures
            n == nanos_of(self.max_delay),
    {
        duration_to_nanos(self.max_delay)
    }
}

impl Default for BatchConfig {
    fn default() -> (c: Self)
        ensures
            c.max_items == 64,
            crate::time::duration_total_nanos(c.max_delay) == 5_000_000,
    {
        BatchConfig { max_items: 64, max_delay: crate::time::duration_from_millis(5) }
    }
}

/// `a + b`, saturated at `u64::MAX`.
pub open spec fn deadline_after(now: u64, delay: u64) -> u64 {
    if now + delay > u64::MAX {
        u64::MAX
    } else {
        (now + delay) as u64
    }
}

/// One push into a buffer holding `items`: the batch handed back (when the
/// buffer fills up to `max_items`) and the items left buffered.
pub open spec fn push_step<T>(items: Seq<T>, max_items: usize, x: T) -> (Option<Seq<T>>, Seq<T>) {
    let pushed = items.push(x);
    if pushed.len() >= max_items {
        (Some(pushed), Seq::empty())
    } else {
        (None, pushed)
    }
}

/// Pushing `xs` one by one into a buffer holding `items`: the batches handed
/// back, in order, and the items left buffered.
pub open spec fn run_pushes<T>(items: Seq<T>, max_items: usize, xs: Seq<T>) -> (Seq<Seq<T>>, Seq<T>)
    decreases xs.len(),
{
    if xs.len() == 0 {
        (Seq::empty(), items)
    } else {
        let step = push_step(items, max_items, xs[0]);
        let after = run_pushes(step.1, max_items, xs.drop_first());
        (match step.0 {
            Some(b) => seq![b] + after.0,
            None => after.0,
        }, after.1)
    }
}

/// Batching keeps the stream: the batches handed back while pushing `xs`,
/// followed by what is left buffered, are the buffered items and then `xs`,
/// each item once and in order.
pub proof fn law_batching_preserves_order<T>(items: Seq<T>, max_items: usize, xs: Seq<T>)
    ensures
        run_pushes(items, max_items, xs).0.flatten() + run_pushes(items, max_items, xs).1 == items + xs,
    decreases xs.len(),
{
    if xs.len() == 0 {
        assert(items + xs =~= items);
        assert(Seq::<Seq<T>>::empty().flatten() =~= Seq::<T>::empty());
        assert(Seq::<T>::empty() + items =~= items);
    } else {
        let step = push_step(items, max_items, xs[0]);
        let after = run_pushes(step.1, max_items, xs.drop_first());
        law_batching_preserves_order(step.1, max_items, xs.drop_first());
        assert(items.push(xs[0]) + xs.drop_first() =~= items + xs);
        match step.0 {
            Some(b) => {
                let bs = seq![b] + after.0;
                assert(bs.first() == b);
                assert(bs.drop_first() =~= after.0);
                assert(step.1 + xs.drop_first() =~= xs.drop_first());
                assert(bs.flatten() + after.1 =~= b + (after.0.flatten() + after.1));
            },
            None => {},
        }
    }
}

/// The buffering logic of a batching writer. Times are nanosecond counts
/// on a clock of the caller's choosing.
///
/// Items are buffered in arrival order. A batch is handed back when the
/// buffer reaches `max_items`, on an explicit flush, or when a deadline check
/// finds that `max_delay` has passed since the first buffered item.
pub struct BatchBuffer<T> {
    config: BatchConfig,
    buffer: Vec<T>,
    flush_deadline: Option<u64>,
}

impl<T> BatchBuffer<T> {
    /// The buffered items, oldest first.
    pub closed spec fn items(&self) -> Seq<T> {
        self.buffer@
    }

    /// When the buffered items are due, if any are buffered.
    pub closed spec fn deadline(&self) -> Option<u64> {
        self.flush_deadline
    }

    /// The configuration.
    pub closed spec fn config(&self) -> BatchConfig {
        self.config
    }

    /// A deadline is set exactly while items are buffered.
    pub open spec fn wf(&self) -> bool {
        self.items().len() == 0 <==> self.deadline() is None
    }

    #[verifier::type_invariant]
    spec fn deadline_tracks_items(&self) -> bool {
        self.buffer@.len() == 0 <==> self.flush_deadline is None
    }

    /// An empty buffer.
    pub fn new(config: BatchConfig) -> (b: Self)
        ensures
            b.items() == Seq::<T>::empty(),
            b.deadline() is None,
            b.config() == config,
            b.wf(),
    {
        BatchBuffer { config, buffer: Vec::new(), flush_deadline: None }
    }

    /// Hands back all buffered items, leaving the buffer empty.
    fn take_all(&mut self) -> (r: Vec<T>)
        ensures
            r@ == old(self).items(),
            final(self).items() == Seq::<T>::empty(),
            final(self).deadline() is None,
            final(self).config() == old(self).config(),
    {
        let mut cur = BatchBuffer::new(self.config);
        std::mem::swap(&mut cur, self);
        let BatchBuffer { config: _, buffer, flush_deadline: _ } = cur;
        buffer
    }

    /// Adds an item at time `now`; returns the batch to send when the buffer
    /// is full.
    pub fn push(&mut self, item: T, now: u64) -> (r: Option<Vec<T>>)
        ensures
            final(self).wf(),
            final(self).config() == old(self).config(),
            (match r {
                Some(batch) => Some(batch@),
                None => None,
            }, final(self).items()) == push_step(old(self).items(), old(self).config().max_items, item),
            ({
                let pushed = old(self).items().push(item);
                if pushed.len() >= old(self).config().max_items {
                    &&& r matches Some(batch) && batch@ == pushed
                    &&& final(self).items() == Seq::<T>::empty()
                } else {
                    &&& r is None
                    &&& final(self).items() == pushed
                    &&& final(self).deadline() == (match old(self).deadline() {
                        Some(d) => Some(d),
                        None => Some(deadline_after(now, nanos_of(old(self).config().max_delay))),
                    })
                }
            }),
    {
        let config = self.config;
        let delay = config.max_delay_nanos();
        let mut cur = BatchBuffer::new(config);
        std::mem::swap(&mut cur, self);
        let BatchBuffer { config: _, mut buffer, flush_deadline } = cur;
        buffer.push(item);
        if buffer.len() >= config.max_items {
            Some(buffer)
        } else {
            let due = match flush_deadline {
                Some(d) => Some(d),
                None => Some(now.saturating_add(delay)),
            };
            *self = BatchBuffer { config, buffer, flush_deadline: due };
            None
        }
    }

    /// Hands back the buffered items, or nothing when the buffer is empty.
    pub fn flush(&mut self) -> (r: Option<Vec<T>>)
        ensures
            final(self).wf(),
            final(self).config() == old(self).config(),
            final(self).items() == Seq::<T>::empty(),
            old(self).items().len() == 0 ==> r is None && final(self).deadline() is None,
            old(self).items().len() > 0 ==> (r matches Some(batch) && batch@ == old(self).items()),
    {
        proof {
            use_type_invariant(&*self);
        }
        if self.buffer.len() == 0 {
            None
        } else {
            Some(self.take_all())
        }
    }

    /// Flushes when the deadline has passed at time `now`.
    pub fn check_deadline(&mut self, now: u64) -> (r: Option<Vec<T>>)
        ensures
            final(self).wf(),
            final(self).config() == old(self).config(),
            (match old(self).deadline() {
                Some(d) => now >= d,
                None => false,
            }) ==> (r matches Some(batch) && batch@ == old(self).items() && final(self).items() == Seq::<T>::empty()),
            !(match old(self).deadline() {
                Some(d) => now >= d,
                None => false,
            }) ==> (r is None && final(self).items() == old(self).items() && final(self).deadline() == old(self).deadline()),
    {
        proof {
            use_type_invariant(&*self);
        }
        match self.flush_deadline {
            Some(d) => {
                if now >= d {
                    self.flush()
                } else {
                    None
                }
            },
            None => None,
        }
    }

    /// Number of buffered items.
    pub fn buffered_count(&self) -> (n: usize)
        ensures
            n == self.items().len(),
    {
        self.buffer.len()
    }

    /// The configured maximum delay between the first buffered item and a flush.
    pub fn max_delay(&self) -> (d: std::time::Duration)
        ensures
            d == self.config().max_delay,
    {
        self.config.max_delay
    }
}

/// The unbatching logic of a batch reader: hands out the items of received
/// batches one by one, in order.
pub struct Unbatcher<T> {
    current: Vec<T>,
}

impl<T> Unbatcher<T> {
    /// Items of the current batch not yet handed out, in order.
    pub closed spec fn pending(&self) -> Seq<T> {
        self.current@
    }

    /// Nothing pending.
    pub fn new() -> (u: Self)
        ensures
            u.pending() == Seq::<T>::empty(),
    {
        Unbatcher { current: Vec::new() }
    }

    /// The next pending item; `None` means a new batch must be received.
    pub fn next_item(&mut self) -> (r: Option<T>)
        ensures
            old(self).pending().len() == 0 ==> r is None && final(self).pending() == old(self).pending(),
            old(self).pending().len() > 0 ==> r == Some(old(self).pending()[0]) && final(self).pending() == old(self).pending().drop_first(),
    {
        if self.current.len() == 0 {
            None
        } else {
            let x = self.current.remove(0);
            assert(self.current@ =~= old(self).pending().drop_first());
            Some(x)
        }
    }

    /// Takes a received batch as the current one (an empty batch is skipped
    /// by the next call of `next_item`).
    pub fn load(&mut self, batch: Vec<T>)
        requires
            old(self).pending().len() == 0,
        ensures
            final(self).pending() == batch@,
    {
        self.current = batch;
    }
}

} // verus!
