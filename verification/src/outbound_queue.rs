//! Per-destination priority queue for outbound remote messages.
//!
//! Envelopes are bucketed into five lanes by the first byte of their
//! `dactor.Priority` header (Critical 0–63, High 64–127, Normal 128–191,
//! Low 192–254, Background 255; Normal when the header is absent or empty).
//! Within a lane, envelopes leave in FIFO order. With `max_consecutive = 0`
//! the highest non-empty lane is always served first; otherwise, after that
//! many pops from one lane the queue moves on to the next non-empty lane.

use vstd::prelude::*;
use std::collections::VecDeque;
use crate::remote::WireEnvelope;

verus! {

/// Number of priority lanes.
pub const LANE_COUNT: usize = 5;

/// Name of the priority header.
pub const PRIORITY_HEADER_NAME: &'static str = "dactor.Priority";

/// Lane of a priority value.
pub open spec fn lane_for(p: u8) -> int {
    if p <= 63 {
        0
    } else if p <= 127 {
        1
    } else if p <= 191 {
        2
    } else if p <= 254 {
        3
    } else {
        4
    }
}

/// Priority value carried by headers: the first byte of the priority
/// header, or Normal (128) when it is absent or empty.
pub open spec fn priority_of(h: Map<Seq<char>, Seq<u8>>) -> u8 {
    if h.dom().contains(PRIORITY_HEADER_NAME@) && h[PRIORITY_HEADER_NAME@].len() > 0 {
        h[PRIORITY_HEADER_NAME@][0]
    } else {
        128
    }
}

/// Lane of an envelope.
pub open spec fn envelope_lane(e: WireEnvelope) -> int {
    lane_for(priority_of(e.headers.map()))
}

/// Lane index of an envelope by its priority header.
fn lane_index(envelope: &WireEnvelope) -> (i: usize)
    ensures
        i == envelope_lane(*envelope),
        i < LANE_COUNT,
{
    let p: u8 = match envelope.headers.get(PRIORITY_HEADER_NAME) {
        Some(bytes) => if bytes.len() > 0 { bytes[0] } else { 128 },
        None => 128,
    };
    if p <= 63 {
        0
    } else if p <= 127 {
        1
    } else if p <= 191 {
        2
    } else if p <= 254 {
        3
    } else {
        4
    }
}

/// Total number of envelopes in lanes `0..n`.
pub open spec fn lanes_total(lanes: Seq<Seq<WireEnvelope>>, n: int) -> int
    decreases n,
{
    if n <= 0 {
        0
    } else {
        lanes_total(lanes, n - 1) + lanes[n - 1].len()
    }
}

/// The lanes' contents one after the other, highest priority first.
pub open spec fn lanes_concat(lanes: Seq<Seq<WireEnvelope>>, n: int) -> Seq<WireEnvelope>
    decreases n,
{
    if n <= 0 {
        Seq::empty()
    } else {
        lanes_concat(lanes, n - 1) + lanes[n - 1]
    }
}

/// The first non-empty lane among `start, start + 1, ...` (wrapping), at
/// most `LANE_COUNT` lanes looked at from the `i`-th on.
pub open spec fn next_non_empty(lanes: Seq<Seq<WireEnvelope>>, start: int, i: int) -> Option<int>
    decreases LANE_COUNT - i,
{
    if i >= LANE_COUNT {
        None
    } else if lanes[(start + i) % (LANE_COUNT as int)].len() > 0 {
        Some((start + i) % (LANE_COUNT as int))
    } else {
        next_non_empty(lanes, start, i + 1)
    }
}

/// The queue as plain values.
pub struct QueueModel {
    /// Lane contents, Critical first.
    pub lanes: Seq<Seq<WireEnvelope>>,
    /// Maximum number of envelopes (0 = unlimited).
    pub capacity: usize,
    /// Maximum consecutive pops from one lane (0 = strict priority).
    pub max_consecutive: usize,
    /// Pops from the current lane since it was chosen.
    pub consecutive: usize,
    /// Lane being drained.
    pub current: usize,
}

/// Total number of envelopes.
pub open spec fn model_len(m: QueueModel) -> int {
    lanes_total(m.lanes, LANE_COUNT as int)
}

/// Removing the front of lane `k`.
pub open spec fn take_front(lanes: Seq<Seq<WireEnvelope>>, k: int) -> Seq<Seq<WireEnvelope>> {
    lanes.update(k, lanes[k].drop_first())
}

/// One pop: the queue afterwards and the envelope taken, if any.
pub open spec fn pop_step(m: QueueModel) -> (QueueModel, Option<WireEnvelope>) {
    if model_len(m) == 0 {
        (m, None)
    } else if m.max_consecutive == 0 {
        match next_non_empty(m.lanes, 0, 0) {
            Some(k) => (QueueModel { lanes: take_front(m.lanes, k), ..m }, Some(m.lanes[k][0])),
            None => (m, None),
        }
    } else {
        let choice: Option<(usize, usize)> = if m.consecutive >= m.max_consecutive {
            match next_non_empty(m.lanes, m.current + 1, 0) {
                Some(k) => Some((0, k as usize)),
                None => None,
            }
        } else if m.lanes[m.current as int].len() == 0 {
            match next_non_empty(m.lanes, 0, 0) {
                Some(k) => Some((0, k as usize)),
                None => None,
            }
        } else {
            Some((m.consecutive, m.current))
        };
        match choice {
            Some((c, k)) => (
                QueueModel { lanes: take_front(m.lanes, k as int), consecutive: (c + 1) as usize, current: k, ..m },
                Some(m.lanes[k as int][0]),
            ),
            None => (m, None),
        }
    }
}

/// Per-destination priority queue of outbound envelopes.
pub struct OutboundPriorityQueue {
    lanes: Vec<VecDeque<WireEnvelope>>,
    total: usize,
    capacity: usize,
    max_consecutive: usize,
    consecutive_from_lane: usize,
    current_lane: usize,
}

/// Every lane holds something when a total is positive: some lane is
/// non-empty, and the wrapping search finds one from any start.
pub proof fn lemma_next_non_empty_found(lanes: Seq<Seq<WireEnvelope>>, start: int, i: int)
    requires
        lanes.len() == LANE_COUNT,
        0 <= start,
        0 <= i <= LANE_COUNT,
        exists|j: int| i <= j < LANE_COUNT && #[trigger] lanes[(start + j) % (LANE_COUNT as int)].len() > 0,
    ensures
        next_non_empty(lanes, start, i) matches Some(k) && 0 <= k < LANE_COUNT && lanes[k].len() > 0,
    decreases LANE_COUNT - i,
{
    if i < LANE_COUNT && lanes[(start + i) % (LANE_COUNT as int)].len() == 0 {
        lemma_next_non_empty_found(lanes, start, i + 1);
    }
}

/// A positive total means some lane is non-empty.
pub proof fn lemma_total_positive(lanes: Seq<Seq<WireEnvelope>>, n: int)
    requires
        0 <= n <= lanes.len(),
        lanes_total(lanes, n) > 0,
    ensures
        exists|k: int| 0 <= k < n && #[trigger] lanes[k].len() > 0,
    decreases n,
{
    if lanes[n - 1].len() == 0 {
        lemma_total_positive(lanes, n - 1);
    }
}

/// From any start, every lane is looked at once.
pub proof fn lemma_wrap_covers(lanes: Seq<Seq<WireEnvelope>>, start: int, k: int)
    requires
        lanes.len() == LANE_COUNT,
        0 <= start <= LANE_COUNT,
        0 <= k < LANE_COUNT,
        lanes[k].len() > 0,
    ensures
        exists|j: int| 0 <= j < LANE_COUNT && #[trigger] lanes[(start + j) % (LANE_COUNT as int)].len() > 0,
{
    let j = if k >= start % 5 { k - start % 5 } else { k + 5 - start % 5 };
    assert((start + j) % 5 == k);
}

/// Changing one lane changes the total by the change of that lane.
pub proof fn lemma_total_update(lanes: Seq<Seq<WireEnvelope>>, n: int, k: int, l: Seq<WireEnvelope>)
    requires
        0 <= k < lanes.len(),
        0 <= n <= lanes.len(),
    ensures
        lanes_total(lanes.update(k, l), n) == lanes_total(lanes, n) + if k < n { l.len() - lanes[k].len() } else { 0 },
    decreases n,
{
    if n > 0 {
        lemma_total_update(lanes, n - 1, k, l);
    }
}

/// A lane's size is at most the total.
pub proof fn lemma_lane_le_total(lanes: Seq<Seq<WireEnvelope>>, n: int, k: int)
    requires
        0 <= k < n <= lanes.len(),
    ensures
        lanes[k].len() <= lanes_total(lanes, n),
    decreases n,
{
    if k < n - 1 {
        lemma_lane_le_total(lanes, n - 1, k);
    }
    lemma_total_nonneg(lanes, n - 1);
}

/// Totals are never negative.
pub proof fn lemma_total_nonneg(lanes: Seq<Seq<WireEnvelope>>, n: int)
    ensures
        lanes_total(lanes, n) >= 0,
    decreases n,
{
    if n > 0 {
        lemma_total_nonneg(lanes, n - 1);
    }
}

impl OutboundPriorityQueue {
    /// The queue as plain values.
    pub closed spec fn model(&self) -> QueueModel {
        QueueModel {
            lanes: self.lanes@.map_values(|d: VecDeque<WireEnvelope>| d@),
            capacity: self.capacity,
            max_consecutive: self.max_consecutive,
            consecutive: self.consecutive_from_lane,
            current: self.current_lane,
        }
    }

    /// Well-formedness: five lanes, a total that matches them, and a current
    /// lane among them.
    pub closed spec fn wf(&self) -> bool {
        &&& self.lanes@.len() == LANE_COUNT
        &&& self.total == model_len(self.model())
        &&& self.current_lane < LANE_COUNT
    }

    /// A queue with no capacity limit and strict priority ordering.
    pub fn new() -> (q: Self)
        ensures
            q.wf(),
            q.model().lanes == Seq::new(LANE_COUNT as nat, |i: int| Seq::<WireEnvelope>::empty()),
            q.model().capacity == 0,
            q.model().max_consecutive == 0,
            q.model().consecutive == 0,
            q.model().current == 0,
    {
        OutboundPriorityQueue::with_config(0, 0)
    }

    /// A queue with a capacity limit (0 = unlimited) and a fairness bound
    /// (0 = strict priority).
    pub fn with_config(capacity: usize, max_consecutive: usize) -> (q: Self)
        ensures
            q.wf(),
            q.model().lanes == Seq::new(LANE_COUNT as nat, |i: int| Seq::<WireEnvelope>::empty()),
            q.model().capacity == capacity,
            q.model().max_consecutive == max_consecutive,
            q.model().consecutive == 0,
            q.model().current == 0,
    {
        let mut lanes: Vec<VecDeque<WireEnvelope>> = Vec::new();
        let mut i: usize = 0;
        while i < LANE_COUNT
            invariant
                i <= LANE_COUNT,
                lanes@.len() == i,
                forall|j: int| 0 <= j < i ==> (#[trigger] lanes@[j])@.len() == 0,
            decreases LANE_COUNT - i,
        {
            lanes.push(VecDeque::new());
            i += 1;
        }
        let q = OutboundPriorityQueue {
            lanes,
            total: 0,
            capacity,
            max_consecutive,
            consecutive_from_lane: 0,
            current_lane: 0,
        };
        assert forall|j: int| 0 <= j < LANE_COUNT implies #[trigger] q.model().lanes[j] =~= Seq::<WireEnvelope>::empty() by {
            assert(q.model().lanes[j] == q.lanes@[j]@);
        }
        assert(q.model().lanes =~= Seq::new(LANE_COUNT as nat, |i: int| Seq::<WireEnvelope>::empty()));
        assert(model_len(q.model()) == 0) by {
            reveal_with_fuel(lanes_total, 6);
        }
        q
    }

    /// Enqueue an envelope into its lane; a full queue hands it back.
    pub fn push(&mut self, envelope: WireEnvelope) -> (r: Result<(), WireEnvelope>)
        requires
            old(self).wf(),
            model_len(old(self).model()) < usize::MAX,
        ensures
            final(self).wf(),
            old(self).model().capacity > 0 && model_len(old(self).model()) >= old(self).model().capacity ==> (r
                == Err::<(), WireEnvelope>(envelope) && final(self).model() == old(self).model()),
            !(old(self).model().capacity > 0 && model_len(old(self).model()) >= old(self).model().capacity) ==> (r is Ok
                && final(self).model() == (QueueModel {
                lanes: old(self).model().lanes.update(
                    envelope_lane(envelope),
                    old(self).model().lanes[envelope_lane(envelope)].push(envelope),
                ),
                ..old(self).model()
            })),
    {
        if self.capacity > 0 && self.total >= self.capacity {
            return Err(envelope);
        }
        let lane = lane_index(&envelope);
        let ghost before = self.model();
        let ghost e = envelope;
        let mut d = self.lanes.remove(lane);
        d.push_back(envelope);
        self.lanes.insert(lane, d);
        assert(self.model().lanes =~= before.lanes.update(lane as int, before.lanes[lane as int].push(e)));
        proof {
            lemma_total_update(before.lanes, LANE_COUNT as int, lane as int, before.lanes[lane as int].push(e));
        }
        self.total = self.total + 1;
        Ok(())
    }

    /// The first non-empty lane from `start` on (wrapping).
    fn next_non_empty_lane(&self, start: usize) -> (r: Option<usize>)
        requires
            self.lanes@.len() == LANE_COUNT,
            start <= LANE_COUNT,
        ensures
            r == (match next_non_empty(self.model().lanes, start as int, 0) {
                Some(k) => Some(k as usize),
                None => None,
            }),
            r matches Some(k) ==> k < LANE_COUNT,
    {
        let ghost lanes = self.model().lanes;
        let mut i: usize = 0;
        while i < LANE_COUNT
            invariant
                i <= LANE_COUNT,
                start <= LANE_COUNT,
                self.lanes@.len() == LANE_COUNT,
                lanes == self.model().lanes,
                next_non_empty(lanes, start as int, 0) == next_non_empty(lanes, start as int, i as int),
            decreases LANE_COUNT - i,
        {
            let idx = (start + i) % LANE_COUNT;
            assert(lanes[idx as int] == self.lanes@[idx as int]@);
            if self.lanes[idx].len() > 0 {
                return Some(idx);
            }
            i += 1;
        }
        None
    }

    /// Removes the front envelope of lane `k`.
    fn take_from_lane(&mut self, k: usize) -> (r: WireEnvelope)
        requires
            k < LANE_COUNT,
            old(self).wf(),
            old(self).model().lanes[k as int].len() > 0,
        ensures
            r == old(self).model().lanes[k as int][0],
            final(self).model() == (QueueModel { lanes: take_front(old(self).model().lanes, k as int), ..old(self).model() }),
            final(self).wf(),
    {
        let ghost before = self.model();
        proof {
            lemma_lane_le_total(before.lanes, LANE_COUNT as int, k as int);
        }
        let mut d = self.lanes.remove(k);
        assert(d@ == before.lanes[k as int]);
        let e = d.pop_front().unwrap();
        self.lanes.insert(k, d);
        assert(self.model().lanes =~= take_front(before.lanes, k as int));
        proof {
            lemma_total_update(before.lanes, LANE_COUNT as int, k as int, before.lanes[k as int].drop_first());
        }
        self.total = self.total - 1;
        e
    }

    /// Dequeue the next envelope: the highest-priority one in strict mode,
    /// with the fairness rotation otherwise (see [`pop_step`]).
    pub fn pop(&mut self) -> (r: Option<WireEnvelope>)
        requires
            old(self).wf(),
        ensures
            final(self).wf(),
            (final(self).model(), r) == pop_step(old(self).model()),
    {
        let ghost m = self.model();
        if self.total == 0 {
            return None;
        }
        proof {
            lemma_total_positive(m.lanes, LANE_COUNT as int);
            let k = choose|k: int| 0 <= k < LANE_COUNT && #[trigger] m.lanes[k].len() > 0;
            lemma_wrap_covers(m.lanes, 0, k);
            lemma_wrap_covers(m.lanes, m.current + 1, k);
            lemma_next_non_empty_found(m.lanes, 0, 0);
            lemma_next_non_empty_found(m.lanes, m.current + 1, 0);
        }
        if self.max_consecutive == 0 {
            let k = self.next_non_empty_lane(0).unwrap();
            let e = self.take_from_lane(k);
            return Some(e);
        }
        if self.consecutive_from_lane >= self.max_consecutive {
            let k = self.next_non_empty_lane(self.current_lane + 1).unwrap();
            self.consecutive_from_lane = 0;
            self.current_lane = k;
        } else if self.lanes[self.current_lane].len() == 0 {
            assert(m.lanes[m.current as int] == self.lanes@[self.current_lane as int]@);
            let k = self.next_non_empty_lane(0).unwrap();
            self.consecutive_from_lane = 0;
            self.current_lane = k;
        } else {
            assert(m.lanes[m.current as int] == self.lanes@[self.current_lane as int]@);
        }
        let k = self.current_lane;
        let e = self.take_from_lane(k);
        self.consecutive_from_lane = self.consecutive_from_lane + 1;
        Some(e)
    }

    /// The highest-priority envelope, without removing it.
    pub fn peek(&self) -> (r: Option<&WireEnvelope>)
        requires
            self.wf(),
        ensures
            match next_non_empty(self.model().lanes, 0, 0) {
                Some(k) => r == Some(&self.model().lanes[k][0]),
                None => r is None,
            },
    {
        let ghost lanes = self.model().lanes;
        let mut i: usize = 0;
        while i < LANE_COUNT
            invariant
                i <= LANE_COUNT,
                self.lanes@.len() == LANE_COUNT,
                lanes == self.model().lanes,
                next_non_empty(lanes, 0, 0) == next_non_empty(lanes, 0, i as int),
            decreases LANE_COUNT - i,
        {
            assert(lanes[i as int] == self.lanes@[i as int]@);
            assert((0 + i as int) % (LANE_COUNT as int) == i);
            if self.lanes[i].len() > 0 {
                return Some(&self.lanes[i][0]);
            }
            i += 1;
        }
        None
    }

    /// Drain all envelopes, Critical lane first, FIFO within each lane.
    pub fn drain_ordered(&mut self) -> (r: Vec<WireEnvelope>)
        requires
            old(self).wf(),
        ensures
            final(self).wf(),
            r@ == lanes_concat(old(self).model().lanes, LANE_COUNT as int),
            final(self).model() == (QueueModel {
                lanes: Seq::new(LANE_COUNT as nat, |i: int| Seq::<WireEnvelope>::empty()),
                consecutive: 0,
                ..old(self).model()
            }),
    {
        let ghost before = self.model();
        let mut result: Vec<WireEnvelope> = Vec::new();
        let mut i: usize = 0;
        while i < LANE_COUNT
            invariant
                i <= LANE_COUNT,
                self.lanes@.len() == LANE_COUNT,
                result@ == lanes_concat(before.lanes, i as int),
                forall|j: int| 0 <= j < i ==> (#[trigger] self.lanes@[j])@.len() == 0,
                forall|j: int| i <= j < LANE_COUNT ==> (#[trigger] self.lanes@[j])@ == before.lanes[j],
                self.capacity == before.capacity,
                self.max_consecutive == before.max_consecutive,
                self.consecutive_from_lane == before.consecutive,
                self.current_lane == before.current,
            decreases LANE_COUNT - i,
        {
            let mut d = self.lanes.remove(i);
            assert(d@ == before.lanes[i as int]);
            let ghost start = result@;
            while d.len() > 0
                invariant
                    result@ + d@ == start + before.lanes[i as int],
                decreases d@.len(),
            {
                let ghost dd = d@;
                let e = d.pop_front().unwrap();
                result.push(e);
                assert(result@ + d@ =~= start + before.lanes[i as int]) by {
                    assert(dd =~= seq![e] + d@);
                }
            }
            assert(result@ =~= start + before.lanes[i as int]);
            self.lanes.insert(i, d);
            i += 1;
        }
        self.total = 0;
        self.consecutive_from_lane = 0;
        assert forall|j: int| 0 <= j < LANE_COUNT implies #[trigger] self.model().lanes[j] =~= Seq::<WireEnvelope>::empty() by {
            assert(self.model().lanes[j] == self.lanes@[j]@);
        }
        assert(self.model().lanes =~= Seq::new(LANE_COUNT as nat, |i: int| Seq::<WireEnvelope>::empty()));
        assert(model_len(self.model()) == 0) by {
            reveal_with_fuel(lanes_total, 6);
        }
        result
    }

    /// Total number of envelopes.
    pub fn len(&self) -> (n: usize)
        requires
            self.wf(),
        ensures
            n == model_len(self.model()),
    {
        self.total
    }

    /// Whether the queue is empty.
    pub fn is_empty(&self) -> (r: bool)
        requires
            self.wf(),
        ensures
            r == (model_len(self.model()) == 0),
    {
        self.total == 0
    }

    /// Number of envelopes in each lane (Critical, High, Normal, Low, Background).
    pub fn lane_counts(&self) -> (c: [usize; 5])
        requires
            self.wf(),
        ensures
            forall|i: int| 0 <= i < LANE_COUNT ==> c@[i] == #[trigger] self.model().lanes[i].len(),
    {
        assert(self.model().lanes[0] == self.lanes@[0]@);
        assert(self.model().lanes[1] == self.lanes@[1]@);
        assert(self.model().lanes[2] == self.lanes@[2]@);
        assert(self.model().lanes[3] == self.lanes@[3]@);
        assert(self.model().lanes[4] == self.lanes@[4]@);
        [self.lanes[0].len(), self.lanes[1].len(), self.lanes[2].len(), self.lanes[3].len(), self.lanes[4].len()]
    }

    /// Remove every envelope.
    pub fn clear(&mut self)
        requires
            old(self).wf(),
        ensures
            final(self).wf(),
            final(self).model() == (QueueModel {
                lanes: Seq::new(LANE_COUNT as nat, |i: int| Seq::<WireEnvelope>::empty()),
                ..old(self).model()
            }),
    {
        let ghost before = self.model();
        let mut i: usize = 0;
        while i < LANE_COUNT
            invariant
                i <= LANE_COUNT,
                self.lanes@.len() == LANE_COUNT,
                forall|j: int| 0 <= j < i ==> (#[trigger] self.lanes@[j])@.len() == 0,
                self.capacity == before.capacity,
                self.max_consecutive == before.max_consecutive,
                self.consecutive_from_lane == before.consecutive,
                self.current_lane == before.current,
            decreases LANE_COUNT - i,
        {
            let mut d = self.lanes.remove(i);
            d.clear();
            self.lanes.insert(i, d);
            i += 1;
        }
        self.total = 0;
        assert forall|j: int| 0 <= j < LANE_COUNT implies #[trigger] self.model().lanes[j] =~= Seq::<WireEnvelope>::empty() by {
            assert(self.model().lanes[j] == self.lanes@[j]@);
        }
        assert(self.model().lanes =~= Seq::new(LANE_COUNT as nat, |i: int| Seq::<WireEnvelope>::empty()));
        assert(model_len(self.model()) == 0) by {
            reveal_with_fuel(lanes_total, 6);
        }
    }
}

impl Default for OutboundPriorityQueue {
    fn default() -> (q: Self)
        ensures
            q.wf(),
            q.model().lanes == Seq::new(LANE_COUNT as nat, |i: int| Seq::<WireEnvelope>::empty()),
            q.model().capacity == 0,
            q.model().max_consecutive == 0,
    {
        OutboundPriorityQueue::new()
    }
}

/// In strict mode a pop takes the front of the highest non-empty lane:
/// every lane above it is empty, and one envelope fewer remains.
pub proof fn law_strict_pop_takes_highest(m: QueueModel)
    requires
        m.lanes.len() == LANE_COUNT,
        m.max_consecutive == 0,
        model_len(m) > 0,
    ensures
        pop_step(m).1 matches Some(e) && exists|k: int| 0 <= k < LANE_COUNT && m.lanes[k].len() > 0 && e == m.lanes[k][0]
            && (forall|j: int| 0 <= j < k ==> #[trigger] m.lanes[j].len() == 0),
        model_len(pop_step(m).0) == model_len(m) - 1,
{
    lemma_total_positive(m.lanes, LANE_COUNT as int);
    let k0 = choose|k: int| 0 <= k < LANE_COUNT && #[trigger] m.lanes[k].len() > 0;
    lemma_wrap_covers(m.lanes, 0, k0);
    lemma_next_non_empty_found(m.lanes, 0, 0);
    lemma_next_non_empty_first(m.lanes, 0);
    let k = next_non_empty(m.lanes, 0, 0)->0;
    lemma_total_update(m.lanes, LANE_COUNT as int, k, m.lanes[k].drop_first());
}

/// Searching from lane 0 finds the lowest non-empty lane.
pub proof fn lemma_next_non_empty_first(lanes: Seq<Seq<WireEnvelope>>, i: int)
    requires
        lanes.len() == LANE_COUNT,
        0 <= i <= LANE_COUNT,
        forall|j: int| 0 <= j < i ==> #[trigger] lanes[j].len() == 0,
    ensures
        next_non_empty(lanes, 0, 0) == next_non_empty(lanes, 0, i),
        next_non_empty(lanes, 0, i) matches Some(k) ==> i <= k && forall|j: int| 0 <= j < k ==> #[trigger] lanes[j].len() == 0,
    decreases LANE_COUNT - i,
{
    if i < LANE_COUNT {
        assert((0 + i) % (LANE_COUNT as int) == i);
        if lanes[i].len() == 0 {
            lemma_next_non_empty_first(lanes, i + 1);
        }
    }
    lemma_next_non_empty_prefix(lanes, i);
}

/// Lanes before `i` being empty, the search from 0 agrees with the search from `i`.
proof fn lemma_next_non_empty_prefix(lanes: Seq<Seq<WireEnvelope>>, i: int)
    requires
        lanes.len() == LANE_COUNT,
        0 <= i <= LANE_COUNT,
        forall|j: int| 0 <= j < i ==> #[trigger] lanes[j].len() == 0,
    ensures
        next_non_empty(lanes, 0, 0) == next_non_empty(lanes, 0, i),
    decreases i,
{
    if i > 0 {
        lemma_next_non_empty_prefix(lanes, i - 1);
        assert((0 + (i - 1)) % (LANE_COUNT as int) == i - 1);
    }
}

/// An envelope pushed into an empty queue is the next one popped, in
/// either mode.
pub proof fn law_push_then_pop(m: QueueModel, e: WireEnvelope)
    requires
        m.lanes.len() == LANE_COUNT,
        model_len(m) == 0,
        m.current < LANE_COUNT,
        m.consecutive <= m.max_consecutive,
    ensures
        ({
            let pushed = QueueModel { lanes: m.lanes.update(envelope_lane(e), m.lanes[envelope_lane(e)].push(e)), ..m };
            pop_step(pushed).1 == Some(e)
        }),
{
    let k = envelope_lane(e);
    let lanes2 = m.lanes.update(k, m.lanes[k].push(e));
    let pushed = QueueModel { lanes: lanes2, ..m };
    assert forall|j: int| 0 <= j < LANE_COUNT implies #[trigger] m.lanes[j].len() == 0 by {
        lemma_lane_le_total(m.lanes, LANE_COUNT as int, j);
    }
    lemma_total_update(m.lanes, LANE_COUNT as int, k, m.lanes[k].push(e));
    assert(lanes2[k].len() > 0);
    assert forall|j: int| 0 <= j < LANE_COUNT && j != k implies #[trigger] lanes2[j].len() == 0 by {}
    lemma_wrap_covers(lanes2, 0, k);
    lemma_wrap_covers(lanes2, m.current + 1, k);
    lemma_next_non_empty_found(lanes2, 0, 0);
    lemma_next_non_empty_found(lanes2, m.current + 1, 0);
    assert(lanes2[k][0] == e);
}

/// With a fairness bound, once a lane has been served that many times in a
/// row, the next pop serves another non-empty lane if there is one.
pub proof fn law_fair_pop_rotates(m: QueueModel)
    requires
        m.lanes.len() == LANE_COUNT,
        m.current < LANE_COUNT,
        m.max_consecutive > 0,
        m.consecutive >= m.max_consecutive,
        exists|j: int| 0 <= j < LANE_COUNT && j != m.current && #[trigger] m.lanes[j].len() > 0,
    ensures
        pop_step(m).0.current != m.current,
        pop_step(m).0.consecutive == 1,
{
    let j = choose|j: int| 0 <= j < LANE_COUNT && j != m.current && #[trigger] m.lanes[j].len() > 0;
    lemma_lane_le_total(m.lanes, LANE_COUNT as int, j);
    lemma_wrap_covers(m.lanes, m.current + 1, j);
    lemma_next_non_empty_found(m.lanes, m.current + 1, 0);
    lemma_rotation_skips_current(m.lanes, m.current as int, 0);
}

/// The wrapping search that starts after the current lane reaches the
/// current lane only after every other lane.
proof fn lemma_rotation_skips_current(lanes: Seq<Seq<WireEnvelope>>, cur: int, i: int)
    requires
        lanes.len() == LANE_COUNT,
        0 <= cur < LANE_COUNT,
        0 <= i <= 4,
        exists|j: int| 0 <= j < LANE_COUNT && j != cur && #[trigger] lanes[j].len() > 0,
        forall|t: int| 0 <= t < i ==> #[trigger] lanes[(cur + 1 + t) % 5].len() == 0,
    ensures
        next_non_empty(lanes, cur + 1, i) matches Some(k) && k != cur,
    decreases 5 - i,
{
    if i == 4 {
        let j = choose|j: int| 0 <= j < LANE_COUNT && j != cur && #[trigger] lanes[j].len() > 0;
        let t = if j > cur { j - cur - 1 } else { j + 4 - cur };
        assert(0 <= t < 4);
        assert((cur + 1 + t) % 5 == j);
        assert(lanes[(cur + 1 + t) % 5].len() == 0);
        assert(false);
    } else {
        let idx = (cur + 1 + i) % 5;
        assert(idx != cur);
        if lanes[idx].len() == 0 {
            assert forall|t: int| 0 <= t < i + 1 implies #[trigger] lanes[(cur + 1 + t) % 5].len() == 0 by {
                if t < i {
                } else {
                    assert(t == i);
                }
            }
            lemma_rotation_skips_current(lanes, cur, i + 1);
        }
    }
}

} // verus!
