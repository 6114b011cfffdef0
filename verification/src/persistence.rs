//! Persistence support: identities, journal and snapshot entries, failure
//! policies, and an in-memory store of journals, snapshots and states.

use vstd::prelude::*;
use vstd::string::*;
use vstd::slice::slice_to_vec;
use crate::actor::Actor;
use crate::assoc::KeyedMap;
use crate::text::{decimal_text, u64_to_decimal};
use crate::time::{duration_as_nanos, duration_from_millis, duration_total_nanos};

verus! {

/// Uniquely identifies a persistent actor's journal/snapshot in storage.
#[derive(Debug, PartialEq, Eq, Hash)]
pub struct PersistenceId(pub String);

impl Clone for PersistenceId {
    fn clone(&self) -> (r: Self)
        ensures
            r == *self,
    {
        PersistenceId(self.0.clone())
    }
}

impl PersistenceId {
    /// A persistence id from entity type and entity id, joined by `:`.
    pub fn new(entity_type: &str, entity_id: &str) -> (p: Self)
        ensures
            p.0@ == entity_type@ + ":"@ + entity_id@,
    {
        let mut s = String::from_str(entity_type);
        s.append(":");
        s.append(entity_id);
        PersistenceId(s)
    }

    /// Text form: the id itself.
    pub fn to_string(&self) -> (s: String)
        ensures
            s@ == self.0@,
    {
        self.0.clone()
    }
}

/// Monotonically increasing event sequence number.
#[derive(Debug, Clone, Copy, PartialEq, Eq, PartialOrd, Ord, Hash, Structural)]
pub struct SequenceId(pub i64);

impl SequenceId {
    /// The next sequence id.
    pub fn next(self) -> (s: Self)
        requires
            self.0 < i64::MAX,
        ensures
            s.0 == self.0 + 1,
    {
        SequenceId(self.0 + 1)
    }
}

/// A single journal entry (event).
#[derive(Debug)]
pub struct JournalEntry {
    /// Sequence number of this event.
    pub sequence_id: SequenceId,
    /// Type name of the event (for deserialization dispatch).
    pub event_type: String,
    /// Serialized event payload.
    pub payload: Vec<u8>,
}

/// A journal entry as plain values: sequence number, event type, payload.
pub type EventView = (i64, Seq<char>, Seq<u8>);

impl View for JournalEntry {
    type V = EventView;

    open spec fn view(&self) -> EventView {
        (self.sequence_id.0, self.event_type@, self.payload@)
    }
}

impl Clone for JournalEntry {
    fn clone(&self) -> (r: Self)
        ensures
            r@ == self@,
    {
        JournalEntry { sequence_id: self.sequence_id, event_type: self.event_type.clone(), payload: self.payload.clone() }
    }
}

/// A single snapshot entry.
#[derive(Debug)]
pub struct SnapshotEntry {
    /// Sequence number at which the snapshot was taken.
    pub sequence_id: SequenceId,
    /// Serialized snapshot payload.
    pub payload: Vec<u8>,
}

/// A snapshot as plain values: sequence number and payload.
pub type SnapshotView = (i64, Seq<u8>);

impl View for SnapshotEntry {
    type V = SnapshotView;

    open spec fn view(&self) -> SnapshotView {
        (self.sequence_id.0, self.payload@)
    }
}

impl Clone for SnapshotEntry {
    fn clone(&self) -> (r: Self)
        ensures
            r@ == self@,
    {
        SnapshotEntry { sequence_id: self.sequence_id, payload: self.payload.clone() }
    }
}

/// Errors from persistence operations.
#[derive(Debug)]
pub enum PersistError {
    /// The backing store is unreachable or returned an error.
    StorageUnavailable(String),
    /// Serialization or deserialization of the payload failed.
    SerializationFailed(String),
    /// A stored entry is corrupt or cannot be decoded.
    CorruptEntry {
        /// Sequence number of the corrupt entry.
        sequence_id: SequenceId,
        /// Description of the corruption.
        detail: String,
    },
    /// No storage provider has been configured.
    NotConfigured,
}

/// Decimal text of a signed number.
pub open spec fn i64_text(v: i64) -> Seq<char> {
    if v < 0 {
        "-"@ + decimal_text((-(v as int)) as nat)
    } else {
        decimal_text(v as nat)
    }
}

/// Text form of a persistence error.
pub open spec fn persist_error_text(e: PersistError) -> Seq<char> {
    match e {
        PersistError::StorageUnavailable(m) => "storage unavailable: "@ + m@,
        PersistError::SerializationFailed(m) => "serialization failed: "@ + m@,
        PersistError::CorruptEntry { sequence_id, detail } => "corrupt entry at SequenceId("@ + i64_text(sequence_id.0) + "): "@
            + detail@,
        PersistError::NotConfigured => "no storage provider configured"@,
    }
}

fn i64_to_decimal(v: i64) -> (s: String)
    ensures
        s@ == i64_text(v),
{
    if v < 0 {
        let mut s = String::from_str("-");
        let m: u64 = if v == i64::MIN { 9223372036854775808u64 } else { (-v) as u64 };
        let d = u64_to_decimal(m);
        s.append(d.as_str());
        s
    } else {
        u64_to_decimal(v as u64)
    }
}

impl PersistError {
    /// Text form of the error.
    pub fn to_string(&self) -> (s: String)
        ensures
            s@ == persist_error_text(*self),
    {
        match self {
            PersistError::StorageUnavailable(m) => {
                let mut s = String::from_str("storage unavailable: ");
                s.append(m.as_str());
                s
            },
            PersistError::SerializationFailed(m) => {
                let mut s = String::from_str("serialization failed: ");
                s.append(m.as_str());
                s
            },
            PersistError::CorruptEntry { sequence_id, detail } => {
                let mut s = String::from_str("corrupt entry at SequenceId(");
                let n = i64_to_decimal(sequence_id.0);
                s.append(n.as_str());
                s.append("): ");
                s.append(detail.as_str());
                s
            },
            PersistError::NotConfigured => String::from_str("no storage provider configured"),
        }
    }
}

/// What to do when recovery fails.
#[derive(Debug, Clone, Copy)]
pub enum RecoveryFailurePolicy {
    /// Stop the actor on recovery failure (default).
    Stop,
    /// Retry recovery with backoff.
    Retry {
        /// Maximum number of retry attempts (None = unlimited).
        max_attempts: Option<u32>,
        /// Initial delay before the first retry.
        initial_delay: std::time::Duration,
    },
    /// Skip recovery and start with default state.
    SkipAndStart,
}

impl Default for RecoveryFailurePolicy {
    fn default() -> (p: Self)
        ensures
            p is Stop,
    {
        RecoveryFailurePolicy::Stop
    }
}

/// What to do when a persist operation fails.
#[derive(Debug, Clone, Copy)]
pub enum PersistFailurePolicy {
    /// Stop the actor on persist failure (default).
    Stop,
    /// Return the error to the caller.
    ReturnError,
    /// Retry the persist operation with backoff.
    Retry {
        /// Maximum number of retry attempts (None = unlimited).
        max_attempts: Option<u32>,
        /// Initial delay before the first retry.
        initial_delay: std::time::Duration,
    },
}

impl Default for PersistFailurePolicy {
    fn default() -> (p: Self)
        ensures
            p is Stop,
    {
        PersistFailurePolicy::Stop
    }
}

/// Controls automatic snapshotting for event-sourced actors.
#[derive(Debug, Clone, Copy)]
pub struct SnapshotConfig {
    /// Take a snapshot every N events (None = disabled).
    pub every_n_events: Option<u64>,
    /// Take a snapshot at this interval (None = disabled).
    pub interval: Option<std::time::Duration>,
    /// Keep at most N snapshots (None = keep all).
    pub retention_count: Option<u32>,
    /// Whether to delete journal events after a successful snapshot.
    pub delete_events_on_snapshot: bool,
}

impl Default for SnapshotConfig {
    fn default() -> (c: Self)
        ensures
            c.every_n_events is None,
            c.interval is None,
            c.retention_count is None,
            !c.delete_events_on_snapshot,
    {
        SnapshotConfig { every_n_events: None, interval: None, retention_count: None, delete_events_on_snapshot: false }
    }
}

/// Controls automatic state saving for durable state actors.
#[derive(Debug, Clone, Copy)]
pub struct SaveConfig {
    /// Save state every N messages (None = disabled).
    pub every_n_messages: Option<u64>,
    /// Save state at this interval (None = disabled).
    pub interval: Option<std::time::Duration>,
}

impl Default for SaveConfig {
    fn default() -> (c: Self)
        ensures
            c.every_n_messages is None,
            c.interval is None,
    {
        SaveConfig { every_n_messages: None, interval: None }
    }
}

/// Actors that persist their state: identity and recovery hooks.
pub trait PersistentActor: Actor {
    /// Unique persistence identity for this actor's journal/snapshots.
    fn persistence_id(&self) -> PersistenceId;

    /// Called before recovery starts. Default: nothing.
    fn pre_recovery(&mut self) {
    }

    /// Called after recovery completes successfully. Default: nothing.
    fn post_recovery(&mut self) {
    }

    /// Policy when recovery fails. Default: stop.
    fn recovery_failure_policy(&self) -> (p: RecoveryFailurePolicy)
        ensures
            true,
        default_ensures
            p is Stop,
    {
        RecoveryFailurePolicy::Stop
    }

    /// Policy when a persist operation fails. Default: stop.
    fn persist_failure_policy(&self) -> (p: PersistFailurePolicy)
        ensures
            true,
        default_ensures
            p is Stop,
    {
        PersistFailurePolicy::Stop
    }
}

/// Event-sourced actors: state rebuilt by replaying events. These are the
/// synchronous parts; writing to a journal is the runtime's.
pub trait EventSourced: PersistentActor + Sized {
    /// The event type.
    type Event;

    /// The state after applying an event.
    spec fn applied(&self, event: &Self::Event) -> Self;

    /// What decoding a stored payload gives: the event, or the error.
    spec fn decoded(&self, payload: &[u8]) -> Result<Self::Event, PersistError>;

    /// The state with its last applied sequence id set.
    spec fn with_last_sequence_id(&self, seq: SequenceId) -> Self;

    /// Apply an event to the state; deterministic and infallible.
    fn apply(&mut self, event: &Self::Event)
        ensures
            *final(self) == old(self).applied(event);

    /// Decode a stored event.
    fn deserialize_event(&self, payload: &[u8]) -> (r: Result<Self::Event, PersistError>)
        ensures
            r == self.decoded(payload);

    /// Encode an event for storage.
    fn serialize_event(&self, event: &Self::Event) -> Result<Vec<u8>, PersistError>;

    /// Restore the state from a snapshot payload.
    fn restore_snapshot(&mut self, payload: Vec<u8>) -> Result<(), PersistError>;

    /// Encode the state as a snapshot payload.
    fn snapshot_payload(&self) -> Result<Vec<u8>, PersistError>;

    /// Automatic snapshot configuration. Default: none.
    fn snapshot_config(&self) -> (c: Option<SnapshotConfig>)
        ensures
            true,
        default_ensures
            c is None,
    {
        None
    }

    /// The last applied sequence id.
    fn last_sequence_id(&self) -> SequenceId;

    /// Set the last applied sequence id.
    fn set_last_sequence_id(&mut self, seq: SequenceId)
        ensures
            *final(self) == old(self).with_last_sequence_id(seq);
}

/// Durable-state actors: the whole state is stored at once. These are the
/// synchronous parts; writing to storage is the runtime's.
pub trait DurableState: PersistentActor {
    /// Encode the state.
    fn serialize_state(&self) -> Result<Vec<u8>, PersistError>;

    /// Restore the state from stored bytes.
    fn restore_state(&mut self, payload: Vec<u8>) -> Result<(), PersistError>;

    /// Automatic save configuration. Default: none.
    fn save_config(&self) -> (c: Option<SaveConfig>)
        ensures
            true,
        default_ensures
            c is None,
    {
        None
    }
}

/// What an actor decodes from a stored payload with these bytes.
pub open spec fn payload_decoded<A: EventSourced>(actor: A, payload: Seq<u8>) -> Result<A::Event, PersistError> {
    actor.decoded(choose|s: &[u8]| (#[trigger] s@) == payload)
}

/// Every one of the first `n` entries decodes.
pub open spec fn all_decode<A: EventSourced>(actor: A, entries: Seq<JournalEntry>, n: int) -> bool {
    forall|k: int| 0 <= k < n ==> (#[trigger] payload_decoded(actor, entries[k].payload@)) is Ok
}

/// The events the entries decode to, each with its sequence id.
pub open spec fn decoded_events<A: EventSourced>(actor: A, entries: Seq<JournalEntry>) -> Seq<(SequenceId, A::Event)> {
    Seq::new(entries.len(), |k: int| (entries[k].sequence_id, payload_decoded(actor, entries[k].payload@)->Ok_0))
}

/// The actor after applying the events in order, each followed by setting
/// its sequence id as the last applied one.
pub open spec fn replayed<A: EventSourced>(actor: A, events: Seq<(SequenceId, A::Event)>) -> A
    decreases events.len(),
{
    if events.len() == 0 {
        actor
    } else {
        replayed(actor, events.drop_last()).applied(&events.last().1).with_last_sequence_id(events.last().0)
    }
}

/// Replay journal entries onto an actor: every entry is decoded first, and
/// only when all decode are the events applied in order (each followed by
/// its sequence id). A decoding failure leaves the actor as it was and
/// returns the error of the first entry that did not decode.
pub fn replay_events<A: EventSourced>(actor: &mut A, entries: &Vec<JournalEntry>) -> (r: Result<(), PersistError>)
    ensures
        r is Ok <==> all_decode(*old(actor), entries@, entries@.len() as int),
        r is Ok ==> *final(actor) == replayed(*old(actor), decoded_events(*old(actor), entries@)),
        r is Err ==> *final(actor) == *old(actor),
        r matches Err(e) ==> exists|i: int| 0 <= i < entries@.len()
            && all_decode(*old(actor), entries@, i)
            && (#[trigger] payload_decoded(*old(actor), entries@[i].payload@) matches Err(f) && f == e),
{
    let ghost a0 = *actor;
    let mut decoded: Vec<(SequenceId, A::Event)> = Vec::new();
    let mut i: usize = 0;
    while i < entries.len()
        invariant
            i <= entries@.len(),
            *actor == a0,
            a0 == *old(actor),
            decoded@.len() == i,
            all_decode(a0, entries@, i as int),
            forall|k: int| 0 <= k < i ==> (#[trigger] decoded@[k]) == decoded_events(a0, entries@)[k],
        decreases entries@.len() - i,
    {
        let sl = entries[i].payload.as_slice();
        let res = actor.deserialize_event(sl);
        proof {
            let c = choose|s: &[u8]| (#[trigger] s@) == entries@[i as int].payload@;
            assert(sl@ == entries@[i as int].payload@);
            assert(c =~= sl);
            assert(res == payload_decoded(a0, entries@[i as int].payload@));
        }
        match res {
            Ok(e) => {
                decoded.push((entries[i].sequence_id, e));
            },
            Err(err) => {
                return Err(err);
            },
        }
        i = i + 1;
    }
    assert(decoded@ =~= decoded_events(a0, entries@));
    let mut j: usize = 0;
    while j < decoded.len()
        invariant
            j <= decoded@.len(),
            decoded@ == decoded_events(a0, entries@),
            decoded@.len() == entries@.len(),
            *actor == replayed(a0, decoded@.take(j as int)),
        decreases decoded@.len() - j,
    {
        actor.apply(&decoded[j].1);
        actor.set_last_sequence_id(decoded[j].0);
        proof {
            assert(decoded@.take(j + 1).drop_last() =~= decoded@.take(j as int));
        }
        j = j + 1;
    }
    assert(decoded@.take(decoded@.len() as int) =~= decoded@);
    Ok(())
}

/// The highest sequence number among journal events (meaningful when there
/// is at least one).
pub open spec fn highest_sequence(s: Seq<EventView>) -> i64
    decreases s.len(),
{
    if s.len() <= 1 {
        s[0].0
    } else {
        let m = highest_sequence(s.drop_last());
        if s.last().0 > m {
            s.last().0
        } else {
            m
        }
    }
}

/// The highest sequence number of a non-empty journal is the sequence
/// number of one of its events, and no event has a higher one.
pub proof fn law_highest_sequence_is_max(s: Seq<EventView>)
    requires
        s.len() > 0,
    ensures
        forall|i: int| 0 <= i < s.len() ==> (#[trigger] s[i]).0 <= highest_sequence(s),
        exists|i: int| 0 <= i < s.len() && (#[trigger] s[i]).0 == highest_sequence(s),
    decreases s.len(),
{
    if s.len() == 1 {
        assert(s[0].0 == highest_sequence(s));
    } else {
        let t = s.drop_last();
        law_highest_sequence_is_max(t);
        assert forall|i: int| 0 <= i < s.len() implies (#[trigger] s[i]).0 <= highest_sequence(s) by {
            if i < s.len() - 1 {
                assert(s[i] == t[i]);
            }
        }
        if s.last().0 > highest_sequence(t) {
            assert(s[s.len() - 1].0 == highest_sequence(s));
        } else {
            let j = choose|j: int| 0 <= j < t.len() && (#[trigger] t[j]).0 == highest_sequence(t);
            assert(s[j] == t[j]);
        }
    }
}

// ── In-memory storage ──────────────────────────────

/// The events of one journal as plain values.
pub open spec fn events_view(v: Seq<JournalEntry>) -> Seq<EventView> {
    v.map_values(|e: JournalEntry| e@)
}

/// The snapshots of one actor as plain values.
pub open spec fn snapshots_view(v: Seq<SnapshotEntry>) -> Seq<SnapshotView> {
    v.map_values(|e: SnapshotEntry| e@)
}

/// Whether an event is at or after `from`.
pub open spec fn at_or_after(from: i64) -> spec_fn(EventView) -> bool {
    |e: EventView| e.0 >= from
}

/// Whether an event is after `to`.
pub open spec fn after(to: i64) -> spec_fn(EventView) -> bool {
    |e: EventView| e.0 > to
}

/// Whether a snapshot is at or after `seq`.
pub open spec fn snapshot_at_or_after(seq: i64) -> spec_fn(SnapshotView) -> bool {
    |e: SnapshotView| e.0 >= seq
}

/// In-memory store of journals, snapshots and states, keyed by
/// persistence id.
pub struct InMemoryStorage {
    journals: KeyedMap<String, Vec<JournalEntry>>,
    snapshots: KeyedMap<String, Vec<SnapshotEntry>>,
    states: KeyedMap<String, Vec<u8>>,
}

impl InMemoryStorage {
    /// The journal of a persistence id (empty if none was written).
    pub closed spec fn journal(&self, pid: Seq<char>) -> Seq<EventView> {
        if self.journals.map().dom().contains(pid) {
            events_view(self.journals.map()[pid]@)
        } else {
            Seq::empty()
        }
    }

    /// The snapshots of a persistence id, oldest first.
    pub closed spec fn snapshot_list(&self, pid: Seq<char>) -> Seq<SnapshotView> {
        if self.snapshots.map().dom().contains(pid) {
            snapshots_view(self.snapshots.map()[pid]@)
        } else {
            Seq::empty()
        }
    }

    /// The saved state of a persistence id, if any.
    pub closed spec fn state(&self, pid: Seq<char>) -> Option<Seq<u8>> {
        if self.states.map().dom().contains(pid) {
            Some(self.states.map()[pid]@)
        } else {
            None
        }
    }

    /// An empty store.
    pub fn new() -> (s: Self)
        ensures
            forall|p: Seq<char>| s.journal(p) == Seq::<EventView>::empty(),
            forall|p: Seq<char>| s.snapshot_list(p) == Seq::<SnapshotView>::empty(),
            forall|p: Seq<char>| s.state(p) is None,
    {
        InMemoryStorage { journals: KeyedMap::new(), snapshots: KeyedMap::new(), states: KeyedMap::new() }
    }

    /// Takes the journal of `pid` out of the store (empty if absent).
    fn take_journal(&mut self, pid: &String) -> (v: Vec<JournalEntry>)
        ensures
            events_view(v@) == old(self).journal(pid@),
            !final(self).journals.map().dom().contains(pid@),
            final(self).journals.map() == old(self).journals.map().remove(pid@),
            final(self).snapshots == old(self).snapshots,
            final(self).states == old(self).states,
    {
        match self.journals.remove(pid) {
            Some(v) => v,
            None => {
                let v: Vec<JournalEntry> = Vec::new();
                assert(events_view(v@) =~= Seq::<EventView>::empty());
                v
            },
        }
    }

    /// Append a single event to the journal of `pid`.
    pub fn write_event(&mut self, pid: &PersistenceId, sequence_id: SequenceId, event_type: &str, payload: &[u8])
        -> (r: Result<(), PersistError>)
        ensures
            r is Ok,
            final(self).journal(pid.0@) == old(self).journal(pid.0@).push((sequence_id.0, event_type@, payload@)),
            forall|p: Seq<char>| p != pid.0@ ==> final(self).journal(p) == old(self).journal(p),
            forall|p: Seq<char>| final(self).snapshot_list(p) == old(self).snapshot_list(p),
            forall|p: Seq<char>| final(self).state(p) == old(self).state(p),
    {
        let key = pid.0.clone();
        let mut v = self.take_journal(&key);
        let ghost before = v@;
        v.push(JournalEntry { sequence_id, event_type: String::from_str(event_type), payload: slice_to_vec(payload) });
        assert(events_view(v@) =~= events_view(before).push((sequence_id.0, event_type@, payload@)));
        self.journals.insert(key, v);
        Ok(())
    }

    /// Append a batch of events, in order, to the journal of `pid`.
    pub fn write_event_batch(&mut self, pid: &PersistenceId, batch: &[(SequenceId, &str, &[u8])]) -> (r: Result<(), PersistError>)
        ensures
            r is Ok,
            final(self).journal(pid.0@) == old(self).journal(pid.0@) + batch@.map_values(
                |b: (SequenceId, &str, &[u8])| (b.0.0, b.1@, b.2@),
            ),
            forall|p: Seq<char>| p != pid.0@ ==> final(self).journal(p) == old(self).journal(p),
            forall|p: Seq<char>| final(self).snapshot_list(p) == old(self).snapshot_list(p),
            forall|p: Seq<char>| final(self).state(p) == old(self).state(p),
    {
        let key = pid.0.clone();
        let mut v = self.take_journal(&key);
        let ghost before = events_view(v@);
        let ghost added = batch@.map_values(|b: (SequenceId, &str, &[u8])| (b.0.0, b.1@, b.2@));
        let mut i: usize = 0;
        while i < batch.len()
            invariant
                i <= batch@.len(),
                added == batch@.map_values(|b: (SequenceId, &str, &[u8])| (b.0.0, b.1@, b.2@)),
                events_view(v@) == before + added.take(i as int),
            decreases batch@.len() - i,
        {
            let (seq, event_type, payload) = batch[i];
            let ghost prev = v@;
            v.push(JournalEntry { sequence_id: seq, event_type: String::from_str(event_type), payload: slice_to_vec(payload) });
            assert(events_view(v@) =~= events_view(prev).push(added[i as int]));
            assert(added.take(i as int).push(added[i as int]) =~= added.take(i + 1));
            i += 1;
        }
        assert(added.take(batch@.len() as int) =~= added);
        self.journals.insert(key, v);
        Ok(())
    }

    /// The events of `pid` at or after `from_sequence`, in journal order.
    pub fn read_events(&self, pid: &PersistenceId, from_sequence: SequenceId) -> (r: Result<Vec<JournalEntry>, PersistError>)
        ensures
            r matches Ok(v) && events_view(v@) == self.journal(pid.0@).filter(at_or_after(from_sequence.0)),
    {
        let mut out: Vec<JournalEntry> = Vec::new();
        match self.journals.get(&pid.0) {
            None => {
                assert(self.journal(pid.0@) =~= Seq::<EventView>::empty());
                proof {
                    reveal(Seq::filter);
                }
                assert(events_view(out@) =~= Seq::<EventView>::empty().filter(at_or_after(from_sequence.0)));
            },
            Some(entries) => {
                let ghost all = events_view(entries@);
                let mut i: usize = 0;
                while i < entries.len()
                    invariant
                        i <= entries@.len(),
                        all == events_view(entries@),
                        events_view(out@) == all.take(i as int).filter(at_or_after(from_sequence.0)),
                    decreases entries@.len() - i,
                {
                    proof {
                        reveal(Seq::filter);
                        assert(all.take(i + 1).drop_last() =~= all.take(i as int));
                        assert(all.take(i + 1).last() == entries@[i as int]@);
                    }
                    if entries[i].sequence_id.0 >= from_sequence.0 {
                        let ghost prev = out@;
                        out.push(entries[i].clone());
                        assert(events_view(out@) =~= events_view(prev).push(entries@[i as int]@));
                    }
                    i += 1;
                }
                assert(all.take(entries@.len() as int) =~= all);
            },
        }
        Ok(out)
    }

    /// The highest sequence number in `pid`'s journal (none when it is empty).
    pub fn read_highest_sequence(&self, pid: &PersistenceId) -> (r: Result<Option<SequenceId>, PersistError>)
        ensures
            r matches Ok(o) && (self.journal(pid.0@).len() == 0 ==> o is None) && (self.journal(pid.0@).len() > 0 ==> o
                == Some(SequenceId(highest_sequence(self.journal(pid.0@))))),
    {
        match self.journals.get(&pid.0) {
            None => Ok(None),
            Some(entries) => {
                if entries.len() == 0 {
                    Ok(None)
                } else {
                    let ghost es = events_view(entries@);
                    let mut best: i64 = entries[0].sequence_id.0;
                    let mut i: usize = 1;
                    assert(es.take(1).drop_last() =~= Seq::<EventView>::empty());
                    while i < entries.len()
                        invariant
                            1 <= i <= entries@.len(),
                            es == events_view(entries@),
                            best == highest_sequence(es.take(i as int)),
                        decreases entries@.len() - i,
                    {
                        proof {
                            assert(es.take(i + 1).drop_last() =~= es.take(i as int));
                            assert(es.take(i + 1).last() == es[i as int]);
                        }
                        let v = entries[i].sequence_id.0;
                        if v > best {
                            best = v;
                        }
                        i = i + 1;
                    }
                    assert(es.take(entries@.len() as int) =~= es);
                    Ok(Some(SequenceId(best)))
                }
            },
        }
    }

    /// Delete the events of `pid` up to and including `to_sequence`.
    pub fn delete_events_to(&mut self, pid: &PersistenceId, to_sequence: SequenceId) -> (r: Result<(), PersistError>)
        ensures
            r is Ok,
            final(self).journal(pid.0@) == old(self).journal(pid.0@).filter(after(to_sequence.0)),
            forall|p: Seq<char>| p != pid.0@ ==> final(self).journal(p) == old(self).journal(p),
            forall|p: Seq<char>| final(self).snapshot_list(p) == old(self).snapshot_list(p),
            forall|p: Seq<char>| final(self).state(p) == old(self).state(p),
    {
        let key = pid.0.clone();
        if !self.journals.contains_key(&key) {
            proof {
                reveal(Seq::filter);
            }
            assert(old(self).journal(pid.0@).filter(after(to_sequence.0)) =~= Seq::<EventView>::empty());
            return Ok(());
        }
        let v = self.take_journal(&key);
        let ghost all = events_view(v@);
        let mut kept: Vec<JournalEntry> = Vec::new();
        let mut i: usize = 0;
        while i < v.len()
            invariant
                i <= v@.len(),
                all == events_view(v@),
                events_view(kept@) == all.take(i as int).filter(after(to_sequence.0)),
            decreases v@.len() - i,
        {
            proof {
                reveal(Seq::filter);
                assert(all.take(i + 1).drop_last() =~= all.take(i as int));
                assert(all.take(i + 1).last() == v@[i as int]@);
            }
            if v[i].sequence_id.0 > to_sequence.0 {
                let ghost prev = kept@;
                kept.push(v[i].clone());
                assert(events_view(kept@) =~= events_view(prev).push(v@[i as int]@));
            }
            i += 1;
        }
        assert(all.take(v@.len() as int) =~= all);
        self.journals.insert(key, kept);
        Ok(())
    }

    /// Save a snapshot of `pid` taken at `sequence_id`.
    pub fn save_snapshot(&mut self, pid: &PersistenceId, sequence_id: SequenceId, payload: &[u8]) -> (r: Result<(), PersistError>)
        ensures
            r is Ok,
            final(self).snapshot_list(pid.0@) == old(self).snapshot_list(pid.0@).push((sequence_id.0, payload@)),
            forall|p: Seq<char>| p != pid.0@ ==> final(self).snapshot_list(p) == old(self).snapshot_list(p),
            forall|p: Seq<char>| final(self).journal(p) == old(self).journal(p),
            forall|p: Seq<char>| final(self).state(p) == old(self).state(p),
    {
        let key = pid.0.clone();
        let mut v = match self.snapshots.remove(&key) {
            Some(v) => v,
            None => {
                let v: Vec<SnapshotEntry> = Vec::new();
                assert(snapshots_view(v@) =~= Seq::<SnapshotView>::empty());
                v
            },
        };
        let ghost before = v@;
        v.push(SnapshotEntry { sequence_id, payload: slice_to_vec(payload) });
        assert(snapshots_view(v@) =~= snapshots_view(before).push((sequence_id.0, payload@)));
        self.snapshots.insert(key, v);
        Ok(())
    }

    /// The most recently saved snapshot of `pid`.
    pub fn load_latest_snapshot(&self, pid: &PersistenceId) -> (r: Result<Option<SnapshotEntry>, PersistError>)
        ensures
            r matches Ok(o) && (self.snapshot_list(pid.0@).len() == 0 ==> o is None) && (self.snapshot_list(pid.0@).len() > 0
                ==> (o matches Some(s) && s@ == self.snapshot_list(pid.0@).last())),
    {
        match self.snapshots.get(&pid.0) {
            None => Ok(None),
            Some(entries) => {
                if entries.len() == 0 {
                    Ok(None)
                } else {
                    Ok(Some(entries[entries.len() - 1].clone()))
                }
            },
        }
    }

    /// Delete the snapshots of `pid` taken before `sequence_id`.
    pub fn delete_snapshots_before(&mut self, pid: &PersistenceId, sequence_id: SequenceId) -> (r: Result<(), PersistError>)
        ensures
            r is Ok,
            final(self).snapshot_list(pid.0@) == old(self).snapshot_list(pid.0@).filter(snapshot_at_or_after(sequence_id.0)),
            forall|p: Seq<char>| p != pid.0@ ==> final(self).snapshot_list(p) == old(self).snapshot_list(p),
            forall|p: Seq<char>| final(self).journal(p) == old(self).journal(p),
            forall|p: Seq<char>| final(self).state(p) == old(self).state(p),
    {
        let key = pid.0.clone();
        let v = match self.snapshots.remove(&key) {
            Some(v) => v,
            None => {
                proof {
                    reveal(Seq::filter);
                }
                assert(old(self).snapshot_list(pid.0@).filter(snapshot_at_or_after(sequence_id.0)) =~= Seq::<SnapshotView>::empty());
                return Ok(());
            },
        };
        let ghost all = snapshots_view(v@);
        let mut kept: Vec<SnapshotEntry> = Vec::new();
        let mut i: usize = 0;
        while i < v.len()
            invariant
                i <= v@.len(),
                all == snapshots_view(v@),
                snapshots_view(kept@) == all.take(i as int).filter(snapshot_at_or_after(sequence_id.0)),
            decreases v@.len() - i,
        {
            proof {
                reveal(Seq::filter);
                assert(all.take(i + 1).drop_last() =~= all.take(i as int));
                assert(all.take(i + 1).last() == v@[i as int]@);
            }
            if v[i].sequence_id.0 >= sequence_id.0 {
                let ghost prev = kept@;
                kept.push(v[i].clone());
                assert(snapshots_view(kept@) =~= snapshots_view(prev).push(v@[i as int]@));
            }
            i += 1;
        }
        assert(all.take(v@.len() as int) =~= all);
        self.snapshots.insert(key, kept);
        Ok(())
    }

    /// Save (replace) the state of `pid`.
    pub fn save_state(&mut self, pid: &PersistenceId, payload: &[u8]) -> (r: Result<(), PersistError>)
        ensures
            r is Ok,
            final(self).state(pid.0@) == Some(payload@),
            forall|p: Seq<char>| p != pid.0@ ==> final(self).state(p) == old(self).state(p),
            forall|p: Seq<char>| final(self).journal(p) == old(self).journal(p),
            forall|p: Seq<char>| final(self).snapshot_list(p) == old(self).snapshot_list(p),
    {
        self.states.insert(pid.0.clone(), slice_to_vec(payload));
        Ok(())
    }

    /// The saved state of `pid`, if any.
    pub fn load_state(&self, pid: &PersistenceId) -> (r: Result<Option<Vec<u8>>, PersistError>)
        ensures
            r matches Ok(o) && (self.state(pid.0@) is None ==> o is None) && (self.state(pid.0@) matches Some(b) ==> (o matches Some(
                v,
            ) && v@ == b)),
    {
        match self.states.get(&pid.0) {
            None => Ok(None),
            Some(v) => Ok(Some(v.clone())),
        }
    }

    /// Delete the saved state of `pid`.
    pub fn delete_state(&mut self, pid: &PersistenceId) -> (r: Result<(), PersistError>)
        ensures
            r is Ok,
            final(self).state(pid.0@) is None,
            forall|p: Seq<char>| p != pid.0@ ==> final(self).state(p) == old(self).state(p),
            forall|p: Seq<char>| final(self).journal(p) == old(self).journal(p),
            forall|p: Seq<char>| final(self).snapshot_list(p) == old(self).snapshot_list(p),
    {
        let _ = self.states.remove(&pid.0);
        Ok(())
    }
}

impl Default for InMemoryStorage {
    fn default() -> (s: Self)
        ensures
            forall|p: Seq<char>| s.journal(p) == Seq::<EventView>::empty(),
            forall|p: Seq<char>| s.snapshot_list(p) == Seq::<SnapshotView>::empty(),
            forall|p: Seq<char>| s.state(p) is None,
    {
        InMemoryStorage::new()
    }
}

/// Storage provider that hands out one in-memory store for every id.
pub struct InMemoryStorageProvider {
    storage: InMemoryStorage,
}

impl InMemoryStorageProvider {
    /// The store handed out.
    pub closed spec fn store(&self) -> InMemoryStorage {
        self.storage
    }

    /// A provider over a new empty store.
    pub fn new() -> (p: Self)
        ensures
            forall|q: Seq<char>| p.store().journal(q) == Seq::<EventView>::empty(),
            forall|q: Seq<char>| p.store().snapshot_list(q) == Seq::<SnapshotView>::empty(),
            forall|q: Seq<char>| p.store().state(q) is None,
    {
        InMemoryStorageProvider { storage: InMemoryStorage::new() }
    }

    /// A provider over an existing store.
    pub fn from_storage(storage: InMemoryStorage) -> (p: Self)
        ensures
            p.store() == storage,
    {
        InMemoryStorageProvider { storage }
    }

    /// The journal store for `id` (the shared store).
    pub fn journal(&self, id: &PersistenceId) -> (r: Option<&InMemoryStorage>)
        ensures
            r == Some(&self.store()),
    {
        Some(&self.storage)
    }

    /// The snapshot store for `id` (the shared store).
    pub fn snapshots(&self, id: &PersistenceId) -> (r: Option<&InMemoryStorage>)
        ensures
            r == Some(&self.store()),
    {
        Some(&self.storage)
    }

    /// The state store for `id` (the shared store).
    pub fn state(&self, id: &PersistenceId) -> (r: Option<&InMemoryStorage>)
        ensures
            r == Some(&self.store()),
    {
        Some(&self.storage)
    }

    /// Mutable access to the shared store.
    pub fn storage_mut(&mut self) -> (r: &mut InMemoryStorage)
        ensures
            *r == old(self).store(),
            final(self).store() == *final(r),
    {
        &mut self.storage
    }
}

impl Default for InMemoryStorageProvider {
    fn default() -> (p: Self)
        ensures
            forall|q: Seq<char>| p.store().journal(q) == Seq::<EventView>::empty(),
            forall|q: Seq<char>| p.store().snapshot_list(q) == Seq::<SnapshotView>::empty(),
            forall|q: Seq<char>| p.store().state(q) is None,
    {
        InMemoryStorageProvider::new()
    }
}


/// Reading a journal from `from` after one more event was written gives
/// what it gave before, followed by that event when its sequence number is
/// at least `from`.
pub proof fn law_read_after_write(before: Seq<EventView>, e: EventView, from: i64)
    ensures
        before.push(e).filter(at_or_after(from)) == if e.0 >= from {
            before.filter(at_or_after(from)).push(e)
        } else {
            before.filter(at_or_after(from))
        },
{
    reveal(Seq::filter);
    assert(before.push(e).drop_last() =~= before);
}

/// After deleting the events up to `to`, no event at or before `to` is
/// read back, and reading from any `from` after `to` gives what it gave
/// before the deletion.
pub proof fn law_read_after_delete(before: Seq<EventView>, to: i64, from: i64)
    ensures
        forall|i: int| 0 <= i < before.filter(after(to)).len() ==> #[trigger] before.filter(after(to))[i].0 > to,
        from > to ==> before.filter(after(to)).filter(at_or_after(from)) == before.filter(at_or_after(from)),
    decreases before.len(),
{
    reveal(Seq::filter);
    if before.len() > 0 {
        let rest = before.drop_last();
        law_read_after_delete(rest, to, from);
        let e = before.last();
        assert(before.filter(after(to)) == if e.0 > to { rest.filter(after(to)).push(e) } else { rest.filter(after(to)) });
        if e.0 > to {
            let k = rest.filter(after(to));
            assert(k.push(e).drop_last() =~= k);
        }
    }
}

/// The next backoff delay in milliseconds after a delay of `nanos`
/// nanoseconds: twice the delay's whole milliseconds (taken as a `u64`,
/// doubling saturated), capped at 30 seconds.
pub open spec fn next_backoff_ms(nanos: nat) -> u64 {
    let ms = ((nanos / 1_000_000) as u128) as u64;
    let doubled: u64 = if ms * 2 > u64::MAX { u64::MAX } else { (ms * 2) as u64 };
    if doubled < 30_000 { doubled } else { 30_000 }
}

/// The delay before the retry after one that waited `delay`.
pub fn next_retry_delay(delay: std::time::Duration) -> (d: std::time::Duration)
    ensures
        duration_total_nanos(d) == next_backoff_ms(duration_total_nanos(delay)) * 1_000_000,
{
    let ms = (duration_as_nanos(delay) / 1_000_000) as u64;
    let doubled: u64 = if ms > u64::MAX / 2 { u64::MAX } else { ms * 2 };
    let capped = if doubled < 30_000 { doubled } else { 30_000 };
    duration_from_millis(capped)
}

/// Retries left after a failed recovery, and the wait before the next one.
#[derive(Debug, Clone, Copy)]
pub struct RecoveryRetry {
    /// Recovery attempts still to make.
    pub remaining: u32,
    /// Wait before the next attempt.
    pub delay: std::time::Duration,
}

/// What to do after a recovery attempt failed.
#[derive(Debug, Clone, Copy)]
pub enum RecoveryDecision {
    /// Report the failure.
    Fail,
    /// Skip recovery: run the post-recovery hook and start with fresh state.
    StartFresh,
    /// Try again, as the plan says.
    Retry(RecoveryRetry),
}

/// The decision after the first recovery attempt failed. `Retry` makes
/// `max_attempts` attempts in all (three when unset), so one fewer retries.
pub fn on_recovery_failure(policy: &RecoveryFailurePolicy) -> (d: RecoveryDecision)
    ensures
        (match *policy {
            RecoveryFailurePolicy::Stop => d is Fail,
            RecoveryFailurePolicy::SkipAndStart => d is StartFresh,
            RecoveryFailurePolicy::Retry { max_attempts, initial_delay } => {
                let attempts: u32 = match max_attempts { Some(a) => a, None => 3 };
                d matches RecoveryDecision::Retry(plan)
                    && plan.remaining == (if attempts == 0 { 0 } else { attempts - 1 })
                    && plan.delay == initial_delay
            },
        }),
{
    match policy {
        RecoveryFailurePolicy::Stop => RecoveryDecision::Fail,
        RecoveryFailurePolicy::SkipAndStart => RecoveryDecision::StartFresh,
        RecoveryFailurePolicy::Retry { max_attempts, initial_delay } => {
            let attempts: u32 = match max_attempts {
                Some(a) => *a,
                None => 3,
            };
            let remaining: u32 = if attempts == 0 { 0 } else { attempts - 1 };
            RecoveryDecision::Retry(RecoveryRetry { remaining, delay: *initial_delay })
        },
    }
}

impl RecoveryRetry {
    /// The wait before the next attempt, or `None` when no attempts are left
    /// (then the first failure is reported). Each wait doubles the last,
    /// up to 30 seconds.
    pub fn next_wait(&mut self) -> (r: Option<std::time::Duration>)
        ensures
            old(self).remaining == 0 ==> r is None && *final(self) == *old(self),
            old(self).remaining > 0 ==> r == Some(old(self).delay)
                && final(self).remaining == old(self).remaining - 1
                && duration_total_nanos(final(self).delay) == next_backoff_ms(duration_total_nanos(old(self).delay)) * 1_000_000,
    {
        if self.remaining == 0 {
            None
        } else {
            let d = self.delay;
            self.remaining = self.remaining - 1;
            self.delay = next_retry_delay(d);
            Some(d)
        }
    }
}

/// Sequence ids and payloads of a batch of events persisted after `last`:
/// the i-th event gets `last + 1 + i`.
pub fn number_events(last: SequenceId, payloads: Vec<Vec<u8>>) -> (r: Vec<(SequenceId, Vec<u8>)>)
    requires
        last.0 + payloads@.len() <= i64::MAX,
    ensures
        r@.len() == payloads@.len(),
        forall|i: int| 0 <= i < r@.len() ==> (#[trigger] r@[i]).0.0 == last.0 + 1 + i && r@[i].1@ == payloads@[i]@,
{
    let mut out: Vec<(SequenceId, Vec<u8>)> = Vec::new();
    let mut rest = payloads;
    let ghost all = rest@;
    let mut seq = last;
    while rest.len() > 0
        invariant
            last.0 + all.len() <= i64::MAX,
            out@.len() + rest@.len() == all.len(),
            rest@ == all.subrange(out@.len() as int, all.len() as int),
            seq.0 == last.0 + out@.len(),
            forall|i: int| 0 <= i < out@.len() ==> (#[trigger] out@[i]).0.0 == last.0 + 1 + i && out@[i].1@ == all[i]@,
        decreases rest@.len(),
    {
        let p = rest.remove(0);
        seq = seq.next();
        out.push((seq, p));
        assert(rest@ =~= all.subrange(out@.len() as int, all.len() as int));
    }
    out
}

} // verus!
