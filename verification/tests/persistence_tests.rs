use std::time::Duration;
use dactor::actor::Actor;
use dactor::persistence::{
    InMemoryStorage, InMemoryStorageProvider, PersistError, PersistFailurePolicy, PersistenceId, PersistentActor,
    RecoveryFailurePolicy, SequenceId, SnapshotConfig,
};

#[test]
fn test_persistence_id() {
    let id = PersistenceId::new("BankAccount", "acct-123");
    assert_eq!(id.0, "BankAccount:acct-123");
    assert_eq!(id.to_string(), "BankAccount:acct-123");
}

#[test]
fn test_sequence_id_ordering() {
    let s1 = SequenceId(1);
    let s2 = SequenceId(2);
    assert!(s1 < s2);
    assert_eq!(s1.next(), s2);
}

#[test]
fn test_journal_write_read() {
    let mut storage = InMemoryStorage::new();
    let pid = PersistenceId::new("Test", "1");
    storage.write_event(&pid, SequenceId(1), "Created", b"data1").unwrap();
    storage.write_event(&pid, SequenceId(2), "Updated", b"data2").unwrap();
    let events = storage.read_events(&pid, SequenceId(1)).unwrap();
    assert_eq!(events.len(), 2);
    assert_eq!(events[0].event_type, "Created");
    assert_eq!(events[1].payload, b"data2");
}

#[test]
fn test_journal_read_from_sequence() {
    let mut storage = InMemoryStorage::new();
    let pid = PersistenceId::new("Test", "1");
    for i in 1..=5 {
        storage.write_event(&pid, SequenceId(i), "E", b"x").unwrap();
    }
    let events = storage.read_events(&pid, SequenceId(3)).unwrap();
    assert_eq!(events.len(), 3);
}

#[test]
fn test_journal_highest_sequence() {
    let mut storage = InMemoryStorage::new();
    let pid = PersistenceId::new("Test", "1");
    assert_eq!(storage.read_highest_sequence(&pid).unwrap(), None);
    storage.write_event(&pid, SequenceId(1), "E", b"").unwrap();
    storage.write_event(&pid, SequenceId(5), "E", b"").unwrap();
    assert_eq!(storage.read_highest_sequence(&pid).unwrap(), Some(SequenceId(5)));
}

#[test]
fn highest_sequence_ignores_write_order() {
    let mut storage = InMemoryStorage::new();
    let pid = PersistenceId::new("Test", "1");
    storage.write_event(&pid, SequenceId(5), "E", b"").unwrap();
    storage.write_event(&pid, SequenceId(1), "E", b"").unwrap();
    assert_eq!(storage.read_highest_sequence(&pid).unwrap(), Some(SequenceId(5)));
}

#[test]
fn test_journal_delete_events() {
    let mut storage = InMemoryStorage::new();
    let pid = PersistenceId::new("Test", "1");
    for i in 1..=5 {
        storage.write_event(&pid, SequenceId(i), "E", b"x").unwrap();
    }
    storage.delete_events_to(&pid, SequenceId(3)).unwrap();
    let events = storage.read_events(&pid, SequenceId(1)).unwrap();
    assert_eq!(events.len(), 2);
}

#[test]
fn test_journal_batch_write() {
    let mut storage = InMemoryStorage::new();
    let pid = PersistenceId::new("Test", "1");
    let batch: Vec<(SequenceId, &str, &[u8])> =
        vec![(SequenceId(1), "A", b"a"), (SequenceId(2), "B", b"b"), (SequenceId(3), "C", b"c")];
    storage.write_event_batch(&pid, &batch).unwrap();
    let events = storage.read_events(&pid, SequenceId(1)).unwrap();
    assert_eq!(events.len(), 3);
    assert_eq!(events[2].event_type, "C");
}

#[test]
fn test_snapshot_save_load() {
    let mut storage = InMemoryStorage::new();
    let pid = PersistenceId::new("Test", "1");
    storage.save_snapshot(&pid, SequenceId(10), b"state-at-10").unwrap();
    let snap = storage.load_latest_snapshot(&pid).unwrap().unwrap();
    assert_eq!(snap.sequence_id, SequenceId(10));
    assert_eq!(snap.payload, b"state-at-10");
}

#[test]
fn test_snapshot_latest() {
    let mut storage = InMemoryStorage::new();
    let pid = PersistenceId::new("Test", "1");
    storage.save_snapshot(&pid, SequenceId(5), b"old").unwrap();
    storage.save_snapshot(&pid, SequenceId(10), b"new").unwrap();
    let snap = storage.load_latest_snapshot(&pid).unwrap().unwrap();
    assert_eq!(snap.payload, b"new");
}

#[test]
fn test_snapshot_delete_before() {
    let mut storage = InMemoryStorage::new();
    let pid = PersistenceId::new("Test", "1");
    storage.save_snapshot(&pid, SequenceId(5), b"s1").unwrap();
    storage.save_snapshot(&pid, SequenceId(10), b"s2").unwrap();
    storage.delete_snapshots_before(&pid, SequenceId(10)).unwrap();
    let snap = storage.load_latest_snapshot(&pid).unwrap().unwrap();
    assert_eq!(snap.payload, b"s2");
}

#[test]
fn test_state_save_load() {
    let mut storage = InMemoryStorage::new();
    let pid = PersistenceId::new("Test", "1");
    storage.save_state(&pid, b"my-state").unwrap();
    assert_eq!(storage.load_state(&pid).unwrap().unwrap(), b"my-state");
}

#[test]
fn test_state_overwrite() {
    let mut storage = InMemoryStorage::new();
    let pid = PersistenceId::new("Test", "1");
    storage.save_state(&pid, b"v1").unwrap();
    storage.save_state(&pid, b"v2").unwrap();
    assert_eq!(storage.load_state(&pid).unwrap().unwrap(), b"v2");
}

#[test]
fn test_state_delete() {
    let mut storage = InMemoryStorage::new();
    let pid = PersistenceId::new("Test", "1");
    storage.save_state(&pid, b"x").unwrap();
    storage.delete_state(&pid).unwrap();
    assert!(storage.load_state(&pid).unwrap().is_none());
}

#[test]
fn test_empty_reads() {
    let storage = InMemoryStorage::new();
    let pid = PersistenceId::new("Test", "none");
    assert!(storage.read_events(&pid, SequenceId(1)).unwrap().is_empty());
    assert!(storage.load_latest_snapshot(&pid).unwrap().is_none());
    assert!(storage.load_state(&pid).unwrap().is_none());
}

#[test]
fn test_persist_error_display() {
    let err = PersistError::StorageUnavailable("db down".into());
    assert!(err.to_string().contains("db down"));
}

#[test]
fn persist_error_texts() {
    assert_eq!(PersistError::SerializationFailed("bad".into()).to_string(), "serialization failed: bad");
    assert_eq!(
        PersistError::CorruptEntry { sequence_id: SequenceId(-5), detail: "crc".into() }.to_string(),
        "corrupt entry at SequenceId(-5): crc"
    );
    assert_eq!(PersistError::NotConfigured.to_string(), "no storage provider configured");
}

#[test]
fn test_recovery_failure_policy_default() {
    assert!(matches!(RecoveryFailurePolicy::default(), RecoveryFailurePolicy::Stop));
}

#[test]
fn test_snapshot_config_default() {
    let cfg = SnapshotConfig::default();
    assert!(cfg.every_n_events.is_none());
    assert!(!cfg.delete_events_on_snapshot);
}

#[test]
fn test_in_memory_storage_provider() {
    let provider = InMemoryStorageProvider::new();
    let pid = PersistenceId::new("Test", "1");
    assert!(provider.journal(&pid).is_some());
    assert!(provider.snapshots(&pid).is_some());
    assert!(provider.state(&pid).is_some());
}

#[test]
fn test_in_memory_storage_provider_shared() {
    let mut provider = InMemoryStorageProvider::from_storage(InMemoryStorage::new());
    let pid = PersistenceId::new("Test", "shared");
    provider.storage_mut().write_event(&pid, SequenceId(1), "E", b"data").unwrap();
    let events = provider.journal(&pid).unwrap().read_events(&pid, SequenceId(1)).unwrap();
    assert_eq!(events.len(), 1);
}

struct CounterActor {
    id: String,
}

impl Actor for CounterActor {
    type Args = ();
    type Deps = ();

    fn create(_args: (), _deps: ()) -> Self {
        CounterActor { id: "policy".into() }
    }
}

impl PersistentActor for CounterActor {
    fn persistence_id(&self) -> PersistenceId {
        PersistenceId::new("Counter", &self.id)
    }
}

#[test]
fn test_persistent_actor_default_policies() {
    let actor = CounterActor::create((), ());
    assert!(matches!(actor.recovery_failure_policy(), RecoveryFailurePolicy::Stop));
    assert!(matches!(actor.persist_failure_policy(), PersistFailurePolicy::Stop));
}

#[test]
fn journals_of_different_ids_are_independent() {
    let mut storage = InMemoryStorage::new();
    let a = PersistenceId::new("T", "a");
    let b = PersistenceId::new("T", "b");
    storage.write_event(&a, SequenceId(1), "E", b"x").unwrap();
    storage.delete_events_to(&b, SequenceId(10)).unwrap();
    assert_eq!(storage.read_events(&a, SequenceId(0)).unwrap().len(), 1);
    assert!(storage.read_events(&b, SequenceId(0)).unwrap().is_empty());
}

#[test]
fn recovery_decisions_follow_policy() {
    assert!(matches!(dactor::persistence::on_recovery_failure(&RecoveryFailurePolicy::Stop), dactor::persistence::RecoveryDecision::Fail));
    assert!(matches!(dactor::persistence::on_recovery_failure(&RecoveryFailurePolicy::SkipAndStart), dactor::persistence::RecoveryDecision::StartFresh));
    let policy = RecoveryFailurePolicy::Retry { max_attempts: None, initial_delay: std::time::Duration::from_millis(100) };
    match dactor::persistence::on_recovery_failure(&policy) {
        dactor::persistence::RecoveryDecision::Retry(mut plan) => {
            // Three attempts in all: the first failed, two retries are left.
            assert_eq!(plan.remaining, 2);
            assert_eq!(plan.next_wait(), Some(std::time::Duration::from_millis(100)));
            assert_eq!(plan.next_wait(), Some(std::time::Duration::from_millis(200)));
            assert_eq!(plan.next_wait(), None);
        }
        other => panic!("unexpected {:?}", other),
    }
    let policy = RecoveryFailurePolicy::Retry { max_attempts: Some(1), initial_delay: std::time::Duration::from_millis(1) };
    match dactor::persistence::on_recovery_failure(&policy) {
        dactor::persistence::RecoveryDecision::Retry(mut plan) => assert_eq!(plan.next_wait(), None),
        other => panic!("unexpected {:?}", other),
    }
}

#[test]
fn retry_backoff_doubles_up_to_thirty_seconds() {
    assert_eq!(dactor::persistence::next_retry_delay(Duration::from_millis(100)), Duration::from_millis(200));
    assert_eq!(dactor::persistence::next_retry_delay(Duration::from_millis(20_000)), Duration::from_millis(30_000));
    assert_eq!(dactor::persistence::next_retry_delay(Duration::from_micros(1_500)), Duration::from_millis(2));
    assert_eq!(dactor::persistence::next_retry_delay(Duration::from_secs(u64::MAX)), Duration::from_millis(30_000));
}

#[test]
fn batch_events_are_numbered_after_the_last() {
    let r = dactor::persistence::number_events(SequenceId(4), vec![vec![1], vec![2], vec![3]]);
    let seqs: Vec<i64> = r.iter().map(|(s, _)| s.0).collect();
    assert_eq!(seqs, vec![5, 6, 7]);
    assert_eq!(r[2].1, vec![3]);
    assert!(dactor::persistence::number_events(SequenceId(0), vec![]).is_empty());
}

/// A bank account rebuilt from one-byte deposit events; 0xff does not decode.
struct Account {
    balance: u64,
    last: SequenceId,
}

impl Actor for Account {
    type Args = ();
    type Deps = ();

    fn create(_args: (), _deps: ()) -> Self {
        Account { balance: 0, last: SequenceId(0) }
    }
}

impl PersistentActor for Account {
    fn persistence_id(&self) -> PersistenceId {
        PersistenceId::new("Account", "1")
    }
}

impl dactor::persistence::EventSourced for Account {
    type Event = u8;

    fn applied(&self, event: &u8) -> Self {
        Account { balance: self.balance + *event as u64, last: self.last }
    }
    fn decoded(&self, payload: &[u8]) -> Result<u8, PersistError> {
        self.deserialize_event(payload)
    }
    fn with_last_sequence_id(&self, seq: SequenceId) -> Self {
        Account { balance: self.balance, last: seq }
    }
    fn apply(&mut self, event: &u8) {
        self.balance += *event as u64;
    }
    fn deserialize_event(&self, payload: &[u8]) -> Result<u8, PersistError> {
        match payload {
            [b] if *b != 0xff => Ok(*b),
            _ => Err(PersistError::SerializationFailed("bad event".into())),
        }
    }
    fn serialize_event(&self, event: &u8) -> Result<Vec<u8>, PersistError> {
        Ok(vec![*event])
    }
    fn restore_snapshot(&mut self, payload: Vec<u8>) -> Result<(), PersistError> {
        self.balance = payload.first().copied().unwrap_or(0) as u64;
        Ok(())
    }
    fn snapshot_payload(&self) -> Result<Vec<u8>, PersistError> {
        Ok(vec![self.balance as u8])
    }
    fn last_sequence_id(&self) -> SequenceId {
        self.last
    }
    fn set_last_sequence_id(&mut self, seq: SequenceId) {
        self.last = seq;
    }
}

#[test]
fn replay_applies_all_events_in_order() {
    let mut storage = InMemoryStorage::new();
    let pid = PersistenceId::new("Account", "1");
    storage.write_event(&pid, SequenceId(1), "u8", &[5]).unwrap();
    storage.write_event(&pid, SequenceId(2), "u8", &[7]).unwrap();
    let entries = storage.read_events(&pid, SequenceId(1)).unwrap();
    let mut acct = Account::create((), ());
    dactor::persistence::replay_events(&mut acct, &entries).unwrap();
    assert_eq!(acct.balance, 12);
    assert_eq!(acct.last, SequenceId(2));
}

#[test]
fn failed_replay_leaves_actor_unchanged() {
    let mut storage = InMemoryStorage::new();
    let pid = PersistenceId::new("Account", "1");
    storage.write_event(&pid, SequenceId(1), "u8", &[5]).unwrap();
    storage.write_event(&pid, SequenceId(2), "u8", &[0xff]).unwrap();
    let entries = storage.read_events(&pid, SequenceId(1)).unwrap();
    let mut acct = Account { balance: 3, last: SequenceId(0) };
    assert!(dactor::persistence::replay_events(&mut acct, &entries).is_err());
    assert_eq!(acct.balance, 3);
    assert_eq!(acct.last, SequenceId(0));
}
