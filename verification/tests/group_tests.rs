use dactor::clock::{unix_millis_of, Clock, SystemClock};
use dactor::dispatch::{DispatchResult, TypedDispatch};
use dactor::broadcast::BroadcastRef;
use dactor::errors::ActorSendError;
use dactor::group::{ActorRef, ProcessingGroup};
use dactor::pool::{PoolRef, PoolRouting};
use dactor::node::{ActorId, NodeId};
use dactor::system_actors::SpawnManager;
use std::cell::RefCell;
use std::rc::Rc;
use std::time::Duration;

#[derive(Clone, Debug, PartialEq)]
struct FakeRef {
    id: ActorId,
    tag: u32,
    alive: bool,
}

impl ActorRef for FakeRef {
    fn actor_id(&self) -> ActorId {
        self.id.clone()
    }
    fn actor_name(&self) -> String {
        format!("worker-{}", self.tag)
    }
    fn id(&self) -> ActorId {
        self.id.clone()
    }
    fn name(&self) -> String {
        format!("worker-{}", self.tag)
    }
    fn is_alive(&self) -> bool {
        self.alive
    }
}

fn member(local: u64, tag: u32, alive: bool) -> FakeRef {
    FakeRef { id: ActorId { node: NodeId("n1".into()), local }, tag, alive }
}

#[test]
fn group_join_and_leave() {
    let mut g = ProcessingGroup::new("workers");
    assert_eq!(g.name(), "workers");
    assert!(g.is_empty());
    assert!(g.join(member(1, 1, true)).is_none());
    assert!(g.join(member(2, 2, true)).is_none());
    assert_eq!(g.len(), 2);
    let left = g.leave(&member(1, 0, true).id).expect("member");
    assert_eq!(left.tag, 1);
    assert_eq!(g.len(), 1);
    assert!(g.leave(&member(9, 0, true).id).is_none());
}

#[test]
fn group_duplicate_join_replaces() {
    let mut g = ProcessingGroup::new("g");
    g.join(member(1, 1, true));
    let old = g.join(member(1, 2, true)).expect("replaced");
    assert_eq!(old.tag, 1);
    assert_eq!(g.len(), 1);
    assert_eq!(g.get(&member(1, 0, true).id).unwrap().tag, 2);
}

#[test]
fn group_ids_contains_clear() {
    let mut g = ProcessingGroup::new("g");
    g.join(member(1, 1, true));
    g.join(member(2, 2, true));
    let mut ids: Vec<u64> = g.member_ids().iter().map(|i| i.local).collect();
    ids.sort();
    assert_eq!(ids, vec![1, 2]);
    assert!(g.contains(&member(2, 0, true).id));
    g.clear();
    assert!(g.is_empty());
    assert!(!g.contains(&member(2, 0, true).id));
}

#[test]
fn group_prune_dead() {
    let mut g = ProcessingGroup::new("g");
    g.join(member(1, 1, true));
    g.join(member(2, 2, false));
    g.join(member(3, 3, false));
    assert_eq!(g.prune_dead(), 2);
    assert_eq!(g.len(), 1);
    assert!(g.contains(&member(1, 0, true).id));
}

#[test]
fn group_retain_alive_by_flags() {
    let mut g = ProcessingGroup::new("g");
    g.join(member(1, 1, true));
    g.join(member(2, 2, true));
    g.join(member(3, 3, true));
    // Flags follow the storage order: members 1, 2, 3.
    assert_eq!(g.retain_alive(&vec![false, true, false]), 2);
    assert_eq!(g.len(), 1);
    assert_eq!(g.get(&member(2, 0, true).id).map(|m| m.tag), Some(2));
    assert_eq!(g.retain_alive(&vec![true]), 0);
    assert_eq!(g.len(), 1);
}

#[test]
fn group_join_keys_by_reference_id() {
    let mut g = ProcessingGroup::new("g");
    g.join(member(7, 1, true));
    let old = g.join(member(7, 2, true)).expect("replaced");
    assert_eq!(old.tag, 1);
    assert_eq!(g.get(&member(7, 0, true).id).map(|m| m.tag), Some(2));
    assert!(!g.contains(&member(8, 0, true).id));
}

#[test]
fn system_clock_reads_time() {
    let c = SystemClock;
    let a = c.now();
    assert!(c.now() >= a);
    assert!(c.unix_ms() > 1_600_000_000_000);
}

#[test]
fn unix_millis_conversion() {
    assert_eq!(unix_millis_of(None), 0);
    assert_eq!(unix_millis_of(Some(Duration::from_micros(2_500))), 2);
    assert_eq!(unix_millis_of(Some(Duration::from_secs(3))), 3_000);
}

#[test]
fn dispatch_result_delivers_reply() {
    let got = Rc::new(RefCell::new(None));
    let g2 = got.clone();
    let r = DispatchResult { reply: Some(5u32), reply_sender: Some(move |v: u32| *g2.borrow_mut() = Some(v)) };
    assert!(r.send_reply());
    assert_eq!(*got.borrow(), Some(5));
    let t: DispatchResult<u32, fn(u32)> = DispatchResult::tell();
    assert!(t.reply.is_none());
    assert!(!t.send_reply());
    let d = TypedDispatch { msg: 3u8 };
    assert_eq!(d.msg, 3);
}

#[test]
fn spawn_manager_records_spawns() {
    let mut m = SpawnManager::new("registry");
    assert!(m.spawned_actors().is_empty());
    m.record_spawn(ActorId { node: NodeId("n".into()), local: 1 });
    m.record_spawn(ActorId { node: NodeId("n".into()), local: 2 });
    assert_eq!(m.spawned_actors().len(), 2);
    assert_eq!(m.spawned_actors()[1].local, 2);
    assert_eq!(*m.type_registry(), "registry");
}

#[test]
fn rejected_asks_get_errors() {
    use_rejection_error();
}

fn use_rejection_error() {
    let r = dactor::dispatch::rejection_error(dactor::interceptor::Disposition::Reject("full".into()), "limiter");
    match r {
        Some(dactor::errors::RuntimeError::Rejected { interceptor, reason }) => {
            assert_eq!(interceptor, "limiter");
            assert_eq!(reason, "full");
        }
        other => panic!("unexpected {:?}", other),
    }
    let r = dactor::dispatch::rejection_error(dactor::interceptor::Disposition::Retry(Duration::from_millis(5)), "limiter");
    assert!(matches!(r, Some(dactor::errors::RuntimeError::RetryAfter { retry_after, .. }) if retry_after == Duration::from_millis(5)));
    let r = dactor::dispatch::rejection_error(dactor::interceptor::Disposition::Drop, "auth");
    match r {
        Some(dactor::errors::RuntimeError::ActorNotFound(m)) => assert_eq!(m, "dropped by interceptor 'auth'"),
        other => panic!("unexpected {:?}", other),
    }
    assert!(dactor::dispatch::rejection_error(dactor::interceptor::Disposition::Continue, "x").is_none());
    assert!(dactor::dispatch::rejection_error(dactor::interceptor::Disposition::Delay(Duration::from_millis(1)), "x").is_none());
}

#[test]
fn ask_reply_from_channel() {
    assert_eq!(dactor::dispatch::reply_from_channel::<u8>(Some(Ok(4))).unwrap(), 4);
    assert!(matches!(
        dactor::dispatch::reply_from_channel::<u8>(Some(Err(dactor::errors::RuntimeError::Timeout))),
        Err(dactor::errors::RuntimeError::Timeout)
    ));
    match dactor::dispatch::reply_from_channel::<u8>(None) {
        Err(dactor::errors::RuntimeError::ActorNotFound(m)) => assert!(m.starts_with("reply channel closed")),
        other => panic!("unexpected {:?}", other),
    }
}

#[test]
fn broadcast_ref_membership_and_tell() {
    let mut b = BroadcastRef::new(vec![member(1, 1, true), member(2, 2, true), member(3, 3, false)]);
    assert_eq!(b.len(), 3);
    let empty: BroadcastRef<FakeRef> = BroadcastRef::new(vec![]);
    assert!(empty.is_empty());
    assert_eq!(empty.tell(|_m: &FakeRef| Ok(())).outcomes.len(), 0);
    let r = b.tell(|m: &FakeRef| if m.alive { Ok(()) } else { Err(ActorSendError("stopped".into())) });
    assert_eq!(r.outcomes.len(), 3);
    assert_eq!(r.outcomes[2].actor_id.local, 3);
    assert_eq!(r.succeeded(), 2);
    assert_eq!(r.failed(), 1);
    // Removing the first member moves the last into its place.
    let gone = b.remove(&member(1, 0, true).id).expect("member 1");
    assert_eq!(gone.tag, 1);
    assert_eq!(b.len(), 2);
    assert!(b.remove(&member(9, 0, true).id).is_none());
    b.add(member(4, 4, true));
    let ids: Vec<u64> = b.tell(|_m: &FakeRef| Ok(())).outcomes.iter().map(|o| o.actor_id.local).collect();
    assert_eq!(ids, vec![3, 2, 4]);
}

#[test]
fn pool_ref_routes_round_robin_and_by_key() {
    let mut p = PoolRef::new(vec![member(1, 1, true), member(2, 2, true), member(3, 3, true)], PoolRouting::RoundRobin);
    assert_eq!(p.pool_size(), 3);
    assert_eq!(p.name(), "pool(worker-1)");
    let picks: Vec<u32> = (0..4).map(|_| p.select_worker().tag).collect();
    assert_eq!(picks, vec![1, 2, 3, 1]);
    assert_eq!(p.keyed_worker(7).tag, 2);
    assert_eq!(p.keyed_worker(7).tag, 2);
}
