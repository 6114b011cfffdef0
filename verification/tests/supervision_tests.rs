use dactor::actor::ActorError;
use dactor::node::{ActorId, NodeId};
use dactor::supervision::{AllForOne, OneForOne, RestForOne, SupervisionAction, SupervisionStrategy};
use std::time::Duration;

fn test_id(local: u64) -> ActorId {
    ActorId { node: NodeId("test".into()), local }
}

fn test_error() -> ActorError {
    ActorError::internal("test failure")
}

#[test]
fn one_for_one_returns_restart() {
    let mut strategy = OneForOne::new(5, Duration::from_secs(60));
    let id = test_id(1);
    let action = strategy.on_child_failed(&id, "child-1", &test_error());
    assert_eq!(action, SupervisionAction::Restart);
}

#[test]
fn one_for_one_max_exceeded_returns_stop() {
    let mut strategy = OneForOne::new(3, Duration::from_secs(60));
    let id = test_id(1);
    for _ in 0..3 {
        assert_eq!(strategy.on_child_failed(&id, "child-1", &test_error()), SupervisionAction::Restart);
    }
    assert_eq!(strategy.on_child_failed(&id, "child-1", &test_error()), SupervisionAction::Stop);
}

#[test]
fn one_for_one_tracks_per_child() {
    let mut strategy = OneForOne::new(2, Duration::from_secs(60));
    let id1 = test_id(1);
    let id2 = test_id(2);
    assert_eq!(strategy.on_child_failed(&id1, "a", &test_error()), SupervisionAction::Restart);
    assert_eq!(strategy.on_child_failed(&id1, "a", &test_error()), SupervisionAction::Restart);
    assert_eq!(strategy.on_child_failed(&id1, "a", &test_error()), SupervisionAction::Stop);
    assert_eq!(strategy.on_child_failed(&id2, "b", &test_error()), SupervisionAction::Restart);
}

#[test]
fn all_for_one_returns_restart() {
    let mut strategy = AllForOne::new(5, Duration::from_secs(60));
    let id = test_id(1);
    assert_eq!(strategy.on_child_failed(&id, "child-1", &test_error()), SupervisionAction::Restart);
}

#[test]
fn all_for_one_max_exceeded_returns_stop() {
    let mut strategy = AllForOne::new(2, Duration::from_secs(60));
    let id = test_id(1);
    for _ in 0..2 {
        assert_eq!(strategy.on_child_failed(&id, "child-1", &test_error()), SupervisionAction::Restart);
    }
    assert_eq!(strategy.on_child_failed(&id, "child-1", &test_error()), SupervisionAction::Stop);
}

#[test]
fn rest_for_one_returns_restart() {
    let mut strategy = RestForOne::new(5, Duration::from_secs(60));
    let id = test_id(1);
    strategy.register_child(id.clone());
    assert_eq!(strategy.on_child_failed(&id, "child-1", &test_error()), SupervisionAction::Restart);
}

#[test]
fn rest_for_one_children_to_restart() {
    let mut strategy = RestForOne::new(5, Duration::from_secs(60));
    let id1 = test_id(1);
    let id2 = test_id(2);
    let id3 = test_id(3);
    strategy.register_child(id1.clone());
    strategy.register_child(id2.clone());
    strategy.register_child(id3.clone());
    assert_eq!(strategy.children_to_restart(&id2), vec![id2.clone(), id3.clone()]);
    assert_eq!(strategy.children_to_restart(&id1), vec![id1.clone(), id2.clone(), id3.clone()]);
    assert_eq!(strategy.children_to_restart(&id3), vec![id3.clone()]);
}

#[test]
fn rest_for_one_max_exceeded_returns_stop() {
    let mut strategy = RestForOne::new(2, Duration::from_secs(60));
    let id = test_id(1);
    strategy.register_child(id.clone());
    for _ in 0..2 {
        assert_eq!(strategy.on_child_failed(&id, "child-1", &test_error()), SupervisionAction::Restart);
    }
    assert_eq!(strategy.on_child_failed(&id, "child-1", &test_error()), SupervisionAction::Stop);
}

#[test]
fn restarts_outside_window_do_not_count() {
    let mut strategy = OneForOne::new(1, Duration::from_millis(1));
    let id = test_id(1);
    assert_eq!(strategy.on_child_failed_at(&id, 0), SupervisionAction::Restart);
    assert_eq!(strategy.on_child_failed_at(&id, 10), SupervisionAction::Stop);
    assert_eq!(strategy.on_child_failed_at(&id, 5_000_000), SupervisionAction::Restart);
}

#[test]
fn unknown_child_restarts_itself() {
    let mut strategy = RestForOne::new(2, Duration::from_secs(60));
    strategy.register_child(test_id(1));
    assert_eq!(strategy.children_to_restart(&test_id(9)), vec![test_id(9)]);
}
