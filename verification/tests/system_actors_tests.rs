use dactor::node::{ActorId, NodeId};
use dactor::system_actors::{CancelManager, CancelResponse, NodeDirectory, PeerStatus, SpawnResponse, WatchManager, WatchNotification};

fn aid(node: &str, local: u64) -> ActorId {
    ActorId { node: NodeId(node.into()), local }
}

#[test]
fn watch_and_terminate() {
    let mut wm = WatchManager::new();
    let target = aid("n1", 1);
    let watcher = aid("n2", 10);
    wm.watch(target.clone(), watcher.clone());
    assert_eq!(wm.watched_count(), 1);
    assert_eq!(wm.watchers_of(&target).len(), 1);
    let notifications = wm.on_terminated(&target);
    assert_eq!(notifications.len(), 1);
    assert_eq!(notifications[0].terminated, target);
    assert_eq!(notifications[0].watcher, watcher);
    assert_eq!(wm.watched_count(), 0);
}

#[test]
fn watch_multiple_watchers() {
    let mut wm = WatchManager::new();
    let target = aid("n1", 1);
    wm.watch(target.clone(), aid("n2", 10));
    wm.watch(target.clone(), aid("n3", 20));
    assert_eq!(wm.watchers_of(&target).len(), 2);
    let notifications = wm.on_terminated(&target);
    assert_eq!(notifications.len(), 2);
}

#[test]
fn unwatch_removes_subscription() {
    let mut wm = WatchManager::new();
    let target = aid("n1", 1);
    let watcher = aid("n2", 10);
    wm.watch(target.clone(), watcher.clone());
    wm.unwatch(&target, &watcher);
    assert_eq!(wm.watched_count(), 0);
    assert!(wm.on_terminated(&target).is_empty());
}

#[test]
fn terminate_unwatched_actor_returns_empty() {
    let mut wm = WatchManager::new();
    let target = aid("n1", 99);
    let notifications = wm.on_terminated(&target);
    assert!(notifications.is_empty());
}

#[test]
fn cancel_registered_request() {
    let mut cm = CancelManager::new();
    let token = tokio_util::sync::CancellationToken::new();
    let token_check = token.clone();
    cm.register("req-1".into(), token);
    assert_eq!(cm.active_count(), 1);
    let response = cm.cancel("req-1");
    assert!(matches!(response, CancelResponse::Acknowledged));
    assert!(token_check.is_cancelled());
    assert_eq!(cm.active_count(), 0);
}

#[test]
fn cancel_unknown_request_returns_not_found() {
    let mut cm = CancelManager::new();
    let response = cm.cancel("nonexistent");
    assert!(matches!(response, CancelResponse::NotFound { .. }));
}

#[test]
fn remove_cleans_up_token() {
    let mut cm = CancelManager::new();
    let token = tokio_util::sync::CancellationToken::new();
    cm.register("req-1".into(), token);
    assert_eq!(cm.active_count(), 1);
    cm.remove("req-1");
    assert_eq!(cm.active_count(), 0);
}

#[test]
fn add_and_query_peers() {
    let mut dir = NodeDirectory::new();
    dir.add_peer(NodeId("n1".into()), Some("10.0.0.1:4697".into()));
    dir.add_peer(NodeId("n2".into()), None);
    assert_eq!(dir.peer_count(), 2);
    assert!(!dir.is_connected(&NodeId("n1".into())));
    let info = dir.get_peer(&NodeId("n1".into())).unwrap();
    assert_eq!(info.status, PeerStatus::Connecting);
    assert_eq!(info.address.as_deref(), Some("10.0.0.1:4697"));
}

#[test]
fn set_status_and_filter() {
    let mut dir = NodeDirectory::new();
    dir.add_peer(NodeId("n1".into()), None);
    dir.add_peer(NodeId("n2".into()), None);
    dir.add_peer(NodeId("n3".into()), None);
    dir.set_status(&NodeId("n1".into()), PeerStatus::Connected);
    dir.set_status(&NodeId("n2".into()), PeerStatus::Connected);
    dir.set_status(&NodeId("n3".into()), PeerStatus::Unreachable);
    assert_eq!(dir.connected_count(), 2);
    assert!(dir.is_connected(&NodeId("n1".into())));
    assert!(!dir.is_connected(&NodeId("n3".into())));
    assert_eq!(dir.peers_with_status(PeerStatus::Connected).len(), 2);
    assert_eq!(dir.peers_with_status(PeerStatus::Unreachable).len(), 1);
}

#[test]
fn remove_peer() {
    let mut dir = NodeDirectory::new();
    dir.add_peer(NodeId("n1".into()), None);
    assert_eq!(dir.peer_count(), 1);
    dir.remove_peer(&NodeId("n1".into()));
    assert_eq!(dir.peer_count(), 0);
    assert!(dir.get_peer(&NodeId("n1".into())).is_none());
}

#[test]
fn peer_nodes_list() {
    let mut dir = NodeDirectory::new();
    dir.add_peer(NodeId("n1".into()), None);
    dir.add_peer(NodeId("n2".into()), None);
    assert_eq!(dir.peer_nodes().len(), 2);
}

#[test]
fn spawn_response_variants() {
    let success = SpawnResponse::Success { request_id: "r1".into(), actor_id: aid("n1", 42) };
    assert!(matches!(success, SpawnResponse::Success { .. }));
    let failure = SpawnResponse::Failure { request_id: "r2".into(), error: "type not found".into() };
    assert!(matches!(failure, SpawnResponse::Failure { .. }));
}

#[test]
fn watch_notification_fields() {
    let notif = WatchNotification { terminated: aid("n1", 1), watcher: aid("n2", 2) };
    assert_eq!(notif.terminated.local, 1);
    assert_eq!(notif.watcher.local, 2);
}

#[test]
fn peer_status_transitions() {
    let mut dir = NodeDirectory::new();
    let n1 = NodeId("n1".into());
    dir.add_peer(n1.clone(), None);
    assert_eq!(dir.get_peer(&n1).unwrap().status, PeerStatus::Connecting);
    dir.set_status(&n1, PeerStatus::Connected);
    assert_eq!(dir.get_peer(&n1).unwrap().status, PeerStatus::Connected);
    dir.set_status(&n1, PeerStatus::Unreachable);
    assert_eq!(dir.get_peer(&n1).unwrap().status, PeerStatus::Unreachable);
    dir.set_status(&n1, PeerStatus::Disconnected);
    assert_eq!(dir.get_peer(&n1).unwrap().status, PeerStatus::Disconnected);
}

#[test]
fn cancel_not_found_reason_text() {
    let mut cm = CancelManager::new();
    match cm.cancel("r9") {
        CancelResponse::NotFound { reason } => assert_eq!(reason, "no active request with id 'r9'"),
        _ => panic!("expected NotFound"),
    }
}

#[test]
fn watch_same_pair_twice_is_one_subscription() {
    let mut wm = WatchManager::new();
    let target = aid("n1", 1);
    wm.watch(target.clone(), aid("n2", 2));
    wm.watch(target.clone(), aid("n2", 2));
    assert_eq!(wm.watchers_of(&target).len(), 1);
}
