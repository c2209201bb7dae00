use chord::addr::IpAddress;
use chord::liveness::{CheckPlan, LivenessCache, NodeStatus};
use chord::node_info::NodeInfo;

fn peer(id: u64) -> NodeInfo {
    NodeInfo { id, address: IpAddress::V4(10, 0, 0, id as u8), port: 4000 }
}

#[test]
fn concurrent_checks_trigger_exactly_one_probe() {
    // One unresolved peer, several callers: the first check starts the
    // one probe, every further check before completion subscribes.
    let mut cache = LivenessCache::new(4, 1000);
    let p = peer(1);
    assert!(matches!(cache.begin_check(&p, 100), CheckPlan::StartProbe(_)));
    for _ in 0..3 {
        assert!(matches!(cache.begin_check(&p, 110), CheckPlan::AwaitInFlight(_)));
    }
    cache.complete_probe(&p, NodeStatus::Alive, 150);
    // All callers observe the one stored outcome.
    match cache.begin_check(&p, 200) {
        CheckPlan::Hit(status) => assert_eq!(status, NodeStatus::Alive),
        _ => panic!("expected a cache hit"),
    }
    assert_eq!(cache.len(), 1);
}

#[test]
fn stored_outcome_expires_after_its_ttl() {
    let mut cache = LivenessCache::new(4, 1000);
    let p = peer(1);
    assert!(matches!(cache.begin_check(&p, 0), CheckPlan::StartProbe(_)));
    cache.complete_probe(&p, NodeStatus::Dead, 150);
    // Still valid strictly before stored_at + ttl.
    assert!(matches!(cache.begin_check(&p, 1149), CheckPlan::Hit(NodeStatus::Dead)));
    // At or after expiry a second probe must start.
    assert!(matches!(cache.begin_check(&p, 1150), CheckPlan::StartProbe(_)));
}

#[test]
fn distinct_peers_probe_independently() {
    let mut cache = LivenessCache::new(4, 1000);
    assert!(matches!(cache.begin_check(&peer(1), 0), CheckPlan::StartProbe(_)));
    assert!(matches!(cache.begin_check(&peer(2), 0), CheckPlan::StartProbe(_)));
    cache.complete_probe(&peer(1), NodeStatus::Alive, 10);
    cache.complete_probe(&peer(2), NodeStatus::Dead, 10);
    assert!(matches!(cache.begin_check(&peer(1), 20), CheckPlan::Hit(NodeStatus::Alive)));
    assert!(matches!(cache.begin_check(&peer(2), 20), CheckPlan::Hit(NodeStatus::Dead)));
    assert_eq!(cache.len(), 2);
}

#[test]
fn full_cache_evicts_least_recently_used() {
    let mut cache = LivenessCache::new(1, 1000);
    assert!(matches!(cache.begin_check(&peer(1), 0), CheckPlan::StartProbe(_)));
    cache.complete_probe(&peer(1), NodeStatus::Alive, 0);
    assert_eq!(cache.len(), 1);
    // A second peer displaces the first.
    assert!(matches!(cache.begin_check(&peer(2), 10), CheckPlan::StartProbe(_)));
    assert_eq!(cache.len(), 1);
    // The displaced peer is unknown again: a fresh probe starts even
    // though its old outcome would still have been valid.
    assert!(matches!(cache.begin_check(&peer(1), 20), CheckPlan::StartProbe(_)));
}

#[test]
fn completion_after_eviction_stores_the_outcome_anew() {
    let mut cache = LivenessCache::new(1, 1000);
    assert!(matches!(cache.begin_check(&peer(1), 0), CheckPlan::StartProbe(_)));
    // The pending entry is displaced before the probe completes.
    assert!(matches!(cache.begin_check(&peer(2), 0), CheckPlan::StartProbe(_)));
    cache.complete_probe(&peer(1), NodeStatus::Alive, 5);
    assert!(matches!(cache.begin_check(&peer(1), 10), CheckPlan::Hit(NodeStatus::Alive)));
}

#[test]
fn abandoned_probe_is_replaced_only_while_pending() {
    let mut cache = LivenessCache::new(4, 1000);
    let p = peer(1);
    // No entry: nothing to replace.
    assert!(cache.reset_abandoned_probe(&p).is_none());
    // Pending entry: a fresh probe is handed out, and later callers
    // still subscribe rather than starting their own.
    assert!(matches!(cache.begin_check(&p, 0), CheckPlan::StartProbe(_)));
    assert!(cache.reset_abandoned_probe(&p).is_some());
    assert!(matches!(cache.begin_check(&p, 1), CheckPlan::AwaitInFlight(_)));
    // Resolved entry: nothing to replace.
    cache.complete_probe(&p, NodeStatus::Alive, 2);
    assert!(cache.reset_abandoned_probe(&p).is_none());
    assert!(matches!(cache.begin_check(&p, 3), CheckPlan::Hit(NodeStatus::Alive)));
}
