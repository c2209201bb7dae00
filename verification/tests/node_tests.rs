use chord::addr::IpAddress;
use chord::finger_table::{FingerTable, FingerTableEntry};
use chord::liveness::NodeStatus;
use chord::node::{
    FindSuccessorParameters, FindSuccessorResult, LookupStep, NodeError, NodeImpl, StatusCode,
};
use chord::node_info::NodeInfo;

fn info(id: u64) -> NodeInfo {
    NodeInfo { id, address: IpAddress::V4(10, 0, 0, 1), port: 4000 }
}

fn entry(id: u64) -> FingerTableEntry {
    FingerTableEntry { node_info: info(id) }
}

fn params(id: u64) -> FindSuccessorParameters {
    FindSuccessorParameters { id, iterate: false }
}

#[test]
fn covering_alive_successor_answers_at_once() {
    // Node 10, successor list [20], target 15: 15 lies in (10, 20], so
    // the alive successor answers the query.
    let mut node = NodeImpl::new(10);
    node.finger_table.set_successors(vec![entry(20)]);
    let p = params(15);
    match node.find_successor_begin(&p) {
        LookupStep::Probe { peer, cursor } => {
            assert_eq!(peer, info(20));
            assert_eq!(cursor, 0);
        },
        LookupStep::Done(_) => panic!("expected a probe of the successor"),
    }
    match node.find_successor_step(&p, 0, NodeStatus::Alive) {
        LookupStep::Done(Ok(FindSuccessorResult::Successor(peer))) => assert_eq!(peer, info(20)),
        _ => panic!("expected the successor"),
    }
}

#[test]
fn dead_successor_without_fingers_fails_the_lookup() {
    let mut node = NodeImpl::new(10);
    node.finger_table.set_successors(vec![entry(20)]);
    let p = params(15);
    match node.find_successor_step(&p, 0, NodeStatus::Dead) {
        LookupStep::Done(Err(NodeError::NoViableCandidate)) => {},
        _ => panic!("expected no viable candidate"),
    }
}

#[test]
fn dead_successor_falls_back_to_the_next_list_entry() {
    let mut node = NodeImpl::new(10);
    node.finger_table.set_successors(vec![entry(20), entry(30)]);
    let p = params(15);
    // Both successors cover 15; the dead first one is skipped.
    match node.find_successor_step(&p, 0, NodeStatus::Dead) {
        LookupStep::Probe { peer, cursor } => {
            assert_eq!(peer, info(30));
            assert_eq!(cursor, 1);
        },
        LookupStep::Done(_) => panic!("expected the next successor to be probed"),
    }
    match node.find_successor_step(&p, 1, NodeStatus::Alive) {
        LookupStep::Done(Ok(FindSuccessorResult::Successor(peer))) => assert_eq!(peer, info(30)),
        _ => panic!("expected the second successor"),
    }
}

#[test]
fn uncovered_target_walks_the_fingers_farthest_first() {
    // Node 10, successor 20, target 25: no successor covers 25, so the
    // walk scans finger slots from the farthest down, taking entries
    // preceding 25 on the ring.
    let mut node = NodeImpl::new(10);
    let mut table = FingerTable::new(4);
    table.set_successors(vec![entry(20)]);
    table.set_entry(1, Some(entry(12)));
    table.set_entry(3, Some(entry(24)));
    node.finger_table = table;
    let p = params(25);
    match node.find_successor_begin(&p) {
        LookupStep::Probe { peer, cursor } => {
            assert_eq!(peer, info(24));
            assert_eq!(cursor, 0);
        },
        LookupStep::Done(_) => panic!("expected the farthest finger first"),
    }
    match node.find_successor_step(&p, 0, NodeStatus::Alive) {
        LookupStep::Done(Ok(FindSuccessorResult::ClosestPrecedingNode(peer))) => {
            assert_eq!(peer, info(24))
        },
        _ => panic!("expected the closest preceding node"),
    }
    // Dead farthest finger: the nearer one is next.
    match node.find_successor_step(&p, 0, NodeStatus::Dead) {
        LookupStep::Probe { peer, cursor } => {
            assert_eq!(peer, info(12));
            assert_eq!(cursor, 1);
        },
        LookupStep::Done(_) => panic!("expected the nearer finger next"),
    }
}

#[test]
fn empty_table_fails_immediately() {
    let node = NodeImpl::new(10);
    match node.find_successor_begin(&params(15)) {
        LookupStep::Done(Err(NodeError::NoViableCandidate)) => {},
        _ => panic!("expected no viable candidate"),
    }
    match node.get_predecessor_begin() {
        LookupStep::Done(Err(NodeError::NoViableCandidate)) => {},
        _ => panic!("expected no viable candidate"),
    }
}

#[test]
fn first_alive_predecessor_answers() {
    // Predecessor list [5 (dead), 3 (alive)]: the walk skips the dead
    // one and returns node 3.
    let mut node = NodeImpl::new(10);
    node.finger_table.set_predecessors(vec![entry(5), entry(3)]);
    match node.get_predecessor_begin() {
        LookupStep::Probe { peer, cursor } => {
            assert_eq!(peer, info(5));
            assert_eq!(cursor, 0);
        },
        LookupStep::Done(_) => panic!("expected the closest predecessor first"),
    }
    match node.get_predecessor_step(0, NodeStatus::Dead) {
        LookupStep::Probe { peer, cursor } => {
            assert_eq!(peer, info(3));
            assert_eq!(cursor, 1);
        },
        LookupStep::Done(_) => panic!("expected the next predecessor"),
    }
    match node.get_predecessor_step(1, NodeStatus::Alive) {
        LookupStep::Done(Ok(peer)) => assert_eq!(peer, info(3)),
        _ => panic!("expected predecessor 3"),
    }
}

#[test]
fn all_dead_predecessors_fail_without_finger_fallback() {
    let mut node = NodeImpl::new(10);
    node.finger_table.set_predecessors(vec![entry(5), entry(3)]);
    // Fingers would be available, but the predecessor walk ignores them.
    node.finger_table.set_successors(vec![entry(20)]);
    match node.get_predecessor_step(1, NodeStatus::Dead) {
        LookupStep::Done(Err(NodeError::NoViableCandidate)) => {},
        _ => panic!("expected no viable candidate"),
    }
}

#[test]
fn node_error_status_classes() {
    assert_eq!(NodeError::invalid_response(5).get_code(), StatusCode::InvalidArgument);
    assert_eq!(
        NodeError::status_error(tonic::Status::internal("boom")).get_code(),
        StatusCode::Internal
    );
    assert_eq!(
        NodeError::ConversionError(chord::convert::ConversionError::AddrParseError).get_code(),
        StatusCode::Internal
    );
    assert_eq!(NodeError::NoViableCandidate.get_code(), StatusCode::Unknown);
    assert_eq!(NodeError::unknown().get_code(), StatusCode::Unknown);
}

#[test]
fn new_node_has_ring_sized_empty_finger_array() {
    let node = NodeImpl::new(77);
    assert_eq!(node.id(), 77);
    assert!(node.finger_table.get_successors().is_empty());
    assert!(node.finger_table.get_predecessors().is_empty());
    // One finger slot per bit of the 64-bit ring, all initially empty.
    assert_eq!(node.finger_table.get_entries().len(), 64);
    assert!(node.finger_table.get_entries().iter().all(|slot| slot.is_none()));
    assert_eq!(node.node_statuses.len(), 0);
}

#[test]
fn wrapping_interval_routes_across_the_top_of_the_ring() {
    // Node near the top of the identifier space: its successor interval
    // wraps, so a small target is still covered.
    let mut node = NodeImpl::new(u64::MAX - 10);
    node.finger_table.set_successors(vec![entry(5)]);
    let p = params(2);
    match node.find_successor_begin(&p) {
        LookupStep::Probe { peer, .. } => assert_eq!(peer, info(5)),
        LookupStep::Done(_) => panic!("expected the wrapping successor to cover the target"),
    }
}
