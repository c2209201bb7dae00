use chord::addr::IpAddress;
use chord::digits::IntParseError;
use chord::node::{FindSuccessorResult, NodeError, NodeImpl, StatusCode};
use chord::node_grpc_client::{read_find_successor_response, read_get_predecessor_response};
use chord::node_grpc_service::{
    build_find_successor_response, build_get_predecessor_response, find_node,
    find_node_by_id_string, id_from_string, parse_find_successor_request, NodeServiceError,
};
use chord::node_manager::NodeManagerImpl;
use chord::node_info::NodeInfo;
use chord::wire::{FindSuccessorRequest, FindSuccessorResponse, NodeInfoMsg, ResponseNode};
use std::collections::HashMap;

fn info(id: u64) -> NodeInfo {
    NodeInfo { id, address: IpAddress::V4(10, 0, 0, 1), port: 4000 }
}

fn registry() -> NodeManagerImpl {
    let mut manager = NodeManagerImpl::new();
    let mut nodes = HashMap::new();
    nodes.insert(1, NodeImpl::new(1));
    nodes.insert(2, NodeImpl::new(2));
    manager.initialize(nodes);
    manager
}

#[test]
fn id_from_string_accepts_identifiers() {
    assert!(matches!(id_from_string("42"), Ok(42)));
    assert!(matches!(id_from_string("0"), Ok(0)));
    assert!(matches!(id_from_string("18446744073709551615"), Ok(u64::MAX)));
}

#[test]
fn id_from_string_names_the_offending_text() {
    match id_from_string("abc") {
        Err(NodeServiceError::InvalidIdString { id_string, source }) => {
            assert_eq!(id_string, "abc");
            assert_eq!(source, IntParseError::InvalidDigit);
        },
        _ => panic!("expected an invalid id string"),
    }
    match id_from_string("") {
        Err(NodeServiceError::InvalidIdString { source, .. }) => {
            assert_eq!(source, IntParseError::Empty)
        },
        _ => panic!("expected an invalid id string"),
    }
    match id_from_string("18446744073709551616") {
        Err(NodeServiceError::InvalidIdString { source, .. }) => {
            assert_eq!(source, IntParseError::Overflow)
        },
        _ => panic!("expected an invalid id string"),
    }
}

#[test]
fn find_node_resolves_hosted_identifiers() {
    let manager = registry();
    assert!(matches!(find_node(&manager, 1).map(|n| n.id()), Ok(1)));
    match find_node(&manager, 9) {
        Err(NodeServiceError::NodeNotFound(9)) => {},
        _ => panic!("expected node not found"),
    }
}

#[test]
fn find_node_by_id_string_combines_both_refusals() {
    let manager = registry();
    assert!(matches!(find_node_by_id_string(&manager, "2").map(|n| n.id()), Ok(2)));
    assert!(matches!(
        find_node_by_id_string(&manager, "9"),
        Err(NodeServiceError::NodeNotFound(9))
    ));
    assert!(matches!(
        find_node_by_id_string(&manager, "2x"),
        Err(NodeServiceError::InvalidIdString { .. })
    ));
}

#[test]
fn find_successor_request_parses_both_fields_in_order() {
    let req = FindSuccessorRequest { node_id: "1".into(), id: "15".into() };
    assert!(matches!(parse_find_successor_request(&req), Ok((1, 15))));

    let req = FindSuccessorRequest { node_id: "x".into(), id: "15".into() };
    match parse_find_successor_request(&req) {
        Err(NodeServiceError::InvalidIdString { id_string, .. }) => assert_eq!(id_string, "x"),
        _ => panic!("expected the node id to be refused"),
    }

    let req = FindSuccessorRequest { node_id: "1".into(), id: "y".into() };
    match parse_find_successor_request(&req) {
        Err(NodeServiceError::InvalidIdString { id_string, .. }) => assert_eq!(id_string, "y"),
        _ => panic!("expected the target id to be refused"),
    }
}

#[test]
fn responses_carry_the_result_under_its_own_variant() {
    let resp = build_find_successor_response(&FindSuccessorResult::Successor(info(20)));
    match resp.node {
        Some(ResponseNode::Successor(msg)) => {
            assert_eq!(msg.id, "20");
            assert_eq!(msg.ip, "10.0.0.1");
            assert_eq!(msg.port, 4000);
        },
        _ => panic!("expected a successor payload"),
    }

    let resp =
        build_find_successor_response(&FindSuccessorResult::ClosestPrecedingNode(info(24)));
    assert!(matches!(resp.node, Some(ResponseNode::ClosestPrecedingNode(_))));

    let resp = build_get_predecessor_response(&info(3));
    assert_eq!(resp.node.map(|m| m.id), Some("3".to_string()));
}

#[test]
fn wire_round_trip_of_lookup_answers() {
    for result in [
        FindSuccessorResult::Successor(info(20)),
        FindSuccessorResult::ClosestPrecedingNode(info(24)),
    ] {
        let resp = build_find_successor_response(&result);
        match read_find_successor_response(7, &resp) {
            Ok(read_back) => assert_eq!(read_back, result),
            Err(_) => panic!("expected the reply to read back"),
        }
    }
    let resp = build_get_predecessor_response(&info(3));
    match read_get_predecessor_response(7, &resp) {
        Ok(read_back) => assert_eq!(read_back, info(3)),
        Err(_) => panic!("expected the reply to read back"),
    }
}

#[test]
fn missing_reply_payload_is_the_peers_fault() {
    let resp = FindSuccessorResponse { node: None };
    match read_find_successor_response(7, &resp) {
        Err(NodeError::InvalidResponse(7)) => {},
        _ => panic!("expected an invalid response error"),
    }
}

#[test]
fn unreadable_reply_payload_is_a_conversion_error() {
    let msg = NodeInfoMsg { id: "not-a-number".into(), ip: "10.0.0.1".into(), port: 1 };
    let resp = FindSuccessorResponse { node: Some(ResponseNode::Successor(msg)) };
    assert!(matches!(
        read_find_successor_response(7, &resp),
        Err(NodeError::ConversionError(_))
    ));
}

#[test]
fn service_errors_map_to_their_status_classes() {
    assert_eq!(NodeServiceError::node_not_found(9).status_code(), StatusCode::NotFound);
    assert_eq!(
        NodeServiceError::invalid_id_string("x".into(), IntParseError::InvalidDigit)
            .status_code(),
        StatusCode::InvalidArgument
    );
    assert_eq!(
        NodeServiceError::NodeError(NodeError::NoViableCandidate).status_code(),
        StatusCode::Unknown
    );
    assert_eq!(
        NodeServiceError::NodeError(NodeError::invalid_response(1)).status_code(),
        StatusCode::InvalidArgument
    );
    assert_eq!(
        NodeServiceError::NodeError(NodeError::status_error(tonic::Status::unavailable("x")))
            .status_code(),
        StatusCode::Internal
    );
    assert_eq!(NodeServiceError::unknown().status_code(), StatusCode::Unknown);
}

#[test]
fn service_error_messages() {
    assert_eq!(NodeServiceError::node_not_found(9).message(), "node not found: 9");
    assert_eq!(
        NodeServiceError::invalid_id_string("zz".into(), IntParseError::InvalidDigit).message(),
        "invalid id string: zz"
    );
    assert_eq!(
        NodeServiceError::NodeError(NodeError::NoViableCandidate).message(),
        "no viable candidate"
    );
    assert_eq!(NodeServiceError::unknown().message(), "unknown error");
}
