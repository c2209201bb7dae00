//! The inbound side of the wire protocol: resolving a request's string
//! identifiers, finding the addressed local node in the registry, and
//! shaping results and errors for the RPC boundary.
//!
//! The transport adapter around this logic performs the awaited calls;
//! everything it decides — which node answers, what each reply holds,
//! which status class each failure maps to — is verified here.

use crate::convert::ToProto;
use crate::digits::{
    dec_string_fails, dec_string_ok, dec_string_parses_to, parse_u64_dec, u64_dec, push_u64_dec,
    IntParseError,
};
use crate::node::{FindSuccessorResult, NodeError, NodeImpl, StatusCode};
use crate::node_grpc_client::{find_successor_reply_matches, get_predecessor_reply_matches};
use crate::node_info::NodeInfo;
use crate::node_manager::NodeManagerImpl;
use crate::wire::{
    FindSuccessorRequest, FindSuccessorResponse, GetPredecessorResponse, ResponseNode,
};
use vstd::prelude::*;

verus! {

/// Why an inbound request could not be served.
#[derive(Debug)]
pub enum NodeServiceError {
    /// The request addressed a node identifier this process does not
    /// host.
    NodeNotFound(u64),
    /// A request field was not a valid decimal identifier.
    InvalidIdString { id_string: String, source: IntParseError },
    /// The addressed node failed to answer the query.
    NodeError(NodeError),
    Unknown,
}

impl NodeServiceError {
    pub fn node_not_found(id: u64) -> (r: Self)
        ensures
            r == NodeServiceError::NodeNotFound(id),
    {
        NodeServiceError::NodeNotFound(id)
    }

    pub fn invalid_id_string(id: String, source: IntParseError) -> (r: Self)
        ensures
            r == (NodeServiceError::InvalidIdString { id_string: id, source }),
    {
        NodeServiceError::InvalidIdString { id_string: id, source }
    }

    pub fn unknown() -> (r: Self)
        ensures
            r == NodeServiceError::Unknown,
    {
        NodeServiceError::Unknown
    }

    /// The status class each service error reports: an unknown node is
    /// NotFound, a malformed identifier InvalidArgument, a node failure
    /// its own class, anything else Unknown.
    pub open spec fn spec_status_code(&self) -> StatusCode {
        match self {
            NodeServiceError::NodeNotFound(_) => StatusCode::NotFound,
            NodeServiceError::InvalidIdString { .. } => StatusCode::InvalidArgument,
            NodeServiceError::NodeError(e) => e.spec_get_code(),
            NodeServiceError::Unknown => StatusCode::Unknown,
        }
    }

    pub fn status_code(&self) -> (c: StatusCode)
        ensures
            c == self.spec_status_code(),
    {
        match self {
            NodeServiceError::NodeNotFound(_) => StatusCode::NotFound,
            NodeServiceError::InvalidIdString { .. } => StatusCode::InvalidArgument,
            NodeServiceError::NodeError(e) => e.get_code(),
            NodeServiceError::Unknown => StatusCode::Unknown,
        }
    }

    /// The human-readable text of each error, except that a transport
    /// status keeps its own text, which this library does not model.
    pub open spec fn spec_message(&self) -> Seq<char> {
        match self {
            NodeServiceError::NodeNotFound(id) => "node not found: "@ + u64_dec(*id as nat),
            NodeServiceError::InvalidIdString { id_string, .. } => "invalid id string: "@
                + id_string@,
            NodeServiceError::NodeError(e) => match e {
                NodeError::InvalidResponse(_) => "invalid response from node"@,
                NodeError::StatusError(_) => Seq::empty(),
                NodeError::ConversionError(_) => "conversion failed"@,
                NodeError::NoViableCandidate => "no viable candidate"@,
                NodeError::Unknown => "unknown error"@,
            },
            NodeServiceError::Unknown => "unknown error"@,
        }
    }

    /// The message a status carries for this error.
    pub fn message(&self) -> (m: String)
        ensures
            match self {
                NodeServiceError::NodeError(e) => e is StatusError || m@ == self.spec_message(),
                _ => m@ == self.spec_message(),
            },
    {
        match self {
            NodeServiceError::NodeNotFound(id) => {
                let mut m = String::from_str("node not found: ");
                push_u64_dec(*id, &mut m);
                m
            },
            NodeServiceError::InvalidIdString { id_string, .. } => {
                let mut m = String::from_str("invalid id string: ");
                m.append(id_string.as_str());
                m
            },
            NodeServiceError::NodeError(e) => match e {
                NodeError::InvalidResponse(_) => String::from_str("invalid response from node"),
                NodeError::StatusError(_) => String::from_str("peer call failed"),
                NodeError::ConversionError(_) => String::from_str("conversion failed"),
                NodeError::NoViableCandidate => String::from_str("no viable candidate"),
                NodeError::Unknown => String::from_str("unknown error"),
            },
            NodeServiceError::Unknown => String::from_str("unknown error"),
        }
    }
}

/// Parse a wire identifier: exactly the non-empty decimal numerals that
/// fit a `u64` are accepted; anything else is refused as
/// `InvalidIdString` carrying the offending text and the reason.
pub fn id_from_string(id: &str) -> (r: Result<u64, NodeServiceError>)
    ensures
        match r {
            Ok(v) => dec_string_parses_to(id@, v),
            Err(NodeServiceError::InvalidIdString { id_string, source }) => id_string@ == id@
                && dec_string_fails(id@, source),
            Err(_) => false,
        },
{
    match parse_u64_dec(id) {
        Ok(v) => Ok(v),
        Err(e) => Err(NodeServiceError::invalid_id_string(id.to_owned(), e)),
    }
}

/// The hosted node registered under `id`, or `NodeNotFound`.
pub fn find_node<'a>(manager: &'a NodeManagerImpl, id: u64) -> (r: Result<
    &'a NodeImpl,
    NodeServiceError,
>)
    ensures
        match r {
            Ok(node) => manager.spec_nodes().contains_key(id) && *node == manager.spec_nodes()[id],
            Err(NodeServiceError::NodeNotFound(missing)) => missing == id
                && !manager.spec_nodes().contains_key(id),
            Err(_) => false,
        },
{
    match manager.get_node(id) {
        Some(node) => Ok(node),
        None => Err(NodeServiceError::node_not_found(id)),
    }
}

/// Resolve a wire identifier to the hosted node it addresses: refused as
/// `InvalidIdString` when the text is no identifier, as `NodeNotFound`
/// when no local node carries it.
pub fn find_node_by_id_string<'a>(manager: &'a NodeManagerImpl, id: &str) -> (r: Result<
    &'a NodeImpl,
    NodeServiceError,
>)
    ensures
        match r {
            Ok(node) => {
                &&& dec_string_ok(id@)
                &&& manager.spec_nodes().contains_key(dec_seq_value_u64(id@))
                &&& *node == manager.spec_nodes()[dec_seq_value_u64(id@)]
            },
            Err(NodeServiceError::InvalidIdString { id_string, source }) => id_string@ == id@
                && dec_string_fails(id@, source),
            Err(NodeServiceError::NodeNotFound(missing)) => dec_string_parses_to(id@, missing)
                && !manager.spec_nodes().contains_key(missing),
            Err(_) => false,
        },
{
    let parsed = id_from_string(id)?;
    find_node(manager, parsed)
}

/// The value of a decimal identifier text, as the key type of the
/// registry.
pub open spec fn dec_seq_value_u64(s: Seq<char>) -> u64 {
    crate::digits::dec_seq_value(s) as u64
}

/// The identifiers a `find_successor` request carries: the addressed
/// node first, the queried ring identifier second. The first malformed
/// field is refused.
pub fn parse_find_successor_request(req: &FindSuccessorRequest) -> (r: Result<
    (u64, u64),
    NodeServiceError,
>)
    ensures
        match r {
            Ok((node_id, target)) => dec_string_parses_to(req.node_id@, node_id)
                && dec_string_parses_to(req.id@, target),
            Err(NodeServiceError::InvalidIdString { id_string, source }) => (id_string@
                == req.node_id@ && dec_string_fails(req.node_id@, source)) || (dec_string_ok(
                req.node_id@,
            ) && id_string@ == req.id@ && dec_string_fails(req.id@, source)),
            Err(_) => false,
        },
{
    let node_id = id_from_string(req.node_id.as_str())?;
    let target = id_from_string(req.id.as_str())?;
    Ok((node_id, target))
}

/// What the wire response to a successful `find_successor` holds: the
/// result's peer converted to its wire form, under the result's own
/// variant.
pub open spec fn find_successor_response_matches(
    result: FindSuccessorResult,
    resp: FindSuccessorResponse,
) -> bool {
    match result {
        FindSuccessorResult::Successor(info) => match resp.node {
            Some(ResponseNode::Successor(msg)) => info.proto_matches(&msg),
            _ => false,
        },
        FindSuccessorResult::ClosestPrecedingNode(info) => match resp.node {
            Some(ResponseNode::ClosestPrecedingNode(msg)) => info.proto_matches(&msg),
            _ => false,
        },
    }
}

/// Shape a `find_successor` result for the wire.
pub fn build_find_successor_response(result: &FindSuccessorResult) -> (resp:
    FindSuccessorResponse)
    ensures
        find_successor_response_matches(*result, resp),
{
    match result {
        FindSuccessorResult::Successor(info) => FindSuccessorResponse {
            node: Some(ResponseNode::Successor(info.to_proto())),
        },
        FindSuccessorResult::ClosestPrecedingNode(info) => FindSuccessorResponse {
            node: Some(ResponseNode::ClosestPrecedingNode(info.to_proto())),
        },
    }
}

/// What the wire response to a successful `get_predecessor` holds.
pub open spec fn get_predecessor_response_matches(
    info: NodeInfo,
    resp: GetPredecessorResponse,
) -> bool {
    match resp.node {
        Some(msg) => info.proto_matches(&msg),
        None => false,
    }
}

/// Shape a `get_predecessor` result for the wire.
pub fn build_get_predecessor_response(info: &NodeInfo) -> (resp: GetPredecessorResponse)
    ensures
        get_predecessor_response_matches(*info, resp),
{
    GetPredecessorResponse { node: Some(info.to_proto()) }
}

/// Wire round trip of a lookup answer: what the service sends for a
/// result, the peer-side reader reads back as exactly that result.
pub proof fn lemma_find_successor_wire_round_trip(
    result: FindSuccessorResult,
    resp: FindSuccessorResponse,
    peer_id: u64,
)
    requires
        find_successor_response_matches(result, resp),
    ensures
        find_successor_reply_matches(
            peer_id,
            resp,
            Ok::<FindSuccessorResult, NodeError>(result),
        ),
{
    match result {
        FindSuccessorResult::Successor(info) => {
            if let Some(ResponseNode::Successor(msg)) = resp.node {
                crate::convert::lemma_node_info_round_trip(info, msg);
            }
        },
        FindSuccessorResult::ClosestPrecedingNode(info) => {
            if let Some(ResponseNode::ClosestPrecedingNode(msg)) = resp.node {
                crate::convert::lemma_node_info_round_trip(info, msg);
            }
        },
    }
}

/// Wire round trip of a predecessor answer.
pub proof fn lemma_get_predecessor_wire_round_trip(
    info: NodeInfo,
    resp: GetPredecessorResponse,
    peer_id: u64,
)
    requires
        get_predecessor_response_matches(info, resp),
    ensures
        get_predecessor_reply_matches(peer_id, resp, Ok::<NodeInfo, NodeError>(info)),
{
    if let Some(msg) = resp.node {
        crate::convert::lemma_node_info_round_trip(info, msg);
    }
}

} // verus!
