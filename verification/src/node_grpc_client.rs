//! The outbound side of the wire protocol: what a call to a remote peer
//! sends, and how its reply is read back into domain values.
//!
//! The transport itself is asynchronous I/O and lives outside this
//! library; here a client is its peer record and pooled transport,
//! together with the verified assembly of requests and reading of
//! replies. The reader accepts any reply value and states the outcome
//! for each.

use crate::convert::{ConversionError, TryToDomain};
use crate::digits::{u64_dec, u64_to_dec_string};
use crate::node::{FindSuccessorResult, NodeError};
use crate::node_info::NodeInfo;
use crate::wire::{
    FindSuccessorRequest, FindSuccessorResponse, GetPredecessorRequest, GetPredecessorResponse,
    ResponseNode,
};
use vstd::prelude::*;

verus! {

/// A handle on one remote peer: its record and its pooled transport.
pub struct NodeGrpcClient {
    node_info: NodeInfo,
    channel: tonic::transport::Channel,
}

impl NodeGrpcClient {
    pub closed spec fn spec_node_info(&self) -> NodeInfo {
        self.node_info
    }

    pub closed spec fn spec_channel(&self) -> tonic::transport::Channel {
        self.channel
    }

    pub fn new(node_info: NodeInfo, channel: tonic::transport::Channel) -> (r: Self)
        ensures
            r.spec_node_info() == node_info,
            r.spec_channel() == channel,
    {
        NodeGrpcClient { node_info, channel }
    }

    pub fn id(&self) -> (r: u64)
        ensures
            r == self.spec_node_info().id,
    {
        self.node_info.id
    }

    pub fn node_info(&self) -> (r: &NodeInfo)
        ensures
            *r == self.spec_node_info(),
    {
        &self.node_info
    }

    /// The transport this client calls through.
    pub fn channel(&self) -> (r: &tonic::transport::Channel)
        ensures
            *r == self.spec_channel(),
    {
        &self.channel
    }

    /// The wire request asking this peer to locate `id`.
    pub fn build_find_successor_request(&self, id: u64) -> (r: FindSuccessorRequest)
        ensures
            r.node_id@ == u64_dec(self.spec_node_info().id as nat),
            r.id@ == u64_dec(id as nat),
    {
        FindSuccessorRequest {
            node_id: u64_to_dec_string(self.node_info.id),
            id: u64_to_dec_string(id),
        }
    }

    /// The wire request asking this peer for its predecessor.
    pub fn build_get_predecessor_request(&self) -> (r: GetPredecessorRequest)
        ensures
            r.node_id@ == u64_dec(self.spec_node_info().id as nat),
    {
        GetPredecessorRequest { node_id: u64_to_dec_string(self.node_info.id) }
    }
}

/// What reading a `find_successor` reply from the peer `peer_id` yields:
/// a missing payload is the peer's fault (`InvalidResponse`), a present
/// payload converts by the domain-conversion relation and keeps its
/// variant, and a conversion failure carries the conversion error.
pub open spec fn find_successor_reply_matches(
    peer_id: u64,
    resp: FindSuccessorResponse,
    r: Result<FindSuccessorResult, NodeError>,
) -> bool {
    match resp.node {
        None => r == Err::<FindSuccessorResult, NodeError>(NodeError::InvalidResponse(peer_id)),
        Some(ResponseNode::Successor(msg)) => match r {
            Ok(FindSuccessorResult::Successor(info)) => msg.try_domain_matches(
                &Ok::<NodeInfo, ConversionError>(info),
            ),
            Err(NodeError::ConversionError(e)) => msg.try_domain_matches(
                &Err::<NodeInfo, ConversionError>(e),
            ),
            _ => false,
        },
        Some(ResponseNode::ClosestPrecedingNode(msg)) => match r {
            Ok(FindSuccessorResult::ClosestPrecedingNode(info)) => msg.try_domain_matches(
                &Ok::<NodeInfo, ConversionError>(info),
            ),
            Err(NodeError::ConversionError(e)) => msg.try_domain_matches(
                &Err::<NodeInfo, ConversionError>(e),
            ),
            _ => false,
        },
    }
}

/// Read a `find_successor` reply received from the peer `peer_id`.
pub fn read_find_successor_response(peer_id: u64, resp: &FindSuccessorResponse) -> (r: Result<
    FindSuccessorResult,
    NodeError,
>)
    ensures
        find_successor_reply_matches(peer_id, *resp, r),
{
    match &resp.node {
        None => Err(NodeError::InvalidResponse(peer_id)),
        Some(ResponseNode::Successor(msg)) => match msg.try_to_domain() {
            Ok(info) => Ok(FindSuccessorResult::Successor(info)),
            Err(e) => Err(NodeError::ConversionError(e)),
        },
        Some(ResponseNode::ClosestPrecedingNode(msg)) => match msg.try_to_domain() {
            Ok(info) => Ok(FindSuccessorResult::ClosestPrecedingNode(info)),
            Err(e) => Err(NodeError::ConversionError(e)),
        },
    }
}

/// What reading a `get_predecessor` reply from the peer `peer_id`
/// yields.
pub open spec fn get_predecessor_reply_matches(
    peer_id: u64,
    resp: GetPredecessorResponse,
    r: Result<NodeInfo, NodeError>,
) -> bool {
    match resp.node {
        None => r == Err::<NodeInfo, NodeError>(NodeError::InvalidResponse(peer_id)),
        Some(msg) => match r {
            Ok(info) => msg.try_domain_matches(&Ok::<NodeInfo, ConversionError>(info)),
            Err(NodeError::ConversionError(e)) => msg.try_domain_matches(
                &Err::<NodeInfo, ConversionError>(e),
            ),
            _ => false,
        },
    }
}

/// Read a `get_predecessor` reply received from the peer `peer_id`.
pub fn read_get_predecessor_response(peer_id: u64, resp: &GetPredecessorResponse) -> (r: Result<
    NodeInfo,
    NodeError,
>)
    ensures
        get_predecessor_reply_matches(peer_id, *resp, r),
{
    match &resp.node {
        None => Err(NodeError::InvalidResponse(peer_id)),
        Some(msg) => match msg.try_to_domain() {
            Ok(info) => Ok(info),
            Err(e) => Err(NodeError::ConversionError(e)),
        },
    }
}

} // verus!
