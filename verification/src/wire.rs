//! The wire shapes of the RPC surface: requests, responses, and the peer
//! record they carry. Ring identifiers travel as decimal strings and
//! addresses as address text.

use vstd::prelude::*;

verus! {

/// A ring participant as it appears on the wire.
#[derive(Clone, PartialEq, Eq, Debug)]
pub struct NodeInfoMsg {
    pub id: String,
    pub ip: String,
    pub port: u32,
}

/// Ask the virtual node `node_id` which peer is responsible for `id`.
#[derive(Clone, PartialEq, Eq, Debug)]
pub struct FindSuccessorRequest {
    pub node_id: String,
    pub id: String,
}

/// The two normal outcomes of a lookup step: the responsible successor,
/// or the closest preceding node to continue the walk at.
#[derive(Clone, PartialEq, Eq, Debug)]
pub enum ResponseNode {
    Successor(NodeInfoMsg),
    ClosestPrecedingNode(NodeInfoMsg),
}

#[derive(Clone, PartialEq, Eq, Debug)]
pub struct FindSuccessorResponse {
    pub node: Option<ResponseNode>,
}

/// Ask the virtual node `node_id` for its first live predecessor.
#[derive(Clone, PartialEq, Eq, Debug)]
pub struct GetPredecessorRequest {
    pub node_id: String,
}

#[derive(Clone, PartialEq, Eq, Debug)]
pub struct GetPredecessorResponse {
    pub node: Option<NodeInfoMsg>,
}

} // verus!
