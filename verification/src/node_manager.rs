//! The process-wide registry resolving a local node identifier to the
//! ring node hosting it.
//!
//! `initialize` replaces the whole contents at once — it is meant to run
//! once at startup with the freshly constructed set of hosted virtual
//! nodes, and the last writer wins; lookups then read the one published
//! map and never observe a partial update.

use crate::node::NodeImpl;
use std::collections::HashMap;
use vstd::prelude::*;

verus! {

broadcast use vstd::std_specs::hash::group_hash_axioms;

/// The registry of locally hosted virtual nodes.
pub struct NodeManagerImpl {
    nodes: HashMap<u64, NodeImpl>,
}

impl NodeManagerImpl {
    /// The published mapping from local identifier to hosted node.
    pub closed spec fn spec_nodes(&self) -> Map<u64, NodeImpl> {
        self.nodes@
    }

    /// An empty registry.
    pub fn new() -> (r: Self)
        ensures
            r.spec_nodes() == Map::<u64, NodeImpl>::empty(),
    {
        NodeManagerImpl { nodes: HashMap::new() }
    }

    /// Replace the whole registry contents.
    pub fn initialize(&mut self, nodes: HashMap<u64, NodeImpl>)
        ensures
            final(self).spec_nodes() == nodes@,
    {
        self.nodes = nodes;
    }

    /// Withdraw the node registered under `id` for exclusive use, e.g.
    /// to record a liveness probe; pair with `put_node`.
    pub fn take_node(&mut self, id: u64) -> (r: Option<NodeImpl>)
        ensures
            match r {
                Some(node) => {
                    &&& old(self).spec_nodes().contains_key(id)
                    &&& node == old(self).spec_nodes()[id]
                    &&& final(self).spec_nodes() == old(self).spec_nodes().remove(id)
                },
                None => {
                    &&& !old(self).spec_nodes().contains_key(id)
                    &&& final(self).spec_nodes() == old(self).spec_nodes()
                },
            },
    {
        let ghost before = self.nodes@;
        let r = self.nodes.remove(&id);
        proof {
            if r is None {
                assert(self.nodes@ =~= before);
            }
        }
        r
    }

    /// Register `node` back under its own identifier.
    pub fn put_node(&mut self, node: NodeImpl)
        ensures
            final(self).spec_nodes() == old(self).spec_nodes().insert(node.id, node),
    {
        let id = node.id();
        self.nodes.insert(id, node);
    }

    /// The hosted node registered under `id`, if any.
    pub fn get_node(&self, id: u64) -> (r: Option<&NodeImpl>)
        ensures
            match r {
                Some(node) => self.spec_nodes().contains_key(id) && *node == self.spec_nodes()[id],
                None => !self.spec_nodes().contains_key(id),
            },
    {
        self.nodes.get(&id)
    }
}

} // verus!
