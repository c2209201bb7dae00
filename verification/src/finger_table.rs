//! Per-node routing state: ordered predecessor and successor lists and a
//! fixed-size array of finger entries, read by the lookup algorithm and
//! written by routing maintenance.

use crate::node_info::NodeInfo;
use vstd::prelude::*;

verus! {

/// One slot of the routing table.
#[derive(Clone, Copy, PartialEq, Eq, Structural, Debug)]
pub struct FingerTableEntry {
    pub node_info: NodeInfo,
}

/// The routing table of one ring node.
///
/// `entries` keeps the length it was constructed with for the table's
/// whole lifetime; individual slots may be empty at any time.
#[derive(Clone, Debug)]
pub struct FingerTable {
    /// The predecessors of the node, closest first. One is enough, but
    /// several let a lookup skip dead predecessors.
    predecessors: Vec<FingerTableEntry>,
    /// The successors of the node, closest first, with the same
    /// redundancy rationale.
    successors: Vec<FingerTableEntry>,
    /// The finger entries: slot `k` should point near `id + 2^k` on the
    /// ring. Slots may be empty.
    entries: Vec<Option<FingerTableEntry>>,
}

impl FingerTable {
    /// The predecessor list, closest first.
    pub closed spec fn spec_predecessors(&self) -> Seq<FingerTableEntry> {
        self.predecessors@
    }

    /// The successor list, closest first.
    pub closed spec fn spec_successors(&self) -> Seq<FingerTableEntry> {
        self.successors@
    }

    /// The finger entries.
    pub closed spec fn spec_entries(&self) -> Seq<Option<FingerTableEntry>> {
        self.entries@
    }

    /// A table with empty lists and `size` empty finger slots.
    pub fn new(size: usize) -> (r: Self)
        ensures
            r.spec_predecessors() == Seq::<FingerTableEntry>::empty(),
            r.spec_successors() == Seq::<FingerTableEntry>::empty(),
            r.spec_entries().len() == size,
            forall|k: int| 0 <= k < size ==> r.spec_entries()[k] is None,
    {
        let mut entries: Vec<Option<FingerTableEntry>> = Vec::new();
        let mut k: usize = 0;
        while k < size
            invariant
                0 <= k <= size,
                entries@.len() == k,
                forall|j: int| 0 <= j < k ==> entries@[j] is None,
            decreases size - k,
        {
            entries.push(None);
            k = k + 1;
        }
        Self { predecessors: Vec::new(), successors: Vec::new(), entries }
    }

    pub fn get_predecessors(&self) -> (r: &Vec<FingerTableEntry>)
        ensures
            r@ == self.spec_predecessors(),
    {
        &self.predecessors
    }

    pub fn get_successors(&self) -> (r: &Vec<FingerTableEntry>)
        ensures
            r@ == self.spec_successors(),
    {
        &self.successors
    }

    pub fn get_entries(&self) -> (r: &Vec<Option<FingerTableEntry>>)
        ensures
            r@ == self.spec_entries(),
    {
        &self.entries
    }

    /// Replace the predecessor list.
    pub fn set_predecessors(&mut self, predecessors: Vec<FingerTableEntry>)
        ensures
            final(self).spec_predecessors() == predecessors@,
            final(self).spec_successors() == old(self).spec_successors(),
            final(self).spec_entries() == old(self).spec_entries(),
    {
        self.predecessors = predecessors;
    }

    /// Replace the successor list.
    pub fn set_successors(&mut self, successors: Vec<FingerTableEntry>)
        ensures
            final(self).spec_predecessors() == old(self).spec_predecessors(),
            final(self).spec_successors() == successors@,
            final(self).spec_entries() == old(self).spec_entries(),
    {
        self.successors = successors;
    }

    /// Fill or clear one finger slot; the number of slots never changes.
    pub fn set_entry(&mut self, k: usize, entry: Option<FingerTableEntry>)
        requires
            k < old(self).spec_entries().len(),
        ensures
            final(self).spec_predecessors() == old(self).spec_predecessors(),
            final(self).spec_successors() == old(self).spec_successors(),
            final(self).spec_entries() == old(self).spec_entries().update(k as int, entry),
    {
        self.entries.set(k, entry);
    }
}

impl Default for FingerTable {
    /// An empty table: no predecessors, no successors, no finger slots.
    fn default() -> (r: Self)
        ensures
            r.spec_predecessors() == Seq::<FingerTableEntry>::empty(),
            r.spec_successors() == Seq::<FingerTableEntry>::empty(),
            r.spec_entries() == Seq::<Option<FingerTableEntry>>::empty(),
    {
        Self { predecessors: Vec::new(), successors: Vec::new(), entries: Vec::new() }
    }
}

} // verus!
