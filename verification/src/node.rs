//! The per-node lookup state machine.
//!
//! A ring node answers `find_successor` and `get_predecessor` by walking
//! its routing table in order, skipping peers that are not alive. Probing
//! a peer is an outside, asynchronous act, so each walk is exposed as a
//! stepped machine: `..._begin` names the first peer to probe, and each
//! `..._step` consumes one probe outcome and either finishes or names the
//! next peer. The caller drives the machine, feeding probe outcomes
//! obtained through the node's liveness cache.

use crate::convert::ConversionError;
use crate::finger_table::{FingerTable, FingerTableEntry};
use crate::liveness::{LivenessCache, NodeStatus};
use crate::looping_range::{spec_contains_looping, IdBound, IdRange, LoopingRange};
use crate::node_info::NodeInfo;
use vstd::prelude::*;

verus! {

#[verifier::external_type_specification]
#[verifier::external_body]
pub struct ExStatus(tonic::Status);

/// The status class a failed call reports to the RPC boundary.
#[derive(Clone, Copy, PartialEq, Eq, Structural, Debug)]
pub enum StatusCode {
    NotFound,
    InvalidArgument,
    Internal,
    Unknown,
}

/// Why a ring query failed.
#[derive(Debug)]
pub enum NodeError {
    /// A peer returned a well-formed but unusable answer; carries the
    /// peer's identifier.
    InvalidResponse(u64),
    /// An outbound peer call failed with a transport status.
    StatusError(tonic::Status),
    /// A wire value could not be converted to a domain value.
    ConversionError(ConversionError),
    /// Every known table entry was dead or missing: this node cannot make
    /// progress on the query.
    NoViableCandidate,
    Unknown,
}

impl NodeError {
    /// The status class of each error kind.
    pub open spec fn spec_get_code(&self) -> StatusCode {
        match self {
            NodeError::InvalidResponse(_) => StatusCode::InvalidArgument,
            NodeError::StatusError(_) => StatusCode::Internal,
            NodeError::ConversionError(_) => StatusCode::Internal,
            NodeError::NoViableCandidate => StatusCode::Unknown,
            NodeError::Unknown => StatusCode::Unknown,
        }
    }

    pub fn invalid_response(id: u64) -> (r: Self)
        ensures
            r == NodeError::InvalidResponse(id),
    {
        NodeError::InvalidResponse(id)
    }

    pub fn status_error(status: tonic::Status) -> (r: Self)
        ensures
            r is StatusError,
    {
        NodeError::StatusError(status)
    }

    pub fn unknown() -> (r: Self)
        ensures
            r == NodeError::Unknown,
    {
        NodeError::Unknown
    }

    pub fn get_code(&self) -> (c: StatusCode)
        ensures
            c == self.spec_get_code(),
    {
        match self {
            NodeError::InvalidResponse(_) => StatusCode::InvalidArgument,
            NodeError::StatusError(_) => StatusCode::Internal,
            NodeError::ConversionError(_) => StatusCode::Internal,
            NodeError::NoViableCandidate => StatusCode::Unknown,
            NodeError::Unknown => StatusCode::Unknown,
        }
    }
}

/// Arguments of a `find_successor` query. `iterate` is carried for the
/// wire shape but the server-side walk never recurses on its own.
#[derive(Clone, Copy, PartialEq, Eq, Structural, Debug)]
pub struct FindSuccessorParameters {
    pub id: u64,
    pub iterate: bool,
}

impl Default for FindSuccessorParameters {
    fn default() -> (r: Self)
        ensures
            r.id == 0,
            r.iterate == false,
    {
        FindSuccessorParameters { id: 0, iterate: false }
    }
}

/// The two normal outcomes of one lookup step.
#[derive(Clone, Copy, PartialEq, Eq, Structural, Debug)]
pub enum FindSuccessorResult {
    /// The peer responsible for the queried identifier.
    Successor(NodeInfo),
    /// The best next hop; the caller re-issues the query there.
    ClosestPrecedingNode(NodeInfo),
}

/// Which role a table entry plays in a lookup walk.
#[derive(Clone, Copy, PartialEq, Eq, Structural, Debug)]
pub enum CandidateKind {
    Successor,
    ClosestPreceding,
}

/// One peer the walk will consider, in order.
#[derive(Clone, Copy, PartialEq, Eq, Structural, Debug)]
pub struct Candidate {
    pub peer: NodeInfo,
    pub kind: CandidateKind,
}

/// Whether a successor with identifier `succ_id` covers `target`: the
/// target lies in the wrapping interval `(self_id, succ_id]`.
pub open spec fn succ_covers(self_id: u64, succ_id: u64, target: u64) -> bool {
    spec_contains_looping(IdBound::Excluded(self_id), IdBound::Included(succ_id), target)
}

/// Whether a finger with identifier `finger_id` precedes `target`: it
/// lies in the wrapping interval `(self_id, target)`.
pub open spec fn finger_precedes(self_id: u64, finger_id: u64, target: u64) -> bool {
    spec_contains_looping(IdBound::Excluded(self_id), IdBound::Excluded(target), finger_id)
}

/// The successor-list candidates: every successor covering `target`, in
/// list (closest-first) order.
pub open spec fn successor_candidates(
    successors: Seq<FingerTableEntry>,
    self_id: u64,
    target: u64,
) -> Seq<Candidate>
    decreases successors.len(),
{
    if successors.len() == 0 {
        Seq::empty()
    } else {
        let rest = successor_candidates(successors.drop_last(), self_id, target);
        if succ_covers(self_id, successors.last().node_info.id, target) {
            rest.push(Candidate { peer: successors.last().node_info, kind: CandidateKind::Successor })
        } else {
            rest
        }
    }
}

/// The candidate a finger slot contributes: its entry, if present and
/// preceding `target`.
pub open spec fn finger_head(
    slot: Option<FingerTableEntry>,
    self_id: u64,
    target: u64,
) -> Seq<Candidate> {
    match slot {
        Some(e) => if finger_precedes(self_id, e.node_info.id, target) {
            seq![Candidate { peer: e.node_info, kind: CandidateKind::ClosestPreceding }]
        } else {
            Seq::empty()
        },
        None => Seq::empty(),
    }
}

/// The finger-table candidates: the filled slots whose entries precede
/// `target`, scanned from the farthest slot down to the nearest.
pub open spec fn finger_candidates(
    entries: Seq<Option<FingerTableEntry>>,
    self_id: u64,
    target: u64,
) -> Seq<Candidate>
    decreases entries.len(),
{
    if entries.len() == 0 {
        Seq::empty()
    } else {
        finger_head(entries.last(), self_id, target) + finger_candidates(
            entries.drop_last(),
            self_id,
            target,
        )
    }
}

/// Peeling `finger_candidates` from the front: the nearest slot's
/// contribution comes last.
pub proof fn lemma_finger_candidates_first(
    entries: Seq<Option<FingerTableEntry>>,
    self_id: u64,
    target: u64,
)
    requires
        entries.len() > 0,
    ensures
        finger_candidates(entries, self_id, target) == finger_candidates(
            entries.skip(1),
            self_id,
            target,
        ) + finger_head(entries[0], self_id, target),
    decreases entries.len(),
{
    if entries.len() == 1 {
        assert(entries.skip(1) =~= Seq::<Option<FingerTableEntry>>::empty());
        assert(entries.drop_last() =~= Seq::<Option<FingerTableEntry>>::empty());
        assert(entries.last() == entries[0]);
        assert(finger_candidates(entries, self_id, target) =~= finger_candidates(
            entries.skip(1),
            self_id,
            target,
        ) + finger_head(entries[0], self_id, target));
    } else {
        lemma_finger_candidates_first(entries.drop_last(), self_id, target);
        assert(entries.drop_last()[0] == entries[0]);
        assert(entries.skip(1).drop_last() =~= entries.drop_last().skip(1));
        assert(entries.skip(1).last() == entries.last());
        assert(finger_candidates(entries, self_id, target) =~= finger_candidates(
            entries.skip(1),
            self_id,
            target,
        ) + finger_head(entries[0], self_id, target));
    }
}

/// The full walk order of a `find_successor` query: covering successors
/// first, closest-first; then preceding fingers, farthest-first.
pub open spec fn lookup_candidates(
    successors: Seq<FingerTableEntry>,
    entries: Seq<Option<FingerTableEntry>>,
    self_id: u64,
    target: u64,
) -> Seq<Candidate> {
    successor_candidates(successors, self_id, target) + finger_candidates(
        entries,
        self_id,
        target,
    )
}

/// The query outcome a candidate yields when it is alive.
pub open spec fn candidate_result(c: Candidate) -> FindSuccessorResult {
    match c.kind {
        CandidateKind::Successor => FindSuccessorResult::Successor(c.peer),
        CandidateKind::ClosestPreceding => FindSuccessorResult::ClosestPrecedingNode(c.peer),
    }
}

/// One step of a driven lookup: either probe this peer's liveness and
/// come back with the outcome, or the query is finished.
pub enum LookupStep<T> {
    Probe { peer: NodeInfo, cursor: usize },
    Done(T),
}

/// Where a `find_successor` walk starts over a candidate order.
pub open spec fn successor_begin_spec(cands: Seq<Candidate>) -> LookupStep<
    Result<FindSuccessorResult, NodeError>,
> {
    if cands.len() == 0 {
        LookupStep::Done(Err(NodeError::NoViableCandidate))
    } else {
        LookupStep::Probe { peer: cands[0].peer, cursor: 0 }
    }
}

/// How a `find_successor` walk advances at `cursor` on a probe outcome:
/// an alive candidate answers the query at once; a dead one is skipped,
/// and a walk past the last candidate fails with `NoViableCandidate`.
pub open spec fn successor_step_spec(
    cands: Seq<Candidate>,
    cursor: int,
    status: NodeStatus,
) -> LookupStep<Result<FindSuccessorResult, NodeError>> {
    if cursor >= cands.len() {
        LookupStep::Done(Err(NodeError::NoViableCandidate))
    } else if status is Alive {
        LookupStep::Done(Ok(candidate_result(cands[cursor])))
    } else if cursor + 1 < cands.len() {
        LookupStep::Probe { peer: cands[cursor + 1].peer, cursor: (cursor + 1) as usize }
    } else {
        LookupStep::Done(Err(NodeError::NoViableCandidate))
    }
}

/// Where a `get_predecessor` walk starts over the predecessor list.
pub open spec fn predecessor_begin_spec(preds: Seq<FingerTableEntry>) -> LookupStep<
    Result<NodeInfo, NodeError>,
> {
    if preds.len() == 0 {
        LookupStep::Done(Err(NodeError::NoViableCandidate))
    } else {
        LookupStep::Probe { peer: preds[0].node_info, cursor: 0 }
    }
}

/// How a `get_predecessor` walk advances: the first alive predecessor,
/// closest first, answers the query; dead ones are skipped; exhaustion
/// fails with `NoViableCandidate`. There is no finger-table fallback.
pub open spec fn predecessor_step_spec(
    preds: Seq<FingerTableEntry>,
    cursor: int,
    status: NodeStatus,
) -> LookupStep<Result<NodeInfo, NodeError>> {
    if cursor >= preds.len() {
        LookupStep::Done(Err(NodeError::NoViableCandidate))
    } else if status is Alive {
        LookupStep::Done(Ok(preds[cursor].node_info))
    } else if cursor + 1 < preds.len() {
        LookupStep::Probe { peer: preds[cursor + 1].node_info, cursor: (cursor + 1) as usize }
    } else {
        LookupStep::Done(Err(NodeError::NoViableCandidate))
    }
}

/// The number of finger slots of one node: one per bit of the 64-bit
/// identifier ring, slot `k` aimed near `id + 2^k`.
pub const FINGER_TABLE_SIZE: usize = 64;

/// How many entries the liveness cache of one node holds at most.
pub const LIVENESS_CAPACITY: usize = 1024;

/// How long a stored probe outcome stays valid, in milliseconds.
pub const LIVENESS_TTL_MS: u64 = 60000;

/// One hosted virtual ring node: its identifier, its routing table, and
/// its liveness cache.
pub struct NodeImpl {
    pub id: u64,
    pub finger_table: FingerTable,
    pub node_statuses: LivenessCache,
}

impl NodeImpl {
    /// Well-formed: the liveness cache is.
    pub open spec fn wf(&self) -> bool {
        self.node_statuses.wf()
    }

    /// A node with empty predecessor and successor lists, the fixed
    /// ring-sized array of empty finger slots, and an empty liveness
    /// cache of the default bound and time to live.
    pub fn new(id: u64) -> (r: Self)
        ensures
            r.wf(),
            r.id == id,
            r.finger_table.spec_predecessors() == Seq::<FingerTableEntry>::empty(),
            r.finger_table.spec_successors() == Seq::<FingerTableEntry>::empty(),
            r.finger_table.spec_entries().len() == FINGER_TABLE_SIZE,
            forall|k: int|
                0 <= k < FINGER_TABLE_SIZE ==> r.finger_table.spec_entries()[k] is None,
            r.node_statuses.entries_seq() == Seq::<crate::liveness::LivenessEntry>::empty(),
            r.node_statuses.spec_capacity() == LIVENESS_CAPACITY,
            r.node_statuses.spec_ttl_ms() == LIVENESS_TTL_MS,
    {
        NodeImpl {
            id,
            finger_table: FingerTable::new(FINGER_TABLE_SIZE),
            node_statuses: LivenessCache::new(LIVENESS_CAPACITY, LIVENESS_TTL_MS),
        }
    }

    pub fn id(&self) -> (r: u64)
        ensures
            r == self.id,
    {
        self.id
    }

    /// The walk order of a `find_successor` query for `target`.
    fn candidates(&self, target: u64) -> (r: Vec<Candidate>)
        ensures
            r@ == lookup_candidates(
                self.finger_table.spec_successors(),
                self.finger_table.spec_entries(),
                self.id,
                target,
            ),
    {
        let mut out: Vec<Candidate> = Vec::new();
        let successors = self.finger_table.get_successors();
        let n = successors.len();
        let mut i: usize = 0;
        while i < n
            invariant
                0 <= i <= n,
                n == successors@.len(),
                successors@ == self.finger_table.spec_successors(),
                out@ == successor_candidates(successors@.take(i as int), self.id, target),
            decreases n - i,
        {
            let entry = successors[i];
            let range = IdRange {
                start: IdBound::Excluded(self.id),
                end: IdBound::Included(entry.node_info.id),
            };
            if range.contains_looping(target) {
                out.push(Candidate { peer: entry.node_info, kind: CandidateKind::Successor });
            }
            proof {
                assert(successors@.take(i + 1).drop_last() =~= successors@.take(i as int));
                assert(successors@.take(i + 1).last() == successors@[i as int]);
            }
            i = i + 1;
        }
        proof {
            assert(successors@.take(n as int) =~= successors@);
        }
        let ghost succ_part = out@;
        let entries = self.finger_table.get_entries();
        let m = entries.len();
        let mut k: usize = m;
        while k > 0
            invariant
                0 <= k <= m,
                m == entries@.len(),
                entries@ == self.finger_table.spec_entries(),
                out@ == succ_part + finger_candidates(entries@.skip(k as int), self.id, target),
            decreases k,
        {
            k = k - 1;
            proof {
                lemma_finger_candidates_first(entries@.skip(k as int), self.id, target);
                assert(entries@.skip(k as int).skip(1) =~= entries@.skip(k + 1));
                assert(entries@.skip(k as int)[0] == entries@[k as int]);
            }
            match &entries[k] {
                Some(entry) => {
                    let range = IdRange {
                        start: IdBound::Excluded(self.id),
                        end: IdBound::Excluded(target),
                    };
                    if range.contains_looping(entry.node_info.id) {
                        out.push(
                            Candidate {
                                peer: entry.node_info,
                                kind: CandidateKind::ClosestPreceding,
                            },
                        );
                    }
                },
                None => {},
            }
            proof {
                assert(out@ =~= succ_part + finger_candidates(
                    entries@.skip(k as int),
                    self.id,
                    target,
                ));
            }
        }
        proof {
            assert(entries@.skip(0) =~= entries@);
            assert(out@ =~= lookup_candidates(
                self.finger_table.spec_successors(),
                self.finger_table.spec_entries(),
                self.id,
                target,
            ));
        }
        out
    }

    /// Start a `find_successor` walk: name the first candidate to probe,
    /// or fail at once when the table offers none.
    pub fn find_successor_begin(&self, parameters: &FindSuccessorParameters) -> (step: LookupStep<
        Result<FindSuccessorResult, NodeError>,
    >)
        ensures
            step == successor_begin_spec(
                lookup_candidates(
                    self.finger_table.spec_successors(),
                    self.finger_table.spec_entries(),
                    self.id,
                    parameters.id,
                ),
            ),
    {
        let cands = self.candidates(parameters.id);
        if cands.len() == 0 {
            LookupStep::Done(Err(NodeError::NoViableCandidate))
        } else {
            LookupStep::Probe { peer: cands[0].peer, cursor: 0 }
        }
    }

    /// Advance a `find_successor` walk with the probe outcome of the
    /// candidate at `cursor`.
    pub fn find_successor_step(
        &self,
        parameters: &FindSuccessorParameters,
        cursor: usize,
        status: NodeStatus,
    ) -> (step: LookupStep<Result<FindSuccessorResult, NodeError>>)
        ensures
            step == successor_step_spec(
                lookup_candidates(
                    self.finger_table.spec_successors(),
                    self.finger_table.spec_entries(),
                    self.id,
                    parameters.id,
                ),
                cursor as int,
                status,
            ),
    {
        let cands = self.candidates(parameters.id);
        if cursor >= cands.len() {
            LookupStep::Done(Err(NodeError::NoViableCandidate))
        } else if matches!(status, NodeStatus::Alive) {
            let c = cands[cursor];
            match c.kind {
                CandidateKind::Successor => LookupStep::Done(
                    Ok(FindSuccessorResult::Successor(c.peer)),
                ),
                CandidateKind::ClosestPreceding => LookupStep::Done(
                    Ok(FindSuccessorResult::ClosestPrecedingNode(c.peer)),
                ),
            }
        } else if cursor + 1 < cands.len() {
            LookupStep::Probe { peer: cands[cursor + 1].peer, cursor: cursor + 1 }
        } else {
            LookupStep::Done(Err(NodeError::NoViableCandidate))
        }
    }

    /// Start a `get_predecessor` walk: name the closest predecessor to
    /// probe, or fail at once when none is known.
    pub fn get_predecessor_begin(&self) -> (step: LookupStep<Result<NodeInfo, NodeError>>)
        ensures
            step == predecessor_begin_spec(self.finger_table.spec_predecessors()),
    {
        let preds = self.finger_table.get_predecessors();
        if preds.len() == 0 {
            LookupStep::Done(Err(NodeError::NoViableCandidate))
        } else {
            LookupStep::Probe { peer: preds[0].node_info, cursor: 0 }
        }
    }

    /// Advance a `get_predecessor` walk with the probe outcome of the
    /// predecessor at `cursor`.
    pub fn get_predecessor_step(&self, cursor: usize, status: NodeStatus) -> (step: LookupStep<
        Result<NodeInfo, NodeError>,
    >)
        ensures
            step == predecessor_step_spec(
                self.finger_table.spec_predecessors(),
                cursor as int,
                status,
            ),
    {
        let preds = self.finger_table.get_predecessors();
        if cursor >= preds.len() {
            LookupStep::Done(Err(NodeError::NoViableCandidate))
        } else if matches!(status, NodeStatus::Alive) {
            LookupStep::Done(Ok(preds[cursor].node_info))
        } else if cursor + 1 < preds.len() {
            LookupStep::Probe { peer: preds[cursor + 1].node_info, cursor: cursor + 1 }
        } else {
            LookupStep::Done(Err(NodeError::NoViableCandidate))
        }
    }
}

} // verus!
