//! Deduplicating, time-bounded memoization of peer liveness probes.
//!
//! Each entry is either the resolved outcome of a probe, valid for a fixed
//! time to live, or a still-pending probe. A caller that finds a pending
//! entry subscribes to the in-flight probe's completion signal instead of
//! starting a second probe; a caller that finds nothing usable is handed
//! the sender half of a fresh signal and is expected to run the one probe
//! and then store its outcome with `complete_probe`. The cache is bounded:
//! once full, the least recently used entry is evicted.
//!
//! Entries are kept in recency order, least recently used first.

use crate::node_info::NodeInfo;
use vstd::prelude::*;

verus! {

/// The outcome of a liveness probe.
#[derive(Clone, Copy, PartialEq, Eq, Structural, Debug)]
pub enum NodeStatus {
    Alive,
    Dead,
}

#[verifier::external_type_specification]
#[verifier::external_body]
#[verifier::reject_recursive_types(T)]
pub struct ExWatchSender<T>(tokio::sync::watch::Sender<T>);

#[verifier::external_type_specification]
#[verifier::external_body]
#[verifier::reject_recursive_types(T)]
pub struct ExWatchReceiver<T>(tokio::sync::watch::Receiver<T>);

/// Relies on tokio's watch channel constructor: it allocates a fresh
/// single-slot channel without I/O; receivers observe the last value sent.
#[verifier::external_body]
fn new_probe_signal() -> (tokio::sync::watch::Sender<bool>, tokio::sync::watch::Receiver<bool>) {
    tokio::sync::watch::channel(false)
}

/// Relies on watch::Receiver::clone: a clone is one more subscription to
/// the same channel.
#[verifier::external_body]
fn clone_probe_receiver(rx: &tokio::sync::watch::Receiver<bool>) -> tokio::sync::watch::Receiver<
    bool,
> {
    rx.clone()
}

/// The state of one cache entry: a probe still in flight, or its stored
/// outcome with the time it was stored.
pub enum ProbeState {
    /// A probe is in flight; the receiver subscribes to its completion
    /// signal (`true` for alive).
    Pending(tokio::sync::watch::Receiver<bool>),
    /// A probe completed with `status` at time `stored_at`.
    Resolved { status: NodeStatus, stored_at: u64 },
}

/// One cache entry.
pub struct LivenessEntry {
    pub peer: NodeInfo,
    pub state: ProbeState,
}

/// What a caller of `begin_check` must do next.
pub enum CheckPlan {
    /// A stored outcome is still valid: use it, probe nothing.
    Hit(NodeStatus),
    /// A probe for this peer is already in flight: await its completion
    /// signal, probe nothing.
    AwaitInFlight(tokio::sync::watch::Receiver<bool>),
    /// No usable entry: run the one probe for this peer, send its outcome
    /// on this sender, and store it with `complete_probe`.
    StartProbe(tokio::sync::watch::Sender<bool>),
}

/// Whether some entry of `s` is for `peer`.
pub open spec fn has_peer(s: Seq<LivenessEntry>, peer: NodeInfo) -> bool {
    exists|i: int| 0 <= i < s.len() && (#[trigger] s[i]).peer == peer
}

/// Whether a probe for `peer` is in flight in `s`.
pub open spec fn has_pending(s: Seq<LivenessEntry>, peer: NodeInfo) -> bool {
    exists|i: int| 0 <= i < s.len() && (#[trigger] s[i]).peer == peer && s[i].state is Pending
}

/// Whether an entry state is a stored outcome still valid at `now`.
pub open spec fn state_fresh(state: ProbeState, now: u64, ttl_ms: u64) -> bool {
    match state {
        ProbeState::Resolved { status, stored_at } => (now as int) < stored_at + ttl_ms,
        ProbeState::Pending(_) => false,
    }
}

/// Whether `s` holds an outcome for `peer` still valid at `now`.
pub open spec fn has_fresh(s: Seq<LivenessEntry>, peer: NodeInfo, now: u64, ttl_ms: u64) -> bool {
    exists|i: int|
        0 <= i < s.len() && (#[trigger] s[i]).peer == peer && state_fresh(s[i].state, now, ttl_ms)
}

/// The liveness cache of one ring node.
pub struct LivenessCache {
    capacity: usize,
    ttl_ms: u64,
    entries: Vec<LivenessEntry>,
}

impl LivenessCache {
    /// The bound on the number of entries.
    pub closed spec fn spec_capacity(&self) -> usize {
        self.capacity
    }

    /// How long a stored outcome stays valid, in milliseconds.
    pub closed spec fn spec_ttl_ms(&self) -> u64 {
        self.ttl_ms
    }

    /// The entries, least recently used first.
    pub closed spec fn entries_seq(&self) -> Seq<LivenessEntry> {
        self.entries@
    }

    /// Well-formed: non-trivial bound, bound respected, one entry per
    /// peer.
    pub open spec fn wf(&self) -> bool {
        &&& self.spec_capacity() >= 1
        &&& self.entries_seq().len() <= self.spec_capacity()
        &&& forall|i: int, j: int|
            0 <= i < j < self.entries_seq().len() ==> (#[trigger] self.entries_seq()[i]).peer != (
            #[trigger] self.entries_seq()[j]).peer
    }

    /// An empty cache with the given bound and time to live.
    pub fn new(capacity: usize, ttl_ms: u64) -> (r: Self)
        requires
            capacity >= 1,
        ensures
            r.wf(),
            r.spec_capacity() == capacity,
            r.spec_ttl_ms() == ttl_ms,
            r.entries_seq() == Seq::<LivenessEntry>::empty(),
    {
        let r = Self { capacity, ttl_ms, entries: Vec::new() };
        proof {
            assert(r.entries_seq() =~= Seq::<LivenessEntry>::empty());
        }
        r
    }

    /// The number of entries currently stored.
    pub fn len(&self) -> (n: usize)
        ensures
            n == self.entries_seq().len(),
    {
        self.entries.len()
    }

    /// Index of the entry for `peer`, if any.
    fn find(&self, peer: &NodeInfo) -> (r: Option<usize>)
        ensures
            match r {
                Some(i) => i < self.entries_seq().len() && self.entries_seq()[i as int].peer
                    == *peer,
                None => forall|j: int|
                    0 <= j < self.entries_seq().len() ==> (#[trigger] self.entries_seq()[j]).peer
                        != *peer,
            },
    {
        let len = self.entries.len();
        let mut i: usize = 0;
        while i < len
            invariant
                0 <= i <= len,
                len == self.entries_seq().len(),
                forall|j: int| 0 <= j < i ==> (#[trigger] self.entries_seq()[j]).peer != *peer,
            decreases len - i,
        {
            if self.entries[i].peer == *peer {
                return Some(i);
            }
            i = i + 1;
        }
        None
    }

    /// Decide how a liveness check of `peer` issued at `now` proceeds.
    ///
    /// Exactly one underlying probe runs per unresolved peer: while one is
    /// in flight every further check subscribes to it (`AwaitInFlight`),
    /// and a stored outcome answers checks (`Hit`) only until its time to
    /// live has elapsed — a check issued at or after expiry starts a new
    /// probe (`StartProbe`), as does a check of an unknown peer. The
    /// touched entry moves to most-recently-used position; recording a
    /// new probe in a full cache evicts the least recently used entry.
    pub fn begin_check(&mut self, peer: &NodeInfo, now: u64) -> (plan: CheckPlan)
        requires
            old(self).wf(),
        ensures
            final(self).wf(),
            final(self).spec_capacity() == old(self).spec_capacity(),
            final(self).spec_ttl_ms() == old(self).spec_ttl_ms(),
            has_pending(old(self).entries_seq(), *peer) ==> {
                &&& plan is AwaitInFlight
                &&& exists|i: int|
                    {
                        &&& 0 <= i < old(self).entries_seq().len()
                        &&& (#[trigger] old(self).entries_seq()[i]).peer == *peer
                        &&& old(self).entries_seq()[i].state is Pending
                        &&& final(self).entries_seq() == old(self).entries_seq().remove(i).push(
                            old(self).entries_seq()[i],
                        )
                    }
            },
            !has_pending(old(self).entries_seq(), *peer) && has_fresh(
                old(self).entries_seq(),
                *peer,
                now,
                old(self).spec_ttl_ms(),
            ) ==> exists|i: int|
                {
                    &&& 0 <= i < old(self).entries_seq().len()
                    &&& (#[trigger] old(self).entries_seq()[i]).peer == *peer
                    &&& state_fresh(old(self).entries_seq()[i].state, now, old(self).spec_ttl_ms())
                    &&& match old(self).entries_seq()[i].state {
                        ProbeState::Resolved { status, stored_at } => plan == CheckPlan::Hit(
                            status,
                        ),
                        ProbeState::Pending(_) => false,
                    }
                    &&& final(self).entries_seq() == old(self).entries_seq().remove(i).push(
                        old(self).entries_seq()[i],
                    )
                },
            !has_pending(old(self).entries_seq(), *peer) && !has_fresh(
                old(self).entries_seq(),
                *peer,
                now,
                old(self).spec_ttl_ms(),
            ) ==> {
                &&& plan is StartProbe
                &&& has_pending(final(self).entries_seq(), *peer)
                &&& final(self).entries_seq().len() >= 1
                &&& final(self).entries_seq().last().peer == *peer
                &&& final(self).entries_seq().last().state is Pending
                &&& (if has_peer(old(self).entries_seq(), *peer) {
                    exists|i: int|
                        {
                            &&& 0 <= i < old(self).entries_seq().len()
                            &&& (#[trigger] old(self).entries_seq()[i]).peer == *peer
                            &&& final(self).entries_seq().drop_last()
                                == old(self).entries_seq().remove(i)
                        }
                } else if old(self).entries_seq().len() == old(self).spec_capacity() {
                    final(self).entries_seq().drop_last() == old(self).entries_seq().remove(0)
                } else {
                    final(self).entries_seq().drop_last() == old(self).entries_seq()
                })
            },
    {
        let ghost old_entries = self.entries@;
        match self.find(peer) {
            Some(i) => {
                proof {
                    assert(forall|j: int|
                        0 <= j < old_entries.len() && j != i ==> (#[trigger] old_entries[j]).peer
                            != *peer);
                }
                let entry = self.entries.remove(i);
                let LivenessEntry { peer: entry_peer, state } = entry;
                match state {
                    ProbeState::Pending(rx) => {
                        let subscription = clone_probe_receiver(&rx);
                        self.entries.push(
                            LivenessEntry { peer: entry_peer, state: ProbeState::Pending(rx) },
                        );
                        proof {
                            assert(self.entries@ =~= old_entries.remove(i as int).push(
                                old_entries[i as int],
                            ));
                            assert(has_pending(old_entries, *peer));
                        }
                        CheckPlan::AwaitInFlight(subscription)
                    },
                    ProbeState::Resolved { status, stored_at } => {
                        if (now as u128) < (stored_at as u128) + (self.ttl_ms as u128) {
                            self.entries.push(
                                LivenessEntry {
                                    peer: entry_peer,
                                    state: ProbeState::Resolved { status, stored_at },
                                },
                            );
                            proof {
                                assert(self.entries@ =~= old_entries.remove(i as int).push(
                                    old_entries[i as int],
                                ));
                                assert(!has_pending(old_entries, *peer));
                                assert(has_fresh(old_entries, *peer, now, self.ttl_ms));
                            }
                            CheckPlan::Hit(status)
                        } else {
                            let (probe_done, subscription) = new_probe_signal();
                            self.entries.push(
                                LivenessEntry {
                                    peer: entry_peer,
                                    state: ProbeState::Pending(subscription),
                                },
                            );
                            proof {
                                assert(self.entries@.drop_last() =~= old_entries.remove(i as int));
                                assert(!has_pending(old_entries, *peer));
                                assert(!has_fresh(old_entries, *peer, now, self.ttl_ms)) by {
                                    assert(forall|j: int|
                                        0 <= j < old_entries.len() && (
                                        #[trigger] old_entries[j]).peer == *peer ==> !state_fresh(
                                            old_entries[j].state,
                                            now,
                                            self.ttl_ms,
                                        ));
                                }
                                assert(has_pending(self.entries@, *peer)) by {
                                    assert(self.entries@.last().peer == *peer);
                                }
                            }
                            CheckPlan::StartProbe(probe_done)
                        }
                    },
                }
            },
            None => {
                proof {
                    assert(!has_peer(old_entries, *peer));
                    assert(!has_pending(old_entries, *peer));
                    assert(!has_fresh(old_entries, *peer, now, self.ttl_ms));
                }
                if self.entries.len() == self.capacity {
                    let _evicted = self.entries.remove(0);
                }
                let (probe_done, subscription) = new_probe_signal();
                self.entries.push(
                    LivenessEntry { peer: *peer, state: ProbeState::Pending(subscription) },
                );
                proof {
                    assert(has_pending(self.entries@, *peer)) by {
                        assert(self.entries@.last().peer == *peer);
                    }
                    if old_entries.len() == self.capacity {
                        assert(self.entries@.drop_last() =~= old_entries.remove(0));
                    } else {
                        assert(self.entries@.drop_last() =~= old_entries);
                    }
                }
                CheckPlan::StartProbe(probe_done)
            },
        }
    }

    /// Replace an abandoned in-flight probe of `peer` with a fresh one.
    ///
    /// A caller that finds the completion signal of a pending probe dead
    /// — its probing task went away without completing — reports it
    /// here. If the entry is still pending, a fresh probe takes its
    /// place and the caller runs it; if the probe completed or the entry
    /// was evicted meanwhile, nothing changes and the caller re-checks.
    pub fn reset_abandoned_probe(&mut self, peer: &NodeInfo) -> (r: Option<
        tokio::sync::watch::Sender<bool>,
    >)
        requires
            old(self).wf(),
        ensures
            final(self).wf(),
            final(self).spec_capacity() == old(self).spec_capacity(),
            final(self).spec_ttl_ms() == old(self).spec_ttl_ms(),
            has_pending(old(self).entries_seq(), *peer) ==> {
                &&& r is Some
                &&& has_pending(final(self).entries_seq(), *peer)
                &&& final(self).entries_seq().len() >= 1
                &&& final(self).entries_seq().last().peer == *peer
                &&& final(self).entries_seq().last().state is Pending
                &&& exists|i: int|
                    {
                        &&& 0 <= i < old(self).entries_seq().len()
                        &&& (#[trigger] old(self).entries_seq()[i]).peer == *peer
                        &&& old(self).entries_seq()[i].state is Pending
                        &&& final(self).entries_seq().drop_last()
                            == old(self).entries_seq().remove(i)
                    }
            },
            !has_pending(old(self).entries_seq(), *peer) ==> r is None && final(self).entries_seq()
                == old(self).entries_seq(),
    {
        let ghost old_entries = self.entries@;
        match self.find(peer) {
            Some(i) => {
                if matches!(self.entries[i].state, ProbeState::Pending(_)) {
                    proof {
                        assert(forall|j: int|
                            0 <= j < old_entries.len() && j != i ==> (
                            #[trigger] old_entries[j]).peer != *peer);
                        assert(has_pending(old_entries, *peer));
                    }
                    let _abandoned = self.entries.remove(i);
                    let (probe_done, subscription) = new_probe_signal();
                    self.entries.push(
                        LivenessEntry { peer: *peer, state: ProbeState::Pending(subscription) },
                    );
                    proof {
                        assert(self.entries@.drop_last() =~= old_entries.remove(i as int));
                        assert(has_pending(self.entries@, *peer)) by {
                            assert(self.entries@.last().peer == *peer);
                        }
                    }
                    Some(probe_done)
                } else {
                    proof {
                        assert(forall|j: int|
                            0 <= j < old_entries.len() && j != i ==> (
                            #[trigger] old_entries[j]).peer != *peer);
                        assert(!has_pending(old_entries, *peer));
                    }
                    None
                }
            },
            None => {
                proof {
                    assert(!has_pending(old_entries, *peer));
                }
                None
            },
        }
    }

    /// Store the outcome of the probe of `peer` that completed at `now`.
    ///
    /// The entry for `peer` — pending or not — is replaced by the resolved
    /// outcome with a fresh time to live; if the entry was evicted while
    /// the probe ran, the outcome is stored anew, evicting the least
    /// recently used entry when full.
    pub fn complete_probe(&mut self, peer: &NodeInfo, status: NodeStatus, now: u64)
        requires
            old(self).wf(),
        ensures
            final(self).wf(),
            final(self).spec_capacity() == old(self).spec_capacity(),
            final(self).spec_ttl_ms() == old(self).spec_ttl_ms(),
            final(self).entries_seq().len() >= 1,
            final(self).entries_seq().last() == (LivenessEntry {
                peer: *peer,
                state: ProbeState::Resolved { status, stored_at: now },
            }),
            has_fresh(final(self).entries_seq(), *peer, now, final(self).spec_ttl_ms())
                || final(self).spec_ttl_ms() == 0,
            (if has_peer(old(self).entries_seq(), *peer) {
                exists|i: int|
                    {
                        &&& 0 <= i < old(self).entries_seq().len()
                        &&& (#[trigger] old(self).entries_seq()[i]).peer == *peer
                        &&& final(self).entries_seq().drop_last()
                            == old(self).entries_seq().remove(i)
                    }
            } else if old(self).entries_seq().len() == old(self).spec_capacity() {
                final(self).entries_seq().drop_last() == old(self).entries_seq().remove(0)
            } else {
                final(self).entries_seq().drop_last() == old(self).entries_seq()
            }),
    {
        let ghost old_entries = self.entries@;
        match self.find(peer) {
            Some(i) => {
                proof {
                    assert(forall|j: int|
                        0 <= j < old_entries.len() && j != i ==> (#[trigger] old_entries[j]).peer
                            != *peer);
                }
                let _previous = self.entries.remove(i);
                self.entries.push(
                    LivenessEntry { peer: *peer, state: ProbeState::Resolved { status, stored_at: now } },
                );
                proof {
                    assert(self.entries@.drop_last() =~= old_entries.remove(i as int));
                }
            },
            None => {
                if self.entries.len() == self.capacity {
                    let _evicted = self.entries.remove(0);
                }
                self.entries.push(
                    LivenessEntry { peer: *peer, state: ProbeState::Resolved { status, stored_at: now } },
                );
                proof {
                    if old_entries.len() == self.capacity {
                        assert(self.entries@.drop_last() =~= old_entries.remove(0));
                    } else {
                        assert(self.entries@.drop_last() =~= old_entries);
                    }
                }
            },
        }
        proof {
            if self.ttl_ms > 0 {
                assert(state_fresh(self.entries@.last().state, now, self.ttl_ms));
                assert(has_fresh(self.entries@, *peer, now, self.ttl_ms)) by {
                    assert(self.entries@.last().peer == *peer);
                }
            }
        }
    }
}

} // verus!
