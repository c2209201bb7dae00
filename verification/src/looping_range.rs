//! Circular ("looping") containment test over the 64-bit ring identifier
//! space.
//!
//! A range whose start lies at or beyond its end does not denote the empty
//! range, as it would for an ordinary ordered range: it wraps around the top
//! of the identifier space. This is the sole primitive underlying successor
//! selection; every lookup decision reduces to it.

use vstd::prelude::*;

verus! {

/// One end of a ring interval, mirroring the three kinds of ordinary range
/// bounds.
#[derive(Clone, Copy, PartialEq, Eq, Structural, Debug)]
pub enum IdBound {
    Included(u64),
    Excluded(u64),
    Unbounded,
}

/// An interval over ring identifiers, possibly wrapping.
#[derive(Clone, Copy, PartialEq, Eq, Structural, Debug)]
pub struct IdRange {
    pub start: IdBound,
    pub end: IdBound,
}

/// Whether `v` satisfies the start bound of an interval, read as an ordinary
/// (non-circular) lower bound.
pub open spec fn above_start(start: IdBound, v: u64) -> bool {
    match start {
        IdBound::Included(a) => a <= v,
        IdBound::Excluded(a) => a < v,
        IdBound::Unbounded => true,
    }
}

/// Whether `v` satisfies the end bound of an interval, read as an ordinary
/// (non-circular) upper bound.
pub open spec fn below_end(end: IdBound, v: u64) -> bool {
    match end {
        IdBound::Included(b) => v <= b,
        IdBound::Excluded(b) => v < b,
        IdBound::Unbounded => true,
    }
}

/// Ordinary (non-circular) range containment, with the usual meaning of each
/// bound kind.
pub open spec fn plain_contains(start: IdBound, end: IdBound, v: u64) -> bool {
    above_start(start, v) && below_end(end, v)
}

/// Whether the interval is classified as wrapping: its bounds, compared as an
/// ordinary ordered range would compare them to determine emptiness, are
/// reversed. An interval with an unbounded side never wraps.
pub open spec fn is_reversed(start: IdBound, end: IdBound) -> bool {
    match (start, end) {
        (IdBound::Included(a), IdBound::Included(b)) => a > b,
        (IdBound::Included(a), IdBound::Excluded(b)) => a >= b,
        (IdBound::Excluded(a), IdBound::Included(b)) => a >= b,
        (IdBound::Excluded(a), IdBound::Excluded(b)) => a >= b,
        _ => false,
    }
}

/// Circular containment: a reversed interval is split at the top of the
/// identifier space into `[start, +inf)` and `(-inf, end]` and `v` may fall
/// in either half; a non-reversed interval contains exactly what the
/// ordinary range contains.
pub open spec fn spec_contains_looping(start: IdBound, end: IdBound, v: u64) -> bool {
    if is_reversed(start, end) {
        above_start(start, v) || below_end(end, v)
    } else {
        plain_contains(start, end, v)
    }
}

/// Containment test over the ring, for any type that denotes an interval of
/// ring identifiers.
pub trait LoopingRange {
    /// The start bound of the interval this value denotes.
    spec fn start_bound(&self) -> IdBound;

    /// The end bound of the interval this value denotes.
    spec fn end_bound(&self) -> IdBound;

    /// Whether `value` lies in the interval, wrapping around the top of the
    /// identifier space when the bounds are reversed.
    fn contains_looping(&self, value: u64) -> (r: bool)
        ensures
            r == spec_contains_looping(self.start_bound(), self.end_bound(), value),
    ;
}

impl LoopingRange for IdRange {
    open spec fn start_bound(&self) -> IdBound {
        self.start
    }

    open spec fn end_bound(&self) -> IdBound {
        self.end
    }

    fn contains_looping(&self, value: u64) -> (r: bool) {
        let is_reverse = match (self.start, self.end) {
            (IdBound::Included(a), IdBound::Included(b)) => a > b,
            (IdBound::Included(a), IdBound::Excluded(b)) => a >= b,
            (IdBound::Excluded(a), IdBound::Included(b)) => a >= b,
            (IdBound::Excluded(a), IdBound::Excluded(b)) => a >= b,
            _ => false,
        };
        if is_reverse {
            let above = match self.start {
                IdBound::Included(a) => a <= value,
                IdBound::Excluded(a) => a < value,
                IdBound::Unbounded => true,
            };
            let below = match self.end {
                IdBound::Included(b) => value <= b,
                IdBound::Excluded(b) => value < b,
                IdBound::Unbounded => true,
            };
            above || below
        } else {
            let above = match self.start {
                IdBound::Included(a) => a <= value,
                IdBound::Excluded(a) => a < value,
                IdBound::Unbounded => true,
            };
            let below = match self.end {
                IdBound::Included(b) => value <= b,
                IdBound::Excluded(b) => value < b,
                IdBound::Unbounded => true,
            };
            above && below
        }
    }
}

/// An ascending interval contains exactly what the ordinary range contains.
///
/// The one family of bounded intervals excluded here is `a == b` with an
/// excluded side: such an interval is classified as reversed (it would be
/// empty as an ordinary range) and wraps instead.
pub proof fn lemma_ascending_matches_plain_range(a: u64, b: u64, start: IdBound, end: IdBound, v: u64)
    requires
        a <= b,
        start == IdBound::Included(a) || start == IdBound::Excluded(a),
        end == IdBound::Included(b) || end == IdBound::Excluded(b),
        a == b ==> start == IdBound::Included(a) && end == IdBound::Included(b),
    ensures
        spec_contains_looping(start, end, v) == plain_contains(start, end, v),
{
}

/// An unbounded side never wraps, so containment is always the ordinary one.
pub proof fn lemma_unbounded_matches_plain_range(start: IdBound, end: IdBound, v: u64)
    requires
        start == IdBound::Unbounded || end == IdBound::Unbounded,
    ensures
        spec_contains_looping(start, end, v) == plain_contains(start, end, v),
{
}

/// A wrapping closed interval `[a, b]` with `a > b` contains exactly the
/// values at or above `a` together with the values at or below `b`.
pub proof fn lemma_wrapped_closed_range_splits(a: u64, b: u64, v: u64)
    requires
        a > b,
    ensures
        spec_contains_looping(IdBound::Included(a), IdBound::Included(b), v) == (v >= a || v <= b),
{
}

} // verus!
