use chord::looping_range::{IdBound, IdRange, LoopingRange};

fn closed(a: u64, b: u64) -> IdRange {
    IdRange { start: IdBound::Included(a), end: IdBound::Included(b) }
}

fn half_open(a: u64, b: u64) -> IdRange {
    IdRange { start: IdBound::Included(a), end: IdBound::Excluded(b) }
}

#[test]
fn test_contains_looping() {
    let range = closed(1, 5);
    assert!(!range.contains_looping(0));
    assert!(range.contains_looping(1));
    assert!(range.contains_looping(2));
    assert!(range.contains_looping(3));
    assert!(range.contains_looping(4));
    assert!(range.contains_looping(5));
    assert!(!range.contains_looping(6));

    let range = closed(5, 1);
    assert!(range.contains_looping(0));
    assert!(range.contains_looping(1));
    assert!(!range.contains_looping(2));
    assert!(!range.contains_looping(3));
    assert!(!range.contains_looping(4));
    assert!(range.contains_looping(5));
    assert!(range.contains_looping(6));

    let range = half_open(1, 5);
    assert!(!range.contains_looping(0));
    assert!(range.contains_looping(1));
    assert!(range.contains_looping(2));
    assert!(range.contains_looping(3));
    assert!(range.contains_looping(4));
    assert!(!range.contains_looping(5));
    assert!(!range.contains_looping(6));

    let range = half_open(5, 1);
    assert!(range.contains_looping(0));
    assert!(!range.contains_looping(1));
    assert!(!range.contains_looping(2));
    assert!(!range.contains_looping(3));
    assert!(!range.contains_looping(4));
    assert!(range.contains_looping(5));
    assert!(range.contains_looping(6));
}

#[test]
fn wrapping_closed_interval_splits_at_the_top() {
    // Closed interval 5..=1 over the identifiers 0..=6: exactly
    // {0, 1, 5, 6} are contained.
    let range = closed(5, 1);
    for v in [0u64, 1, 5, 6] {
        assert!(range.contains_looping(v));
    }
    for v in [2u64, 3, 4] {
        assert!(!range.contains_looping(v));
    }
}

#[test]
fn unbounded_sides_never_wrap() {
    let from_five = IdRange { start: IdBound::Included(5), end: IdBound::Unbounded };
    assert!(!from_five.contains_looping(4));
    assert!(from_five.contains_looping(5));
    assert!(from_five.contains_looping(u64::MAX));

    let up_to_five = IdRange { start: IdBound::Unbounded, end: IdBound::Excluded(5) };
    assert!(up_to_five.contains_looping(0));
    assert!(up_to_five.contains_looping(4));
    assert!(!up_to_five.contains_looping(5));

    let everything = IdRange { start: IdBound::Unbounded, end: IdBound::Unbounded };
    assert!(everything.contains_looping(0));
    assert!(everything.contains_looping(u64::MAX));
}

#[test]
fn empty_looking_excluded_interval_wraps_instead() {
    // (5, 5) would be empty as an ordinary range; as a ring interval it
    // is classified reversed and covers everything but 5 itself.
    let range = IdRange { start: IdBound::Excluded(5), end: IdBound::Excluded(5) };
    assert!(range.contains_looping(0));
    assert!(range.contains_looping(4));
    assert!(!range.contains_looping(5));
    assert!(range.contains_looping(6));

    // [5, 5] is an ordinary singleton.
    let range = closed(5, 5);
    assert!(range.contains_looping(5));
    assert!(!range.contains_looping(4));
    assert!(!range.contains_looping(6));
}

#[test]
fn full_ring_boundaries() {
    // (x, x] covers the whole ring: it wraps and one side always holds.
    let range = IdRange { start: IdBound::Excluded(10), end: IdBound::Included(10) };
    assert!(range.contains_looping(10));
    assert!(range.contains_looping(11));
    assert!(range.contains_looping(9));
    assert!(range.contains_looping(0));
    assert!(range.contains_looping(u64::MAX));
}
