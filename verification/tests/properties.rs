use slices_merger::merger::{SlicesMerger, SlicesMergerReduce};
use slices_merger::order::{Comparator, Reducer};
use std::cmp::Ordering;

struct PairSum;

impl Reducer<(i32, i32)> for PairSum {
    type Error = ();

    fn reduce_spec(&self, mut existing: (i32, i32), incoming: (i32, i32)) -> Result<(i32, i32), ()> {
        self.reduce(&mut existing, incoming).map(|()| existing)
    }

    fn reduce(&self, existing: &mut (i32, i32), incoming: (i32, i32)) -> Result<(), ()> {
        existing.1 += incoming.1;
        Ok(())
    }
}

struct FirstKey;

impl Comparator<(i32, i32)> for FirstKey {
    fn compare_spec(&self, a: (i32, i32), b: (i32, i32)) -> Option<Ordering> {
        self.compare(&a, &b)
    }

    fn compare(&self, a: &(i32, i32), b: &(i32, i32)) -> Option<Ordering> {
        a.0.partial_cmp(&b.0)
    }
}

/// A reducer that refuses every equal-keyed pair.
struct RejectEqual;

impl Reducer<i32> for RejectEqual {
    type Error = i32;

    fn reduce_spec(&self, mut existing: i32, incoming: i32) -> Result<i32, i32> {
        self.reduce(&mut existing, incoming).map(|()| existing)
    }

    fn reduce(&self, existing: &mut i32, _incoming: i32) -> Result<(), i32> {
        Err(*existing)
    }
}

/// A comparator that calls every pair incomparable.
struct NoOrder;

impl Comparator<i32> for NoOrder {
    fn compare_spec(&self, a: i32, b: i32) -> Option<Ordering> {
        self.compare(&a, &b)
    }

    fn compare(&self, _a: &i32, _b: &i32) -> Option<Ordering> {
        None
    }
}

struct NaturalOrder;

impl Comparator<i32> for NaturalOrder {
    fn compare_spec(&self, a: i32, b: i32) -> Option<Ordering> {
        self.compare(&a, &b)
    }

    fn compare(&self, a: &i32, b: &i32) -> Option<Ordering> {
        a.partial_cmp(b)
    }
}

#[test]
fn default_dedup_keeps_existing() {
    let mut merger = SlicesMerger::from(vec![1, 3, 5]);
    merger.add(vec![3]);
    assert_eq!(&merger.front()[..], &[1, 3, 5]);
}

#[test]
fn within_batch_duplicates_survive() {
    let mut merger = SlicesMerger::from(vec![1, 3, 5]);
    merger.add(vec![3, 3]);
    // one 3 collapses against the front's 3; the batch's own duplicate stays
    assert_eq!(&merger.front()[..], &[1, 3, 3, 5]);
}

#[test]
fn seeded_view_without_update() {
    let merger = SlicesMerger::from(vec![1, 3, 4, 5, 7]);
    assert_eq!(&merger.front()[..], &[1, 3, 4, 5, 7]);
    assert_eq!(merger.len(), 5);
}

#[test]
fn seeded_with_capacity() {
    let mut merger = SlicesMerger::from_with_capacity(vec![1, 3, 5], 16);
    assert_eq!(&merger.front()[..], &[1, 3, 5]);
    merger.add(vec![2]);
    assert_eq!(&merger.front()[..], &[1, 2, 3, 5]);
}

#[test]
fn with_capacity_starts_empty() {
    let mut merger: SlicesMerger<i32> = SlicesMerger::with_capacity(8);
    assert_eq!(merger.len(), 0);
    merger.add(vec![5, 6]);
    assert_eq!(&merger.front()[..], &[5, 6]);
}

#[test]
fn reset_clears_and_container_stays_usable() {
    let mut merger = SlicesMerger::new();
    merger.add(vec![1, 2, 3]);
    merger.add(vec![0, 4]);
    merger.reset();
    assert_eq!(merger.len(), 0);
    merger.add(vec![4]);
    assert_eq!(&merger.front()[..], &[4]);
}

#[test]
fn finish_equals_front_view() {
    let mut merger = SlicesMerger::new();
    merger.add(vec![2, 9]);
    merger.add(vec![4]);
    let viewed: Vec<i32> = merger.front().clone();
    assert_eq!(merger.finish(), viewed);
}

#[test]
fn empty_update_on_empty_container() {
    let mut merger: SlicesMerger<i32> = SlicesMerger::new();
    merger.add(vec![]);
    assert_eq!(merger.len(), 0);
    assert_eq!(&merger.front()[..], &[] as &[i32]);
}

#[test]
fn reduce_failure_reports_error() {
    let mut merger = SlicesMergerReduce::new(RejectEqual);
    merger.add_by(vec![1, 4, 7], &NaturalOrder).unwrap();
    // 4 meets 4 across the streams: the reducer refuses the pair
    assert_eq!(merger.add_by(vec![4, 9], &NaturalOrder), Err(4));
    // after a failed update the container recovers through reset
    merger.reset();
    assert_eq!(merger.len(), 0);
    merger.add_by(vec![2], &NaturalOrder).unwrap();
    assert_eq!(&merger.front()[..], &[2]);
}

#[test]
fn incomparable_pairs_keep_front_first() {
    let mut merger = SlicesMergerReduce::new(RejectEqual);
    merger.add_by(vec![2], &NoOrder).unwrap();
    // every comparison answers None: the drained front is emitted first
    merger.add_by(vec![1], &NoOrder).unwrap();
    assert_eq!(&merger.front()[..], &[2, 1]);
}

#[test]
fn reduce_sums_across_streams_only() {
    let mut merger = SlicesMergerReduce::with_capacity(PairSum, 4);
    // a batch with equal keys inside it is not collapsed against itself
    merger.add_by(vec![(1, 1), (1, 2)], &FirstKey).unwrap();
    assert_eq!(&merger.front()[..], &[(1, 1), (1, 2)]);
    // across the two streams the first pair reduces, the batch duplicate stays
    merger.add_by(vec![(1, 10)], &FirstKey).unwrap();
    assert_eq!(&merger.front()[..], &[(1, 11), (1, 2)]);
}

#[test]
fn cloning_update_leaves_batch_untouched() {
    let mut merger = SlicesMerger::from(vec![1, 5]);
    let batch = vec![3, 5, 9];
    merger.add_cloned(&batch);
    assert_eq!(&merger.front()[..], &[1, 3, 5, 9]);
    assert_eq!(batch, vec![3, 5, 9]);
}

#[test]
fn cloning_update_with_comparator_and_reducer() {
    let mut merger = SlicesMergerReduce::new(PairSum);
    let first = vec![(1, 1), (4, 1)];
    let second = vec![(4, 2), (6, 1)];
    merger.add_cloned_by(&first, &FirstKey).unwrap();
    merger.add_cloned_by(&second, &FirstKey).unwrap();
    assert_eq!(&merger.front()[..], &[(1, 1), (4, 3), (6, 1)]);
    assert_eq!(first, vec![(1, 1), (4, 1)]);
    assert_eq!(second, vec![(4, 2), (6, 1)]);
}

#[test]
fn alternating_updates_ping_pong() {
    let mut merger = SlicesMergerReduce::new(PairSum);
    merger.add_by(vec![(2, 1)], &FirstKey).unwrap();
    merger.add_by(vec![(1, 1)], &FirstKey).unwrap();
    merger.add_by(vec![(3, 1)], &FirstKey).unwrap();
    merger.add_by(vec![(2, 5)], &FirstKey).unwrap();
    assert_eq!(&merger.front()[..], &[(1, 1), (2, 6), (3, 1)]);
    assert_eq!(merger.finish(), vec![(1, 1), (2, 6), (3, 1)]);
}
