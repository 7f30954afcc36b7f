use slices_merger::merger::{SlicesMerger, SlicesMergerReduce};
use slices_merger::order::{Comparator, Reducer};
use std::cmp::Ordering;

struct PairSum;

impl Reducer<(i32, i32)> for PairSum {
    type Error = ();

    fn reduce_spec(&self, mut existing: (i32, i32), incoming: (i32, i32)) -> Result<(i32, i32), ()> {
        self.reduce(&mut existing, incoming).map(|()| existing)
    }

    fn reduce(&self, existing: &mut (i32, i32), incoming: (i32, i32)) -> Result<(), ()> {
        existing.1 += incoming.1;
        Ok(())
    }
}

struct FirstKey;

impl Comparator<(i32, i32)> for FirstKey {
    fn compare_spec(&self, a: (i32, i32), b: (i32, i32)) -> Option<Ordering> {
        self.compare(&a, &b)
    }

    fn compare(&self, a: &(i32, i32), b: &(i32, i32)) -> Option<Ordering> {
        a.0.partial_cmp(&b.0)
    }
}

#[test]
fn basic() {
    let mut merger = SlicesMerger::new();
    assert_eq!(merger.len(), 0);
    merger.add(vec![1, 3, 4, 5, 7]);
    assert_eq!(&merger.front()[..], &[1, 3, 4, 5, 7]);
    merger.add(vec![6]);
    assert_eq!(&merger.front()[..], &[1, 3, 4, 5, 6, 7]);
    merger.add(vec![0]);
    assert_eq!(&merger.front()[..], &[0, 1, 3, 4, 5, 6, 7]);
    merger.add(vec![8]);
    assert_eq!(&merger.front()[..], &[0, 1, 3, 4, 5, 6, 7, 8]);
    merger.add(vec![2, 4, 5, 6, 7, 8, 9]);
    assert_eq!(&merger.front()[..], &[0, 1, 2, 3, 4, 5, 6, 7, 8, 9]);
    merger.reset();
    merger.add(vec![4]);
    assert_eq!(&merger.front()[..], &[4]);
}

#[test]
fn reduce() {
    let mut merger = SlicesMergerReduce::new(PairSum);
    assert_eq!(merger.len(), 0);
    merger
        .add_by(vec![(1, 1), (3, 1), (4, 1), (5, 1), (7, 1)], &FirstKey)
        .unwrap();
    assert_eq!(&merger.front()[..], &[(1, 1), (3, 1), (4, 1), (5, 1), (7, 1)]);
    merger
        .add_by(
            vec![(2, 1), (4, 1), (5, 1), (6, 1), (7, 1), (8, 1), (9, 1)],
            &FirstKey,
        )
        .unwrap();
    assert_eq!(
        &merger.front()[..],
        &[
            (1, 1),
            (2, 1),
            (3, 1),
            (4, 2),
            (5, 2),
            (6, 1),
            (7, 2),
            (8, 1),
            (9, 1)
        ]
    );
}

#[test]
fn from_finish() {
    let mut merger = SlicesMerger::from(vec![1, 3, 4, 5, 7]);
    merger.add(vec![2, 4, 5, 6, 7, 8, 9]);
    assert_eq!(merger.finish(), vec![1, 2, 3, 4, 5, 6, 7, 8, 9]);
}
