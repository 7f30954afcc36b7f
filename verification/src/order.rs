//! Comparison and reduction capabilities used by the merge.

use core::cmp::Ordering;
use vstd::prelude::*;

verus! {

/// A caller-supplied partial order over `T`.
///
/// A comparator may return `None` for incomparable elements; the merge treats
/// `None` as "left operand sorts before right operand" (an explicit tie-break
/// policy, not an accidental fallthrough).
pub trait Comparator<T> {
    /// The mathematical meaning of one comparison.
    spec fn compare_spec(&self, a: T, b: T) -> Option<Ordering>;

    /// Compares two elements; the result is exactly `compare_spec`.
    fn compare(&self, a: &T, b: &T) -> (r: Option<Ordering>)
        ensures
            r == self.compare_spec(*a, *b),
    ;
}

/// A caller-supplied, fallible combiner for two elements whose keys compare
/// equal across the two merged streams. On success the existing element (the
/// in-place accumulator) holds the combined entry and the incoming element is
/// consumed.
pub trait Reducer<T> {
    /// The error a reduction may fail with.
    type Error;

    /// The mathematical meaning of one reduction: either the combined element
    /// or the error the reduction fails with.
    spec fn reduce_spec(&self, existing: T, incoming: T) -> Result<T, Self::Error>;

    /// Combines `incoming` into `existing`; the outcome is exactly
    /// `reduce_spec` on the two input elements.
    fn reduce(&self, existing: &mut T, incoming: T) -> (res: Result<(), Self::Error>)
        ensures
            match self.reduce_spec(*old(existing), incoming) {
                Ok(combined) => res is Ok && *final(existing) == combined,
                Err(e) => res == Err::<(), Self::Error>(e),
            },
    ;
}

/// The reducer used when none is supplied: keep the existing element, discard
/// the incoming one (first-seen wins). It never fails.
pub struct KeepExisting;

impl<T> Reducer<T> for KeepExisting {
    type Error = ();

    open spec fn reduce_spec(&self, existing: T, incoming: T) -> Result<T, ()> {
        Ok(existing)
    }

    fn reduce(&self, existing: &mut T, _incoming: T) -> (res: Result<(), ()>) {
        Ok(())
    }
}

/// The comparator used by the default `add` entry points: the natural total
/// order of the element type.
pub struct DefaultComparator;

impl Comparator<i32> for DefaultComparator {
    open spec fn compare_spec(&self, a: i32, b: i32) -> Option<Ordering> {
        if a < b {
            Some(Ordering::Less)
        } else if a == b {
            Some(Ordering::Equal)
        } else {
            Some(Ordering::Greater)
        }
    }

    fn compare(&self, a: &i32, b: &i32) -> (r: Option<Ordering>) {
        if *a < *b {
            Some(Ordering::Less)
        } else if *a == *b {
            Some(Ordering::Equal)
        } else {
            Some(Ordering::Greater)
        }
    }
}

impl Comparator<i64> for DefaultComparator {
    open spec fn compare_spec(&self, a: i64, b: i64) -> Option<Ordering> {
        if a < b {
            Some(Ordering::Less)
        } else if a == b {
            Some(Ordering::Equal)
        } else {
            Some(Ordering::Greater)
        }
    }

    fn compare(&self, a: &i64, b: &i64) -> (r: Option<Ordering>) {
        if *a < *b {
            Some(Ordering::Less)
        } else if *a == *b {
            Some(Ordering::Equal)
        } else {
            Some(Ordering::Greater)
        }
    }
}

impl Comparator<u32> for DefaultComparator {
    open spec fn compare_spec(&self, a: u32, b: u32) -> Option<Ordering> {
        if a < b {
            Some(Ordering::Less)
        } else if a == b {
            Some(Ordering::Equal)
        } else {
            Some(Ordering::Greater)
        }
    }

    fn compare(&self, a: &u32, b: &u32) -> (r: Option<Ordering>) {
        if *a < *b {
            Some(Ordering::Less)
        } else if *a == *b {
            Some(Ordering::Equal)
        } else {
            Some(Ordering::Greater)
        }
    }
}

impl Comparator<u64> for DefaultComparator {
    open spec fn compare_spec(&self, a: u64, b: u64) -> Option<Ordering> {
        if a < b {
            Some(Ordering::Less)
        } else if a == b {
            Some(Ordering::Equal)
        } else {
            Some(Ordering::Greater)
        }
    }

    fn compare(&self, a: &u64, b: &u64) -> (r: Option<Ordering>) {
        if *a < *b {
            Some(Ordering::Less)
        } else if *a == *b {
            Some(Ordering::Equal)
        } else {
            Some(Ordering::Greater)
        }
    }
}

impl Comparator<usize> for DefaultComparator {
    open spec fn compare_spec(&self, a: usize, b: usize) -> Option<Ordering> {
        if a < b {
            Some(Ordering::Less)
        } else if a == b {
            Some(Ordering::Equal)
        } else {
            Some(Ordering::Greater)
        }
    }

    fn compare(&self, a: &usize, b: &usize) -> (r: Option<Ordering>) {
        if *a < *b {
            Some(Ordering::Less)
        } else if *a == *b {
            Some(Ordering::Equal)
        } else {
            Some(Ordering::Greater)
        }
    }
}

} // verus!
