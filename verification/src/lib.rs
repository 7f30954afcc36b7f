//! Incremental sorted-merge containers.
//!
//! A `SlicesMerger` (or `SlicesMergerReduce`) maintains one sorted collection
//! that is repeatedly merged with new, already-sorted batches. Each update
//! drains the current front buffer, merges it with the incoming batch in one
//! two-pointer pass, writes the result into the other buffer, and flips which
//! buffer is the front: the two buffers ping-pong, so old memory is reused as
//! the next scratch space and no update allocates beyond buffer growth.
//!
//! The merge is driven by a caller-supplied partial-order [`order::Comparator`]
//! and, for elements whose keys compare equal across the two streams, by a
//! caller-supplied [`order::Reducer`] that collapses the pair into one entry.

pub mod merge;
pub mod merger;
pub mod order;
