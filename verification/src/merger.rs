//! The double-buffer merge containers.

use crate::merge::{lemma_merge_total, merge_spec, union_into};
use crate::order::{Comparator, DefaultComparator, KeepExisting, Reducer};
use vstd::prelude::*;

verus! {

/// Which of the two buffers is the authoritative front. `StateInit` behaves
/// like `StateB` (front is buffer `a`), but records that no update has
/// completed since construction or the last `reset`; the front it designates
/// is then empty, and the first update drains nothing.
enum Switch {
    StateInit,
    StateA,
    StateB,
}

/// A sorted collection maintained by repeated merges with new, already-sorted
/// batches, collapsing equal-keyed pairs across the two merged streams with
/// the reducer `R`.
///
/// The two buffers ping-pong: each update drains the current front buffer,
/// merges it with the incoming batch into the other buffer, and flips the
/// front designation, so old memory is reused as the next scratch space.
///
/// The view (`@`) of the container is the contents of the current front
/// buffer.
pub struct SlicesMergerReduce<T, R> {
    reducer: R,
    switch: Switch,
    union_buf_a: Vec<T>,
    union_buf_b: Vec<T>,
}

impl<T, R> View for SlicesMergerReduce<T, R> {
    type V = Seq<T>;

    closed spec fn view(&self) -> Seq<T> {
        match self.switch {
            Switch::StateA => self.union_buf_b@,
            Switch::StateB | Switch::StateInit => self.union_buf_a@,
        }
    }
}

impl<T, R> SlicesMergerReduce<T, R> {
    /// The reducer the container was built with.
    pub closed spec fn reducer(&self) -> R {
        self.reducer
    }

    /// An empty container using `reducer` for equal-keyed pairs.
    pub fn new(reducer: R) -> (this: SlicesMergerReduce<T, R>)
        ensures
            this@ == Seq::<T>::empty(),
            this.reducer() == reducer,
    {
        SlicesMergerReduce {
            reducer,
            switch: Switch::StateInit,
            union_buf_a: Vec::new(),
            union_buf_b: Vec::new(),
        }
    }

    /// An empty container whose buffers both pre-reserve room for `capacity`
    /// elements.
    pub fn with_capacity(reducer: R, capacity: usize) -> (this: SlicesMergerReduce<T, R>)
        ensures
            this@ == Seq::<T>::empty(),
            this.reducer() == reducer,
    {
        SlicesMergerReduce {
            reducer,
            switch: Switch::StateInit,
            union_buf_a: Vec::with_capacity(capacity),
            union_buf_b: Vec::with_capacity(capacity),
        }
    }

    /// A container seeded with a presumed-sorted `init_vec`, which becomes
    /// the front directly: no merge pass is performed. The back buffer
    /// pre-reserves one element more than the seed's length.
    pub fn from(init_vec: Vec<T>, reducer: R) -> (this: SlicesMergerReduce<T, R>)
        requires
            init_vec@.len() < usize::MAX,
        ensures
            this@ == init_vec@,
            this.reducer() == reducer,
    {
        SlicesMergerReduce {
            reducer,
            switch: Switch::StateB,
            union_buf_b: Vec::with_capacity(init_vec.len() + 1),
            union_buf_a: init_vec,
        }
    }

    /// Like [`Self::from`], with an explicit reservation for the back buffer.
    pub fn from_with_capacity(init_vec: Vec<T>, reducer: R, capacity: usize) -> (this:
        SlicesMergerReduce<T, R>)
        ensures
            this@ == init_vec@,
            this.reducer() == reducer,
    {
        SlicesMergerReduce {
            reducer,
            switch: Switch::StateB,
            union_buf_b: Vec::with_capacity(capacity),
            union_buf_a: init_vec,
        }
    }

    /// Empties the container and returns it to its never-merged state. The
    /// buffers' backing capacity is retained for the next burst of work.
    pub fn reset(&mut self)
        ensures
            final(self)@ == Seq::<T>::empty(),
            final(self).reducer() == old(self).reducer(),
    {
        self.switch = Switch::StateInit;
        self.union_buf_a.clear();
    }

    /// The number of elements currently in the front buffer.
    pub fn len(&self) -> (n: usize)
        ensures
            n == self@.len(),
    {
        match self.switch {
            Switch::StateA => self.union_buf_b.len(),
            Switch::StateB | Switch::StateInit => self.union_buf_a.len(),
        }
    }

    /// A read-only view of the current front buffer.
    pub fn front(&self) -> (r: &Vec<T>)
        ensures
            r@ == self@,
    {
        match self.switch {
            Switch::StateA => &self.union_buf_b,
            Switch::StateB | Switch::StateInit => &self.union_buf_a,
        }
    }

    /// Consumes the container and returns the front buffer as an owned
    /// vector; the back buffer's allocation is dropped.
    pub fn finish(self) -> (r: Vec<T>)
        ensures
            r@ == self@,
    {
        match self.switch {
            Switch::StateA => self.union_buf_b,
            Switch::StateB | Switch::StateInit => self.union_buf_a,
        }
    }
}

impl<T, R: Reducer<T>> SlicesMergerReduce<T, R> {
    /// Merges the presumed-sorted batch `items` into the collection using the
    /// natural order of `T`, collapsing equal-keyed cross-stream pairs with
    /// the container's reducer. See [`Self::add_by`].
    pub fn add(&mut self, items: Vec<T>) -> (res: Result<(), R::Error>) where
        DefaultComparator: Comparator<T>,

        ensures
            match merge_spec(DefaultComparator, old(self).reducer(), old(self)@, items@) {
                Ok(s) => res is Ok && final(self)@ == s,
                Err(e) => res == Err::<(), R::Error>(e),
            },
            final(self).reducer() == old(self).reducer(),
    {
        self.add_by(items, &DefaultComparator)
    }

    /// Merges the presumed-sorted batch `items` into the collection, as one
    /// pass of the two-stream merge described by
    /// [`merge_spec`](crate::merge::merge_spec) under `comp` and the
    /// container's reducer: the front view afterwards is the comparator-sorted
    /// union of the front view before the call and `items`, with equal-keyed
    /// cross-stream pairs collapsed by the reducer.
    ///
    /// On a reduction failure the error is returned and the container is left
    /// mid-update: the front holds only the part of the merge emitted before
    /// the failure, and the caller should `reset` or otherwise recover.
    pub fn add_by<C: Comparator<T>>(&mut self, items: Vec<T>, comp: &C) -> (res: Result<
        (),
        R::Error,
    >)
        ensures
            match merge_spec(*comp, old(self).reducer(), old(self)@, items@) {
                Ok(s) => res is Ok && final(self)@ == s,
                Err(e) => res == Err::<(), R::Error>(e),
            },
            final(self).reducer() == old(self).reducer(),
    {
        match self.switch {
            Switch::StateA => {
                self.switch = Switch::StateB;
                union_into(
                    &mut self.union_buf_a,
                    &mut self.union_buf_b,
                    items,
                    comp,
                    &self.reducer,
                )
            },
            Switch::StateB | Switch::StateInit => {
                self.switch = Switch::StateA;
                union_into(
                    &mut self.union_buf_b,
                    &mut self.union_buf_a,
                    items,
                    comp,
                    &self.reducer,
                )
            },
        }
    }

    /// The borrowing shape of [`Self::add`]: the caller keeps the batch, and
    /// the merge consumes a clone of each batch element, in batch order.
    pub fn add_cloned(&mut self, items: &Vec<T>) -> (res: Result<(), R::Error>) where
        T: Clone,
        DefaultComparator: Comparator<T>,

        ensures
            exists|batch: Seq<T>|
                {
                    &&& #[trigger] batch.len() == items@.len()
                    &&& (forall|i: int| 0 <= i < batch.len() ==> cloned(items@[i], batch[i]))
                    &&& match merge_spec(
                        DefaultComparator,
                        old(self).reducer(),
                        old(self)@,
                        batch,
                    ) {
                        Ok(s) => res is Ok && final(self)@ == s,
                        Err(e) => res == Err::<(), R::Error>(e),
                    }
                },
            final(self).reducer() == old(self).reducer(),
    {
        self.add_cloned_by(items, &DefaultComparator)
    }

    /// The borrowing shape of [`Self::add_by`]: the caller keeps the batch,
    /// and the merge consumes a clone of each batch element, in batch order.
    pub fn add_cloned_by<C: Comparator<T>>(&mut self, items: &Vec<T>, comp: &C) -> (res: Result<
        (),
        R::Error,
    >) where T: Clone
        ensures
            exists|batch: Seq<T>|
                {
                    &&& #[trigger] batch.len() == items@.len()
                    &&& (forall|i: int| 0 <= i < batch.len() ==> cloned(items@[i], batch[i]))
                    &&& match merge_spec(*comp, old(self).reducer(), old(self)@, batch) {
                        Ok(s) => res is Ok && final(self)@ == s,
                        Err(e) => res == Err::<(), R::Error>(e),
                    }
                },
            final(self).reducer() == old(self).reducer(),
    {
        let batch = clone_batch(items);
        let ghost batch_view = batch@;
        let res = self.add_by(batch, comp);
        proof {
            assert(batch_view.len() == items@.len());
        }
        res
    }
}

/// Clones a borrowed batch element for element, in order.
fn clone_batch<T: Clone>(items: &Vec<T>) -> (out: Vec<T>)
    ensures
        out@.len() == items@.len(),
        forall|i: int| 0 <= i < items@.len() ==> cloned(items@[i], out@[i]),
{
    let mut out: Vec<T> = Vec::with_capacity(items.len());
    let mut idx: usize = 0;
    while idx < items.len()
        invariant
            idx <= items@.len(),
            out@.len() == idx,
            forall|i: int| 0 <= i < idx ==> cloned(items@[i], out@[i]),
        decreases items@.len() - idx,
    {
        out.push(items[idx].clone());
        idx = idx + 1;
    }
    out
}

/// A [`SlicesMergerReduce`] with the default equal-key policy: keep the
/// existing element, discard the incoming one (first-seen wins). Updates can
/// never fail.
pub struct SlicesMerger<T>(SlicesMergerReduce<T, KeepExisting>);

impl<T> View for SlicesMerger<T> {
    type V = Seq<T>;

    closed spec fn view(&self) -> Seq<T> {
        self.0@
    }
}

impl<T> SlicesMerger<T> {
    /// An empty container.
    pub fn new() -> (this: SlicesMerger<T>)
        ensures
            this@ == Seq::<T>::empty(),
    {
        SlicesMerger(SlicesMergerReduce::new(KeepExisting))
    }

    /// An empty container whose buffers both pre-reserve room for `capacity`
    /// elements.
    pub fn with_capacity(capacity: usize) -> (this: SlicesMerger<T>)
        ensures
            this@ == Seq::<T>::empty(),
    {
        SlicesMerger(SlicesMergerReduce::with_capacity(KeepExisting, capacity))
    }

    /// A container seeded with a presumed-sorted `init_vec`, which becomes
    /// the front directly: no merge pass is performed.
    pub fn from(init_vec: Vec<T>) -> (this: SlicesMerger<T>)
        requires
            init_vec@.len() < usize::MAX,
        ensures
            this@ == init_vec@,
    {
        SlicesMerger(SlicesMergerReduce::from(init_vec, KeepExisting))
    }

    /// Like [`Self::from`], with an explicit reservation for the back buffer.
    pub fn from_with_capacity(init_vec: Vec<T>, capacity: usize) -> (this: SlicesMerger<T>)
        ensures
            this@ == init_vec@,
    {
        SlicesMerger(SlicesMergerReduce::from_with_capacity(init_vec, KeepExisting, capacity))
    }

    /// Merges the presumed-sorted batch `items` into the collection using the
    /// natural order of `T`; of each equal-keyed cross-stream pair the element
    /// already present is kept and the incoming one is discarded. This merge
    /// cannot fail.
    pub fn add(&mut self, items: Vec<T>) where DefaultComparator: Comparator<T>
        ensures
            merge_spec(DefaultComparator, KeepExisting, old(self)@, items@) is Ok,
            final(self)@ == merge_spec(DefaultComparator, KeepExisting, old(self)@, items@)->Ok_0,
    {
        proof {
            assert(self.0.reducer() == KeepExisting);
            lemma_merge_total(DefaultComparator, self.0.reducer(), self.0@, items@);
        }
        match self.0.add(items) {
            Ok(()) => (),
            Err(_) => {
                assert(false);
            },
        }
    }

    /// The borrowing shape of [`Self::add`]: the caller keeps the batch, and
    /// the merge consumes a clone of each batch element, in batch order. This
    /// merge cannot fail.
    pub fn add_cloned(&mut self, items: &Vec<T>) where
        T: Clone,
        DefaultComparator: Comparator<T>,

        ensures
            exists|batch: Seq<T>|
                {
                    &&& #[trigger] batch.len() == items@.len()
                    &&& (forall|i: int| 0 <= i < batch.len() ==> cloned(items@[i], batch[i]))
                    &&& merge_spec(DefaultComparator, KeepExisting, old(self)@, batch) is Ok
                    &&& final(self)@ == merge_spec(
                        DefaultComparator,
                        KeepExisting,
                        old(self)@,
                        batch,
                    )->Ok_0
                },
    {
        let batch = clone_batch(items);
        let ghost batch_view = batch@;
        self.add(batch);
        proof {
            assert(batch_view.len() == items@.len());
        }
    }

    /// Empties the container. The buffers' backing capacity is retained for
    /// the next burst of work.
    pub fn reset(&mut self)
        ensures
            final(self)@ == Seq::<T>::empty(),
    {
        self.0.reset()
    }

    /// The number of elements currently in the front buffer.
    pub fn len(&self) -> (n: usize)
        ensures
            n == self@.len(),
    {
        self.0.len()
    }

    /// A read-only view of the current front buffer.
    pub fn front(&self) -> (r: &Vec<T>)
        ensures
            r@ == self@,
    {
        self.0.front()
    }

    /// Consumes the container and returns the front buffer as an owned
    /// vector.
    pub fn finish(self) -> (r: Vec<T>)
        ensures
            r@ == self@,
    {
        self.0.finish()
    }
}

} // verus!

