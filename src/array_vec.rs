//! A vector with a fixed capacity `N`.

use vstd::prelude::*;

verus! {

/// A vector that never holds more than `N` values.
pub struct ArrayVec<T, const N: usize> {
    data: Vec<T>,
}

impl<T, const N: usize> View for ArrayVec<T, N> {
    type V = Seq<T>;

    closed spec fn view(&self) -> Seq<T> {
        self.data@
    }
}

impl<T, const N: usize> ArrayVec<T, N> {
    /// The length never exceeds the capacity.
    pub open spec fn wf(&self) -> bool {
        self@.len() <= N
    }

    /// Creates an empty vector.
    pub fn new() -> (r: Self)
        ensures
            r.wf(),
            r@ == Seq::<T>::empty(),
    {
        ArrayVec { data: Vec::new() }
    }

    /// Returns the current length of the vector.
    pub fn len(&self) -> (r: usize)
        ensures
            r == self@.len(),
    {
        self.data.len()
    }

    /// Returns whether the vector is empty.
    pub fn is_empty(&self) -> (r: bool)
        ensures
            r == (self@.len() == 0),
    {
        self.data.len() == 0
    }

    /// Returns whether the vector is full.
    pub fn is_full(&self) -> (r: bool)
        ensures
            r == (self@.len() == N),
    {
        self.data.len() == N
    }

    /// Returns the capacity of the vector.
    pub fn capacity(&self) -> (r: usize)
        ensures
            r == N,
    {
        N
    }

    /// Removes all values.
    pub fn clear(&mut self)
        ensures
            final(self)@ == Seq::<T>::empty(),
    {
        while self.pop().is_some()
            invariant
                true,
            decreases self@.len(),
        {
        }
    }

    /// Removes and returns the last value, or `None` when the vector is empty.
    pub fn pop(&mut self) -> (r: Option<T>)
        ensures
            old(self)@.len() == 0 ==> r is None && final(self)@ == old(self)@,
            old(self)@.len() > 0 ==> r == Some(old(self)@.last()) && final(self)@ == old(self)@.drop_last(),
    {
        self.data.pop()
    }

    /// Appends `value`, or hands it back when the vector is full.
    pub fn try_push(&mut self, value: T) -> (r: Result<(), T>)
        requires
            old(self).wf(),
        ensures
            final(self).wf(),
            old(self)@.len() == N ==> r == Err::<(), T>(value) && final(self)@ == old(self)@,
            old(self)@.len() < N ==> r is Ok && final(self)@ == old(self)@.push(value),
    {
        if self.data.len() == N {
            return Err(value);
        }
        self.data.push(value);
        Ok(())
    }

    /// Appends `value`; the vector must not be full.
    pub fn push(&mut self, value: T)
        requires
            old(self).wf(),
            old(self)@.len() < N,
        ensures
            final(self).wf(),
            final(self)@ == old(self)@.push(value),
    {
        self.data.push(value);
    }

    /// Inserts `value` at `index` (at most the length), shifting the rest
    /// right, or hands it back when the vector is full.
    pub fn try_insert(&mut self, index: usize, value: T) -> (r: Result<(), T>)
        requires
            old(self).wf(),
            index <= old(self)@.len(),
        ensures
            final(self).wf(),
            old(self)@.len() == N ==> r == Err::<(), T>(value) && final(self)@ == old(self)@,
            old(self)@.len() < N ==> r is Ok && final(self)@ == old(self)@.insert(index as int, value),
    {
        if self.data.len() == N {
            return Err(value);
        }
        self.data.insert(index, value);
        Ok(())
    }

    /// Removes the values at positions `start..end`, shifting the rest left.
    pub fn remove_range(&mut self, start: usize, end: usize)
        requires
            old(self).wf(),
            start <= end <= old(self)@.len(),
        ensures
            final(self).wf(),
            final(self)@ == old(self)@.subrange(0, start as int) + old(self)@.subrange(
                end as int,
                old(self)@.len() as int,
            ),
    {
        let mut k: usize = 0;
        while k < end - start
            invariant
                start <= end <= old(self)@.len(),
                0 <= k <= end - start,
                self@ == old(self)@.subrange(0, start as int) + old(self)@.subrange(
                    start + k,
                    old(self)@.len() as int,
                ),
            decreases end - start - k,
        {
            self.data.remove(start);
            k = k + 1;
            assert(self@ =~= old(self)@.subrange(0, start as int) + old(self)@.subrange(
                start + k,
                old(self)@.len() as int,
            ));
        }
    }

    /// The values, in order.
    pub fn as_slice(&self) -> (r: &[T])
        ensures
            r@ == self@,
    {
        self.data.as_slice()
    }
}

impl<T: Copy, const N: usize> ArrayVec<T, N> {
    /// Appends the values of `slice`; they must fit.
    pub fn extend_from_slice(&mut self, slice: &[T])
        requires
            old(self).wf(),
            old(self)@.len() + slice@.len() <= N,
        ensures
            final(self).wf(),
            final(self)@ == old(self)@ + slice@,
    {
        let mut i: usize = 0;
        while i < slice.len()
            invariant
                0 <= i <= slice@.len(),
                old(self)@.len() + slice@.len() <= N,
                self@ == old(self)@ + slice@.subrange(0, i as int),
            decreases slice@.len() - i,
        {
            self.data.push(slice[i]);
            i = i + 1;
            assert(self@ =~= old(self)@ + slice@.subrange(0, i as int));
        }
        assert(slice@.subrange(0, slice@.len() as int) =~= slice@);
    }
}

} // verus!
