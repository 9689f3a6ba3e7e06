//! A vector with a compile-time capacity bound, used for the small
//! fixed-size collections in a game state.

use vstd::prelude::*;

verus! {

/// A growable list that never holds more than `N` elements.
#[derive(Debug)]
pub struct FixedVec<T, const N: usize> {
    data: Vec<T>,
}

impl<T, const N: usize> FixedVec<T, N> {
    /// Whether the capacity bound holds; every constructor establishes it
    /// and every method preserves it.
    pub open spec fn wf(&self) -> bool {
        self@.len() <= N
    }

    /// An empty list.
    pub fn new() -> (r: Self)
        ensures
            r@ == Seq::<T>::empty(),
            r.wf(),
    {
        FixedVec { data: Vec::new() }
    }

    /// Number of elements.
    pub fn len(&self) -> (r: usize)
        ensures
            r == self@.len(),
    {
        self.data.len()
    }

    /// Append an element; the caller must know the list is not full.
    pub fn push(&mut self, value: T)
        requires
            old(self)@.len() < N,
        ensures
            final(self)@ == old(self)@.push(value),
            old(self).wf() ==> final(self).wf(),
    {
        self.data.push(value);
    }

    /// Remove and return the element at `index`, moving the last element
    /// into its place.
    pub fn swap_remove(&mut self, index: usize) -> (r: T)
        requires
            index < old(self)@.len(),
        ensures
            r == old(self)@[index as int],
            final(self)@ == old(self)@.update(index as int, old(self)@.last()).drop_last(),
            old(self).wf() ==> final(self).wf(),
    {
        self.data.swap_remove(index)
    }

    /// Read the element at `index`.
    pub fn get(&self, index: usize) -> (r: &T)
        requires
            index < self@.len(),
        ensures
            *r == self@[index as int],
    {
        &self.data[index]
    }

    /// Borrow the element at `index` for mutation.
    pub fn get_mut(&mut self, index: usize) -> (r: &mut T)
        requires
            index < old(self)@.len(),
        ensures
            *r == old(self)@[index as int],
            final(self)@ == old(self)@.update(index as int, *final(r)),
            final(self)@.len() == old(self)@.len(),
    {
        &mut self.data[index]
    }

    /// Overwrite the element at `index`.
    pub fn set(&mut self, index: usize, value: T)
        requires
            index < old(self)@.len(),
        ensures
            final(self)@ == old(self)@.update(index as int, value),
    {
        self.data[index] = value;
    }
}

impl<T: Copy, const N: usize> FixedVec<T, N> {
    /// A list holding the elements of a slice, in order.
    pub fn from_slice(slice: &[T]) -> (r: Self)
        requires
            slice@.len() <= N,
        ensures
            r@ == slice@,
            r.wf(),
    {
        let mut data: Vec<T> = Vec::new();
        let mut i: usize = 0;
        while i < slice.len()
            invariant
                i <= slice@.len() <= N,
                data@ == slice@.take(i as int),
            decreases slice@.len() - i,
        {
            let v = slice[i];
            data.push(v);
            proof {
                assert(data@ =~= slice@.take(i as int + 1));
            }
            i = i + 1;
        }
        proof {
            assert(slice@.take(slice@.len() as int) =~= slice@);
        }
        FixedVec { data }
    }

    /// A copy of this list.
    pub fn duplicate(&self) -> (r: Self)
        ensures
            r@ == self@,
            self.wf() ==> r.wf(),
    {
        let mut data: Vec<T> = Vec::new();
        let mut i: usize = 0;
        while i < self.data.len()
            invariant
                i <= self@.len(),
                data@ == self@.take(i as int),
            decreases self@.len() - i,
        {
            let v = self.data[i];
            data.push(v);
            proof {
                assert(data@ =~= self@.take(i as int + 1));
            }
            i = i + 1;
        }
        proof {
            assert(self@.take(self@.len() as int) =~= self@);
        }
        FixedVec { data }
    }
}

impl<T, const N: usize> View for FixedVec<T, N> {
    type V = Seq<T>;

    closed spec fn view(&self) -> Seq<T> {
        self.data@
    }
}

} // verus!
