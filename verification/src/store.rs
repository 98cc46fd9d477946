//! Bookkeeping helpers for object stores.

use core::marker::PhantomData;
use vstd::prelude::*;

verus! {

/// Bookkeeping of an arena allocator: the number of objects currently
/// alive.  The arena hands objects out at stable locations; this type
/// tracks how many are outstanding.
pub struct Arena<T> {
    size: usize,
    _ph: PhantomData<T>,
}

impl<T> Arena<T> {
    /// The number of objects currently alive.
    pub closed spec fn spec_size(&self) -> int {
        self.size as int
    }

    pub fn new() -> (r: Arena<T>)
        ensures
            r.spec_size() == 0,
    {
        Arena { size: 0, _ph: PhantomData }
    }

    pub fn is_empty(&self) -> (r: bool)
        ensures
            r == (self.spec_size() == 0),
    {
        self.size == 0
    }
}

/// A slot of a dense container: either vacant or holding an item.
#[derive(Clone, Copy, Debug)]
pub enum DenseEntry<T> {
    Vacant,
    Occupied(T),
}

impl<T> Default for DenseEntry<T> {
    /// A fresh slot is vacant.
    fn default() -> (r: Self)
        ensures
            r is Vacant,
    {
        DenseEntry::Vacant
    }
}

} // verus!
