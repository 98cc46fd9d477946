//! Walking the held slots of sparse vectors in index order.
//!
//! A store that can report and hand out its held indices implements
//! `VectorMerge`; the iterator then steps from one held index to the next
//! without ever returning the same index twice.

use vstd::prelude::*;

use crate::store::DenseEntry;

verus! {

/// A sparse vector that can be walked in index order.  The two spec
/// functions are the model: which indices hold an item, and which item.
pub trait VectorMerge: Sized {
    type Item;

    /// Whether index `idx` holds an item.
    spec fn m_contains(&self, idx: int) -> bool;

    /// The item held at index `idx`.
    spec fn m_item(&self, idx: int) -> Self::Item;

    /// Whether `idx` holds an item.  Observations never change the model.
    fn contains(&mut self, idx: usize) -> (r: bool)
        ensures
            forall|j: int| final(self).m_contains(j) == old(self).m_contains(j),
            forall|j: int| #[trigger] final(self).m_item(j) == old(self).m_item(j),
            r == old(self).m_contains(idx as int);

    /// The first held index at or after `idx`.
    fn lower_bound_index(&mut self, idx: usize) -> (r: Option<usize>)
        ensures
            forall|j: int| final(self).m_contains(j) == old(self).m_contains(j),
            forall|j: int| #[trigger] final(self).m_item(j) == old(self).m_item(j),
            match r {
                Some(found) => {
                    &&& idx <= found
                    &&& old(self).m_contains(found as int)
                    &&& forall|k: int| idx <= k < found ==> !old(self).m_contains(k)
                },
                None => forall|k: int| idx <= k ==> !old(self).m_contains(k),
            };

    /// The item at a held index.
    fn get_unchecked(&mut self, idx: usize) -> (r: Self::Item)
        requires
            old(self).m_contains(idx as int),
        ensures
            forall|j: int| final(self).m_contains(j) == old(self).m_contains(j),
            forall|j: int| #[trigger] final(self).m_item(j) == old(self).m_item(j),
            r == old(self).m_item(idx as int);
}

/// Convenience operations over any `VectorMerge` store.
pub trait VectorMergeExt: VectorMerge {
    /// The item at `idx`, when the index is held.
    fn get(&mut self, idx: usize) -> (r: Option<Self::Item>)
        ensures
            forall|j: int| final(self).m_contains(j) == old(self).m_contains(j),
            forall|j: int| #[trigger] final(self).m_item(j) == old(self).m_item(j),
            match r {
                Some(item) => old(self).m_contains(idx as int) && item == old(self).m_item(
                    idx as int,
                ),
                None => !old(self).m_contains(idx as int),
            },
    {
        if self.contains(idx) {
            Some(self.get_unchecked(idx))
        } else {
            None
        }
    }

    /// An iterator seeded at the first held index.
    fn merge(&mut self) -> (r: VectorMergeIter)
        ensures
            forall|j: int| final(self).m_contains(j) == old(self).m_contains(j),
            forall|j: int| #[trigger] final(self).m_item(j) == old(self).m_item(j),
            match r.idx {
                Some(found) => old(self).m_contains(found as int) && forall|k: int|
                    0 <= k < found ==> !old(self).m_contains(k),
                None => forall|k: int| 0 <= k ==> !old(self).m_contains(k),
            },
    {
        VectorMergeIter { idx: self.lower_bound_index(0) }
    }
}

impl<T: VectorMerge> VectorMergeExt for T {
}

/// Iterator over the held indices of a store, in increasing order.  It
/// remembers only the last index it stood on; each step asks the store for
/// the next held index after it.
#[derive(Clone, Copy, Debug)]
pub struct VectorMergeIter {
    pub idx: Option<usize>,
}

impl VectorMergeIter {
    /// Step to the next held index after the current one and hand out its
    /// item.
    pub fn next<V: VectorMerge>(&mut self, store: &mut V) -> (r: Option<(usize, V::Item)>)
        requires
            old(self).idx matches Some(i) ==> i < usize::MAX,
        ensures
            forall|j: int| final(store).m_contains(j) == old(store).m_contains(j),
            forall|j: int| #[trigger] final(store).m_item(j) == old(store).m_item(j),
            ({
                let lo: int = match old(self).idx {
                    Some(i) => i + 1,
                    None => 0,
                };
                match r {
                    Some(pair) => {
                        &&& final(self).idx == Some(pair.0)
                        &&& lo <= pair.0
                        &&& old(store).m_contains(pair.0 as int)
                        &&& pair.1 == old(store).m_item(pair.0 as int)
                        &&& forall|k: int| lo <= k < pair.0 ==> !old(store).m_contains(k)
                    },
                    None => final(self).idx is None && forall|k: int|
                        lo <= k ==> !old(store).m_contains(k),
                }
            }),
    {
        let lo: usize = match self.idx {
            Some(i) => i + 1,
            None => 0,
        };
        self.idx = store.lower_bound_index(lo);
        match self.idx {
            Some(found) => Some((found, store.get_unchecked(found))),
            None => None,
        }
    }
}

/// A dense vector of optional slots is a sparse vector: the held indices
/// are the occupied slots.
impl<T: Copy> VectorMerge for Vec<DenseEntry<T>> {
    type Item = T;

    open spec fn m_contains(&self, idx: int) -> bool {
        0 <= idx < self@.len() && self@[idx] is Occupied
    }

    open spec fn m_item(&self, idx: int) -> T {
        self@[idx]->Occupied_0
    }

    fn contains(&mut self, idx: usize) -> (r: bool) {
        idx < self.len() && matches!(self[idx], DenseEntry::Occupied(_))
    }

    fn lower_bound_index(&mut self, idx: usize) -> (r: Option<usize>) {
        let mut i = idx;
        while i < self.len()
            invariant
                idx <= i,
                forall|k: int| idx <= k < i ==> !self.m_contains(k),
            decreases self.len() - i,
        {
            if matches!(self[i], DenseEntry::Occupied(_)) {
                return Some(i);
            }
            i = i + 1;
        }
        None
    }

    fn get_unchecked(&mut self, idx: usize) -> (r: T) {
        let entry: Option<T> = match &self[idx] {
            DenseEntry::Occupied(item) => Some(*item),
            DenseEntry::Vacant => None,
        };
        entry.unwrap()
    }
}

} // verus!
