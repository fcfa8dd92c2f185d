//! The per-type sub-container: a sparse array of slot cells addressed by
//! generational keys.
//!
//! Each stored value sits in a cell that also tracks whether the value is
//! currently lent out. Acquiring a value moves it out of the cell and flips
//! the cell to the lent state; releasing moves a value back in. A cell is
//! found only under the exact key it was inserted with: a stale key whose
//! generation no longer matches the slot is rejected as missing.

use vstd::prelude::*;
use vstd::pervasive::VecAdditionalExecFns;

use crate::errors::StoreError;
use crate::key::ItemKey;

verus! {

/// Whether a cell currently holds its value or has lent it out to a borrower.
pub enum CellState<V> {
    /// The value is in the cell, available for exclusive acquisition.
    Ready(V),
    /// The value is checked out; a release must bring one back before the
    /// next acquisition can succeed.
    Lent,
}

/// One stored record: the generation of the key it was inserted under, plus
/// the value and its borrow state.
pub struct RecipeTupleCell<V> {
    pub generation: u64,
    pub state: CellState<V>,
}

/// A sparse container of slot cells indexed by key index, validated by key
/// generation.
pub struct SubStorage<V> {
    pub slots: Vec<Option<RecipeTupleCell<V>>>,
}

impl<V> SubStorage<V> {
    /// True when `k` addresses a cell in this container: the slot exists, is
    /// occupied, and was filled under exactly `k`'s generation.
    pub open spec fn contains_key(self, k: ItemKey) -> bool {
        &&& k.index < self.slots@.len()
        &&& self.slots@[k.index as int] is Some
        &&& self.slots@[k.index as int].unwrap().generation == k.generation
    }

    /// The borrow state of the cell addressed by `k` (meaningful only when
    /// [`Self::contains_key`] holds).
    pub open spec fn cell(self, k: ItemKey) -> CellState<V> {
        self.slots@[k.index as int].unwrap().state
    }

    /// True when `k` addresses a cell whose value is present and available.
    pub open spec fn ready(self, k: ItemKey) -> bool {
        self.contains_key(k) && self.cell(k) is Ready
    }

    /// True when `k` addresses a cell whose value is currently lent out.
    pub open spec fn lent(self, k: ItemKey) -> bool {
        self.contains_key(k) && self.cell(k) is Lent
    }

    /// The value stored under `k`, if present and not lent out.
    pub open spec fn value_of(self, k: ItemKey) -> Option<V> {
        if self.ready(k) {
            Some(self.cell(k)->Ready_0)
        } else {
            None
        }
    }


    /// Exactly what [`Self::insert`] does to the container: the cell for `k`
    /// appears, ready with `v`, and every other key reads as before.
    pub open spec fn insert_post(pre: Self, post: Self, k: ItemKey, v: V) -> bool {
        &&& post.contains_key(k)
        &&& post.cell(k) == CellState::Ready(v)
        &&& forall|k2: ItemKey| k2 != k ==> post.contains_key(k2) == pre.contains_key(k2)
        &&& forall|k2: ItemKey|
            k2 != k && pre.contains_key(k2) ==> post.cell(k2) == pre.cell(k2)
    }

    /// Exactly what [`Self::take`] does to the container and returns.
    pub open spec fn take_post(pre: Self, post: Self, k: ItemKey, r: Result<V, StoreError>) -> bool {
        &&& forall|k2: ItemKey| post.contains_key(k2) == pre.contains_key(k2)
        &&& forall|k2: ItemKey|
            k2 != k && pre.contains_key(k2) ==> post.cell(k2) == pre.cell(k2)
        &&& !pre.contains_key(k) ==> r is Err && r->Err_0 == StoreError::MissingKey
        &&& pre.lent(k) ==> r is Err && r->Err_0 == StoreError::AlreadyBorrowed && post.cell(k)
            == pre.cell(k)
        &&& pre.ready(k) ==> r == Ok::<V, StoreError>(pre.cell(k)->Ready_0) && post.lent(k)
    }

    /// Exactly what [`Self::put`] does to the container and returns.
    pub open spec fn put_post(
        pre: Self,
        post: Self,
        k: ItemKey,
        v: V,
        r: Result<(), (V, StoreError)>,
    ) -> bool {
        &&& forall|k2: ItemKey| post.contains_key(k2) == pre.contains_key(k2)
        &&& forall|k2: ItemKey|
            k2 != k && pre.contains_key(k2) ==> post.cell(k2) == pre.cell(k2)
        &&& !pre.contains_key(k) ==> r is Err && r->Err_0 == (v, StoreError::MissingKey)
        &&& pre.ready(k) ==> r is Err && r->Err_0 == (v, StoreError::NotBorrowed) && post.cell(k)
            == pre.cell(k)
        &&& pre.lent(k) ==> r is Ok && post.cell(k) == CellState::Ready(v)
    }

    /// Exactly what [`Self::remove`] does to the container and returns.
    pub open spec fn remove_post(
        pre: Self,
        post: Self,
        k: ItemKey,
        r: Result<Option<V>, StoreError>,
    ) -> bool {
        &&& forall|k2: ItemKey| k2 != k ==> post.contains_key(k2) == pre.contains_key(k2)
        &&& forall|k2: ItemKey|
            k2 != k && pre.contains_key(k2) ==> post.cell(k2) == pre.cell(k2)
        &&& !pre.contains_key(k) ==> r is Err && r->Err_0 == StoreError::MissingKey
            && !post.contains_key(k)
        &&& pre.contains_key(k) ==> r is Ok && !post.contains_key(k)
        &&& pre.ready(k) ==> r == Ok::<Option<V>, StoreError>(Some(pre.cell(k)->Ready_0))
        &&& pre.lent(k) ==> r == Ok::<Option<V>, StoreError>(None)
    }

    /// Exactly what [`Self::take_all`] does to the container and returns.
    pub open spec fn take_all_post(
        pre: Self,
        post: Self,
        r: Result<Vec<(ItemKey, V)>, StoreError>,
    ) -> bool {
        &&& forall|k2: ItemKey| post.contains_key(k2) == pre.contains_key(k2)
        &&& r is Err ==> {
            &&& r->Err_0 == StoreError::AlreadyBorrowed
            &&& exists|k: ItemKey| pre.lent(k)
            &&& forall|k2: ItemKey| pre.contains_key(k2) ==> post.cell(k2) == pre.cell(k2)
        }
        &&& r matches Ok(items) ==> {
            &&& forall|k2: ItemKey| !pre.lent(k2)
            &&& forall|k2: ItemKey| pre.contains_key(k2) ==> post.lent(k2)
            &&& forall|j: int|
                0 <= j < items@.len() ==> pre.ready(#[trigger] items@[j].0) && items@[j].1
                    == pre.cell(items@[j].0)->Ready_0
            &&& forall|k2: ItemKey|
                pre.contains_key(k2) ==> exists|j: int|
                    0 <= j < items@.len() && items@[j].0 == k2
            &&& forall|j1: int, j2: int|
                0 <= j1 < j2 < items@.len() ==> items@[j1].0.index < items@[j2].0.index
        }
    }

    /// A container with no cells.
    pub fn new() -> (r: Self)
        ensures
            forall|k: ItemKey| !r.contains_key(k),
    {
        SubStorage { slots: Vec::new() }
    }

    /// Fills the slot for a key whose index is nowhere in use in this
    /// container. The new cell holds `v`, available for acquisition.
    pub fn insert(&mut self, k: ItemKey, v: V)
        requires
            forall|k2: ItemKey| old(self).contains_key(k2) ==> k2.index != k.index,
        ensures
            Self::insert_post(*old(self), *final(self), k, v),
    {
        while self.slots.len() <= k.index
            invariant
                forall|k2: ItemKey| self.contains_key(k2) == old(self).contains_key(k2),
                forall|k2: ItemKey|
                    old(self).contains_key(k2) ==> self.cell(k2) == old(self).cell(k2),
            decreases k.index + 1 - self.slots.len(),
        {
            self.slots.push(None);
        }
        self.slots.set(
            k.index,
            Some(RecipeTupleCell { generation: k.generation, state: CellState::Ready(v) }),
        );
        proof {
            assert forall|k2: ItemKey| k2 != k implies final(self).contains_key(k2) == old(self).contains_key(k2) by {
                if k2.index == k.index {
                    assert(!old(self).contains_key(k2));
                }
            }
        }
    }

    /// Acquires the value under `k` exclusively: moves it out and marks the
    /// cell lent. Fails with `MissingKey` when no cell answers to `k`, and
    /// with `AlreadyBorrowed` when the cell's value is already lent out.
    pub fn take(&mut self, k: ItemKey) -> (r: Result<V, StoreError>)
        ensures
            Self::take_post(*old(self), *final(self), k, r),
    {
        if k.index >= self.slots.len() {
            return Err(StoreError::MissingKey);
        }
        let mut grabbed: Option<RecipeTupleCell<V>> = None;
        self.slots.set_and_swap(k.index, &mut grabbed);
        match grabbed {
            None => Err(StoreError::MissingKey),
            Some(cell) => {
                let RecipeTupleCell { generation, state } = cell;
                if generation != k.generation {
                    self.slots.set(k.index, Some(RecipeTupleCell { generation, state }));
                    proof {
                        assert(self.slots@ =~= old(self).slots@);
                    }
                    Err(StoreError::MissingKey)
                } else {
                    match state {
                        CellState::Lent => {
                            self.slots.set(
                                k.index,
                                Some(RecipeTupleCell { generation, state: CellState::Lent }),
                            );
                            Err(StoreError::AlreadyBorrowed)
                        },
                        CellState::Ready(v) => {
                            self.slots.set(
                                k.index,
                                Some(RecipeTupleCell { generation, state: CellState::Lent }),
                            );
                            Ok(v)
                        },
                    }
                }
            },
        }
    }

    /// Releases a borrow: moves `v` back into the cell under `k` and marks it
    /// ready again. On failure the value travels back to the caller: with
    /// `MissingKey` when no cell answers to `k` (for example because the item
    /// was removed while borrowed), and with `NotBorrowed` when the cell was
    /// not lent out.
    pub fn put(&mut self, k: ItemKey, v: V) -> (r: Result<(), (V, StoreError)>)
        ensures
            Self::put_post(*old(self), *final(self), k, v, r),
    {
        if k.index >= self.slots.len() {
            return Err((v, StoreError::MissingKey));
        }
        let mut grabbed: Option<RecipeTupleCell<V>> = None;
        self.slots.set_and_swap(k.index, &mut grabbed);
        match grabbed {
            None => Err((v, StoreError::MissingKey)),
            Some(cell) => {
                let RecipeTupleCell { generation, state } = cell;
                if generation != k.generation {
                    self.slots.set(k.index, Some(RecipeTupleCell { generation, state }));
                    proof {
                        assert(self.slots@ =~= old(self).slots@);
                    }
                    Err((v, StoreError::MissingKey))
                } else {
                    match state {
                        CellState::Ready(w) => {
                            self.slots.set(
                                k.index,
                                Some(
                                    RecipeTupleCell { generation, state: CellState::Ready(w) },
                                ),
                            );
                            Err((v, StoreError::NotBorrowed))
                        },
                        CellState::Lent => {
                            self.slots.set(
                                k.index,
                                Some(
                                    RecipeTupleCell { generation, state: CellState::Ready(v) },
                                ),
                            );
                            Ok(())
                        },
                    }
                }
            },
        }
    }

    /// Destroys the cell under `k`. Returns the stored value, or `None` when
    /// the value was lent out at removal time (the borrower keeps it; their
    /// later release will report the cell as missing).
    pub fn remove(&mut self, k: ItemKey) -> (r: Result<Option<V>, StoreError>)
        ensures
            Self::remove_post(*old(self), *final(self), k, r),
    {
        if k.index >= self.slots.len() {
            return Err(StoreError::MissingKey);
        }
        let mut grabbed: Option<RecipeTupleCell<V>> = None;
        self.slots.set_and_swap(k.index, &mut grabbed);
        match grabbed {
            None => Err(StoreError::MissingKey),
            Some(cell) => {
                let RecipeTupleCell { generation, state } = cell;
                if generation != k.generation {
                    self.slots.set(k.index, Some(RecipeTupleCell { generation, state }));
                    proof {
                        assert(self.slots@ =~= old(self).slots@);
                    }
                    Err(StoreError::MissingKey)
                } else {
                    match state {
                        CellState::Ready(v) => Ok(Some(v)),
                        CellState::Lent => Ok(None),
                    }
                }
            },
        }
    }

    /// Acquires every stored value at once, pairing each with its key, in
    /// increasing index order. Each cell is left in the lent state. Fails
    /// with `AlreadyBorrowed` — and acquires nothing — when any cell's value
    /// is already lent out, since the acquisition could not be exclusive.
    pub fn take_all(&mut self) -> (r: Result<Vec<(ItemKey, V)>, StoreError>)
        ensures
            Self::take_all_post(*old(self), *final(self), r),
    {
        let mut i: usize = 0;
        while i < self.slots.len()
            invariant
                i <= self.slots@.len(),
                forall|k2: ItemKey|
                    self.contains_key(k2) && k2.index < i ==> self.ready(k2),
            decreases self.slots@.len() - i,
        {
            let lent_here = match &self.slots[i] {
                Some(cell) => matches!(cell.state, CellState::Lent),
                None => false,
            };
            if lent_here {
                proof {
                    let g = self.slots@[i as int].unwrap().generation;
                    assert(old(self).lent(ItemKey { index: i, generation: g }));
                }
                return Err(StoreError::AlreadyBorrowed);
            }
            i += 1;
        }
        let mut items: Vec<(ItemKey, V)> = Vec::new();
        let mut i: usize = 0;
        while i < self.slots.len()
            invariant
                i <= self.slots@.len(),
                self.slots@.len() == old(self).slots@.len(),
                forall|k2: ItemKey| self.contains_key(k2) == old(self).contains_key(k2),
                forall|k2: ItemKey| old(self).contains_key(k2) ==> old(self).ready(k2),
                forall|k2: ItemKey|
                    old(self).contains_key(k2) && k2.index >= i ==> self.cell(k2) == old(
                        self,
                    ).cell(k2),
                forall|k2: ItemKey|
                    old(self).contains_key(k2) && k2.index < i ==> self.lent(k2),
                forall|j: int|
                    0 <= j < items@.len() ==> old(self).ready(#[trigger] items@[j].0)
                        && items@[j].1 == old(self).cell(items@[j].0)->Ready_0 && items@[j].0.index
                        < i,
                forall|k2: ItemKey|
                    old(self).contains_key(k2) && k2.index < i ==> exists|j: int|
                        0 <= j < items@.len() && items@[j].0 == k2,
                forall|j1: int, j2: int|
                    0 <= j1 < j2 < items@.len() ==> items@[j1].0.index < items@[j2].0.index,
            decreases self.slots@.len() - i,
        {
            let ghost prev = items@;
            let ghost before = self.slots@;
            let mut grabbed: Option<RecipeTupleCell<V>> = None;
            self.slots.set_and_swap(i, &mut grabbed);
            match grabbed {
                None => {
                    proof {
                        assert(self.slots@ =~= before);
                    }
                },
                Some(cell) => {
                    let RecipeTupleCell { generation, state } = cell;
                    let k = ItemKey { index: i, generation };
                    proof {
                        assert(old(self).contains_key(k));
                        assert(old(self).ready(k));
                    }
                    match state {
                        CellState::Ready(v) => {
                            self.slots.set(
                                i,
                                Some(
                                    RecipeTupleCell { generation, state: CellState::Lent },
                                ),
                            );
                            items.push((k, v));
                            proof {
                                assert forall|k2: ItemKey|
                                    old(self).contains_key(k2) && k2.index < i + 1 implies exists|
                                    j: int,
                                |
                                    0 <= j < items@.len() && items@[j].0 == k2 by {
                                    if k2.index == i {
                                        assert(items@[items@.len() - 1].0 == k2);
                                    } else {
                                        let j = choose|j: int|
                                            0 <= j < prev.len() && prev[j].0 == k2;
                                        assert(items@[j].0 == k2);
                                    }
                                }
                            }
                        },
                        CellState::Lent => {
                            proof {
                                assert(false);
                            }
                        },
                    }
                },
            }
            i += 1;
        }
        Ok(items)
    }

    /// Every key this container holds a cell for, in increasing index order.
    pub fn keys(&self) -> (r: Vec<ItemKey>)
        ensures
            forall|j: int| 0 <= j < r@.len() ==> self.contains_key(#[trigger] r@[j]),
            forall|k: ItemKey| self.contains_key(k) ==> r@.contains(k),
            forall|j1: int, j2: int| 0 <= j1 < j2 < r@.len() ==> r@[j1].index < r@[j2].index,
    {
        let mut r: Vec<ItemKey> = Vec::new();
        let mut i: usize = 0;
        while i < self.slots.len()
            invariant
                i <= self.slots@.len(),
                forall|j: int| 0 <= j < r@.len() ==> self.contains_key(#[trigger] r@[j]),
                forall|k: ItemKey| self.contains_key(k) && k.index < i ==> r@.contains(k),
                forall|j: int| 0 <= j < r@.len() ==> r@[j].index < i,
                forall|j1: int, j2: int| 0 <= j1 < j2 < r@.len() ==> r@[j1].index < r@[j2].index,
            decreases self.slots@.len() - i,
        {
            let ghost prev = r@;
            match &self.slots[i] {
                Some(cell) => {
                    r.push(ItemKey { index: i, generation: cell.generation });
                    proof {
                        assert forall|k: ItemKey|
                            self.contains_key(k) && k.index < i + 1 implies r@.contains(k) by {
                            if k.index == i {
                                assert(r@[r@.len() - 1] == k);
                            } else {
                                let j = choose|j: int| 0 <= j < prev.len() && prev[j] == k;
                                assert(r@[j] == k);
                            }
                        }
                    }
                },
                None => {},
            }
            i += 1;
        }
        r
    }
}

} // verus!
