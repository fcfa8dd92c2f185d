//! Generational keys and the allocator that mints them.
//!
//! A key pairs a slot index with a generation counter. Freeing a key bumps its
//! slot's generation, so stale copies of the old key are detectable and
//! rejected in O(1); an index is never handed out again under the generation
//! it already carried.

use vstd::prelude::*;

verus! {

/// A generational handle to a stored item: a slot index plus the generation
/// the slot had when the key was minted.
#[derive(Copy, Clone, Debug, PartialEq, Eq, Hash, Structural)]
pub struct ItemKey {
    pub index: usize,
    pub generation: u64,
}

/// Per-index bookkeeping of the allocator: the slot's current generation and
/// whether a key for it is currently live.
#[derive(Copy, Clone, Debug)]
pub struct KeySlot {
    pub generation: u64,
    pub live: bool,
}

/// Mints keys that are unique among all currently live keys and recycles slot
/// indices under a bumped generation.
///
/// A slot whose generation counter is exhausted is retired: its index is
/// never recycled, so a stale key can never come back to life.
#[derive(Debug)]
pub struct KeyAllocator {
    pub slots: Vec<KeySlot>,
    pub free_list: Vec<usize>,
}

impl KeyAllocator {
    /// True when `k` is a currently live key: its slot exists, holds a live
    /// key, and the generations agree.
    pub open spec fn key_live(self, k: ItemKey) -> bool {
        &&& k.index < self.slots@.len()
        &&& self.slots@[k.index as int].live
        &&& self.slots@[k.index as int].generation == k.generation
    }

    /// The number of slots the allocator has ever used.
    pub open spec fn slot_count(self) -> int {
        self.slots@.len() as int
    }

    /// The current generation of slot `i`.
    pub open spec fn generation_at(self, i: int) -> u64 {
        self.slots@[i].generation
    }

    /// Structural invariant: the free list names only existing, non-live,
    /// non-retired slots, and names each at most once; live slots are never
    /// at the last generation, so freeing can always bump.
    pub open spec fn wf(self) -> bool {
        &&& forall|j: int|
            0 <= j < self.free_list@.len() ==> {
                &&& self.free_list@[j] < self.slots@.len()
                &&& !self.slots@[#[trigger] self.free_list@[j] as int].live
                &&& self.slots@[self.free_list@[j] as int].generation < u64::MAX
            }
        &&& forall|j1: int, j2: int|
            0 <= j1 < j2 < self.free_list@.len() ==> self.free_list@[j1] != self.free_list@[j2]
        &&& forall|i: int|
            0 <= i < self.slots@.len() && self.slots@[i].live ==> self.slots@[i].generation
                < u64::MAX
    }

    /// Exactly what a call to [`Self::mint`] does to the allocator: `k` was
    /// not live, now is, no other key changes liveness, and no existing
    /// slot's generation moves.
    pub open spec fn mint_post(pre: Self, post: Self, k: ItemKey) -> bool {
        &&& !pre.key_live(k)
        &&& post.key_live(k)
        &&& forall|k2: ItemKey| k2 != k ==> post.key_live(k2) == pre.key_live(k2)
        &&& pre.slots@.len() <= post.slots@.len()
        &&& forall|i: int|
            0 <= i < pre.slots@.len() ==> post.generation_at(i) == pre.generation_at(i)
    }

    /// Exactly what a call to [`Self::free`] does to the allocator: `k` is no
    /// longer live, no other key changes liveness, and if `k` was live its
    /// slot's generation strictly grew; generations never move backwards.
    pub open spec fn free_post(pre: Self, post: Self, k: ItemKey) -> bool {
        &&& !post.key_live(k)
        &&& forall|k2: ItemKey| k2 != k ==> post.key_live(k2) == pre.key_live(k2)
        &&& post.slots@.len() == pre.slots@.len()
        &&& pre.key_live(k) ==> post.generation_at(k.index as int) > k.generation
        &&& !pre.key_live(k) ==> post == pre
        &&& forall|i: int|
            0 <= i < pre.slots@.len() ==> post.generation_at(i) >= pre.generation_at(i)
    }

    /// A fresh allocator with no live keys.
    pub fn new() -> (r: Self)
        ensures
            r.wf(),
            forall|k: ItemKey| !r.key_live(k),
            r.slot_count() == 0,
    {
        KeyAllocator { slots: Vec::new(), free_list: Vec::new() }
    }

    /// Mints a key that is distinct from every currently live key, reusing a
    /// freed slot index under its bumped generation when one is available.
    pub fn mint(&mut self) -> (k: ItemKey)
        requires
            old(self).wf(),
        ensures
            final(self).wf(),
            Self::mint_post(*old(self), *final(self), k),
    {
        match self.free_list.pop() {
            Some(idx) => {
                let generation = self.slots[idx].generation;
                self.slots.set(idx, KeySlot { generation, live: true });
                let k = ItemKey { index: idx, generation };
                proof {
                    assert forall|k2: ItemKey| k2 != k implies self.key_live(k2) == old(
                        self,
                    ).key_live(k2) by {
                        if k2.index == k.index {
                            assert(k2.generation != generation);
                        }
                    }
                }
                k
            },
            None => {
                let idx = self.slots.len();
                self.slots.push(KeySlot { generation: 0, live: true });
                let k = ItemKey { index: idx, generation: 0 };
                proof {
                    assert forall|k2: ItemKey| k2 != k implies self.key_live(k2) == old(
                        self,
                    ).key_live(k2) by {
                        if k2.index == k.index {
                            assert(k2.generation != 0);
                        }
                    }
                }
                k
            },
        }
    }

    /// True when `k` is currently live.
    pub fn is_live(&self, k: &ItemKey) -> (r: bool)
        ensures
            r == self.key_live(*k),
    {
        k.index < self.slots.len() && self.slots[k.index].live && self.slots[k.index].generation
            == k.generation
    }

    /// Frees `k` if it is live: the slot's generation is bumped so every
    /// outstanding copy of `k` goes stale, and the index is recycled unless
    /// the generation counter is exhausted. Returns whether `k` was live.
    pub fn free(&mut self, k: ItemKey) -> (freed: bool)
        requires
            old(self).wf(),
        ensures
            final(self).wf(),
            freed == old(self).key_live(k),
            Self::free_post(*old(self), *final(self), k),
    {
        if self.is_live(&k) {
            let next_generation = self.slots[k.index].generation + 1;
            self.slots.set(k.index, KeySlot { generation: next_generation, live: false });
            if next_generation < u64::MAX {
                self.free_list.push(k.index);
            }
            proof {
                assert forall|k2: ItemKey| k2 != k implies self.key_live(k2) == old(
                    self,
                ).key_live(k2) by {
                    if k2.index == k.index {
                        assert(!self.slots@[k2.index as int].live);
                        assert(old(self).slots@[k2.index as int].generation == k.generation);
                    }
                }
                assert forall|j1: int, j2: int|
                    0 <= j1 < j2 < self.free_list@.len() implies self.free_list@[j1]
                    != self.free_list@[j2] by {
                    if j2 == self.free_list@.len() - 1 {
                        assert(self.free_list@[j1] == old(self).free_list@[j1]);
                        assert(!old(self).slots@[old(self).free_list@[j1] as int].live);
                        assert(old(self).slots@[k.index as int].live);
                    }
                }
            }
            true
        } else {
            false
        }
    }

    /// Two live keys can never share a slot index: the slot carries a single
    /// generation, so at most one key per index is live at a time.
    pub proof fn lemma_live_same_index(self, k1: ItemKey, k2: ItemKey)
        requires
            self.key_live(k1),
            self.key_live(k2),
            k1.index == k2.index,
        ensures
            k1 == k2,
    {
    }

    /// Minting never kills a live key, and the new key differs from every key
    /// that was live before the mint.
    pub proof fn lemma_mint_preserves_live(pre: Self, post: Self, k: ItemKey, k_old: ItemKey)
        requires
            Self::mint_post(pre, post, k),
            pre.key_live(k_old),
        ensures
            post.key_live(k_old),
            k != k_old,
    {
    }

    /// Key uniqueness: across any sequence of mints with no intervening
    /// frees, the returned keys are pairwise distinct. `states` are the
    /// allocator states, `keys[i]` the key minted in the step from
    /// `states[i]` to `states[i + 1]`.
    pub proof fn lemma_mint_sequence_distinct(states: Seq<KeyAllocator>, keys: Seq<ItemKey>)
        requires
            states.len() == keys.len() + 1,
            forall|i: int|
                0 <= i < keys.len() ==> Self::mint_post(states[i], states[i + 1], #[trigger] keys[i]),
        ensures
            forall|i: int, j: int| 0 <= i < j < keys.len() ==> keys[i] != keys[j],
    {
        assert forall|i: int, j: int| 0 <= i < j < keys.len() implies keys[i] != keys[j] by {
            Self::lemma_minted_key_stays_live(states, keys, i, j);
            assert(!states[j].key_live(keys[j]));
        }
    }

    /// A key minted at step `i` is still live in every later state reached
    /// only by mints.
    proof fn lemma_minted_key_stays_live(states: Seq<KeyAllocator>, keys: Seq<ItemKey>, i: int, j: int)
        requires
            states.len() == keys.len() + 1,
            forall|s: int|
                0 <= s < keys.len() ==> Self::mint_post(states[s], states[s + 1], #[trigger] keys[s]),
            0 <= i < j <= keys.len(),
        ensures
            states[j].key_live(keys[i]),
        decreases j - i,
    {
        if j == i + 1 {
            assert(Self::mint_post(states[i], states[i + 1], keys[i]));
        } else {
            Self::lemma_minted_key_stays_live(states, keys, i, j - 1);
            Self::lemma_mint_preserves_live(states[j - 1], states[j], keys[j - 1], keys[i]);
        }
    }

    /// Generation safety: after key `k` is freed, a mint that lands on the
    /// same slot index yields a key that compares unequal to `k`, and the
    /// stale `k` stays dead through both steps.
    pub proof fn lemma_generation_safety(
        a0: Self,
        a1: Self,
        a2: Self,
        k: ItemKey,
        k2: ItemKey,
    )
        requires
            a0.key_live(k),
            Self::free_post(a0, a1, k),
            Self::mint_post(a1, a2, k2),
            k2.index == k.index,
        ensures
            k2 != k,
            k2.generation > k.generation,
            !a1.key_live(k),
            !a2.key_live(k),
    {
        assert(a1.generation_at(k.index as int) > k.generation);
        assert(k.index < a1.slots@.len());
        assert(a2.generation_at(k2.index as int) == a1.generation_at(k2.index as int));
        assert(k2.generation == a2.generation_at(k2.index as int));
    }
}

} // verus!
