//! The compact type registry: dense tags for registered type codes, and one
//! sub-container per tag.
//!
//! A record type is named by a caller-chosen 64-bit type code. Registering a
//! code for the first time appends it to an indexed list and allocates a
//! fresh, empty sub-container at the same position, so a tag is simultaneously
//! the code's registration rank and the index of its sub-container: lookup is
//! one array access, never a hash. A tag for one position is only ever used
//! with the sub-container at that position, which is what makes handing out
//! tags safe.

use vstd::prelude::*;

use crate::errors::{type_not_registered, StoreError};
use crate::key::ItemKey;
use crate::mini_type_id::{MiniTypeId, MAX_REGISTERED_TYPES};
use crate::sub_storage::SubStorage;

verus! {

/// Maps registered type codes to dense tags and owns one sub-container of
/// `V` cells per registered code.
pub struct MiniTypeMap<V> {
    /// The registered codes, in registration order; position is the tag.
    pub codes: Vec<u64>,
    /// The sub-container of each tag, at the tag's position.
    pub subs: Vec<SubStorage<V>>,
}

impl<V> MiniTypeMap<V> {
    /// Structural invariant: one sub-container per code, distinct codes, and
    /// never more codes than tags can express.
    pub open spec fn wf(self) -> bool {
        &&& self.subs@.len() == self.codes@.len()
        &&& self.codes@.len() <= MAX_REGISTERED_TYPES
        &&& forall|i: int, j: int|
            0 <= i < j < self.codes@.len() ==> self.codes@[i] != self.codes@[j]
    }

    /// True when `code` has been registered.
    pub open spec fn registered(self, code: u64) -> bool {
        self.codes@.contains(code)
    }

    /// True when `tag` names a registered type.
    pub open spec fn tag_valid(self, tag: MiniTypeId) -> bool {
        (tag.0 as int) < self.codes@.len()
    }

    /// The code that `tag` was assigned for.
    pub open spec fn code_at(self, tag: MiniTypeId) -> u64 {
        self.codes@[tag.0 as int]
    }

    /// The sub-container of `tag`.
    pub open spec fn sub(self, tag: MiniTypeId) -> SubStorage<V> {
        self.subs@[tag.0 as int]
    }

    /// True when the sub-container of `tag` holds a cell for `k`.
    pub open spec fn contains(self, tag: MiniTypeId, k: ItemKey) -> bool {
        self.tag_valid(tag) && self.sub(tag).contains_key(k)
    }

    /// An empty registry.
    pub fn new() -> (r: Self)
        ensures
            r.wf(),
            r.codes@.len() == 0,
    {
        MiniTypeMap { codes: Vec::new(), subs: Vec::new() }
    }

    /// The tag of `code`, or `UnregisteredType` when `code` was never
    /// registered.
    pub fn mini_type_of(&self, code: u64) -> (r: Result<MiniTypeId, StoreError>)
        requires
            self.wf(),
        ensures
            r is Ok <==> self.registered(code),
            r matches Ok(tag) ==> self.tag_valid(tag) && self.code_at(tag) == code,
            r is Err ==> r->Err_0 == StoreError::UnregisteredType,
    {
        let mut i: usize = 0;
        while i < self.codes.len()
            invariant
                i <= self.codes@.len(),
                self.wf(),
                forall|j: int| 0 <= j < i ==> self.codes@[j] != code,
            decreases self.codes@.len() - i,
        {
            if self.codes[i] == code {
                return Ok(MiniTypeId::from_index(i));
            }
            i += 1;
        }
        proof {
            assert(!self.registered(code)) by {
                if self.registered(code) {
                    let j = choose|j: int| 0 <= j < self.codes@.len() && self.codes@[j] == code;
                }
            }
        }
        Err(type_not_registered())
    }

    /// Exactly what [`Self::register`] does: an already registered code
    /// changes nothing and reports its existing tag; a new code is appended
    /// with a fresh, empty sub-container, unless the registry is full.
    pub open spec fn register_post(
        pre: Self,
        post: Self,
        code: u64,
        r: Result<MiniTypeId, StoreError>,
    ) -> bool {
        &&& r matches Ok(tag) ==> post.tag_valid(tag) && post.code_at(tag) == code
        &&& pre.registered(code) ==> r is Ok && post.codes@ == pre.codes@ && post.subs@
            == pre.subs@
        &&& !pre.registered(code) && pre.codes@.len() < MAX_REGISTERED_TYPES ==> {
            &&& r is Ok
            &&& r->Ok_0.0 as int == pre.codes@.len()
            &&& post.codes@ == pre.codes@.push(code)
            &&& post.subs@.len() == pre.codes@.len() + 1
            &&& forall|t: int| 0 <= t < pre.subs@.len() ==> post.subs@[t] == pre.subs@[t]
            &&& forall|k: ItemKey| !post.subs@[pre.codes@.len() as int].contains_key(k)
        }
        &&& !pre.registered(code) && pre.codes@.len() >= MAX_REGISTERED_TYPES ==> {
            &&& r is Err
            &&& r->Err_0 == StoreError::CapacityExceeded
            &&& post.codes@ == pre.codes@
            &&& post.subs@ == pre.subs@
        }
    }

    /// Registers `code`, idempotently: returns the existing tag when `code`
    /// is already registered, otherwise assigns the next tag in registration
    /// order and appends a fresh, empty sub-container for it. Fails only when
    /// the maximum number of distinct types is already registered.
    pub fn register(&mut self, code: u64) -> (r: Result<MiniTypeId, StoreError>)
        requires
            old(self).wf(),
        ensures
            final(self).wf(),
            Self::register_post(*old(self), *final(self), code, r),
    {
        match self.mini_type_of(code) {
            Ok(tag) => Ok(tag),
            Err(_) => {
                if self.codes.len() >= MAX_REGISTERED_TYPES {
                    return Err(StoreError::CapacityExceeded);
                }
                let tag = MiniTypeId::from_index(self.codes.len());
                self.codes.push(code);
                self.subs.push(SubStorage::new());
                Ok(tag)
            },
        }
    }

    /// Fills the cell for `k` in `tag`'s sub-container with `v`. The key's
    /// index must be nowhere in use within that sub-container, which holds
    /// for every freshly minted key.
    pub fn insert(&mut self, tag: MiniTypeId, k: ItemKey, v: V) -> (r: Result<
        (),
        StoreError,
    >)
        requires
            old(self).wf(),
            old(self).tag_valid(tag) ==> forall|k2: ItemKey|
                old(self).sub(tag).contains_key(k2) ==> k2.index != k.index,
        ensures
            final(self).wf(),
            final(self).codes@ == old(self).codes@,
            final(self).subs@.len() == old(self).subs@.len(),
            !old(self).tag_valid(tag) ==> r is Err && r->Err_0 == StoreError::UnregisteredType
                && final(self).subs@ == old(self).subs@,
            old(self).tag_valid(tag) ==> {
                &&& r is Ok
                &&& SubStorage::insert_post(old(self).sub(tag), final(self).sub(tag), k, v)
                &&& forall|t: int|
                    0 <= t < old(self).subs@.len() && t != tag.0 as int ==> final(self).subs@[t]
                        == old(self).subs@[t]
            },
    {
        let idx = tag.index();
        if idx >= self.subs.len() {
            return Err(StoreError::UnregisteredType);
        }
        proof {
            assert(old(self).tag_valid(tag));
            assert(self.subs@[idx as int] == old(self).sub(tag));
        }
        let sub = &mut self.subs[idx];
        sub.insert(k, v);
        Ok(())
    }

    /// Acquires the value under `k` in `tag`'s sub-container exclusively.
    pub fn take(&mut self, tag: MiniTypeId, k: ItemKey) -> (r: Result<V, StoreError>)
        requires
            old(self).wf(),
        ensures
            final(self).wf(),
            final(self).codes@ == old(self).codes@,
            final(self).subs@.len() == old(self).subs@.len(),
            !old(self).tag_valid(tag) ==> r is Err && r->Err_0 == StoreError::UnregisteredType
                && final(self).subs@ == old(self).subs@,
            old(self).tag_valid(tag) ==> {
                &&& SubStorage::take_post(old(self).sub(tag), final(self).sub(tag), k, r)
                &&& forall|t: int|
                    0 <= t < old(self).subs@.len() && t != tag.0 as int ==> final(self).subs@[t]
                        == old(self).subs@[t]
            },
    {
        let idx = tag.index();
        if idx >= self.subs.len() {
            return Err(StoreError::UnregisteredType);
        }
        let sub = &mut self.subs[idx];
        sub.take(k)
    }

    /// Releases a borrow taken from `tag`'s sub-container, putting `v` back
    /// under `k`. On failure the value travels back to the caller.
    pub fn put(&mut self, tag: MiniTypeId, k: ItemKey, v: V) -> (r: Result<
        (),
        (V, StoreError),
    >)
        requires
            old(self).wf(),
        ensures
            final(self).wf(),
            final(self).codes@ == old(self).codes@,
            final(self).subs@.len() == old(self).subs@.len(),
            !old(self).tag_valid(tag) ==> r is Err && r->Err_0 == (
                v,
                StoreError::UnregisteredType,
            ) && final(self).subs@ == old(self).subs@,
            old(self).tag_valid(tag) ==> {
                &&& SubStorage::put_post(old(self).sub(tag), final(self).sub(tag), k, v, r)
                &&& forall|t: int|
                    0 <= t < old(self).subs@.len() && t != tag.0 as int ==> final(self).subs@[t]
                        == old(self).subs@[t]
            },
    {
        let idx = tag.index();
        if idx >= self.subs.len() {
            return Err((v, StoreError::UnregisteredType));
        }
        let sub = &mut self.subs[idx];
        sub.put(k, v)
    }

    /// Destroys the cell under `k` in `tag`'s sub-container.
    pub fn remove(&mut self, tag: MiniTypeId, k: ItemKey) -> (r: Result<
        Option<V>,
        StoreError,
    >)
        requires
            old(self).wf(),
        ensures
            final(self).wf(),
            final(self).codes@ == old(self).codes@,
            final(self).subs@.len() == old(self).subs@.len(),
            !old(self).tag_valid(tag) ==> r is Err && r->Err_0 == StoreError::UnregisteredType
                && final(self).subs@ == old(self).subs@,
            old(self).tag_valid(tag) ==> {
                &&& SubStorage::remove_post(old(self).sub(tag), final(self).sub(tag), k, r)
                &&& forall|t: int|
                    0 <= t < old(self).subs@.len() && t != tag.0 as int ==> final(self).subs@[t]
                        == old(self).subs@[t]
            },
    {
        let idx = tag.index();
        if idx >= self.subs.len() {
            return Err(StoreError::UnregisteredType);
        }
        let sub = &mut self.subs[idx];
        sub.remove(k)
    }

    /// Acquires every value in `tag`'s sub-container at once.
    pub fn take_all(&mut self, tag: MiniTypeId) -> (r: Result<
        Vec<(ItemKey, V)>,
        StoreError,
    >)
        requires
            old(self).wf(),
        ensures
            final(self).wf(),
            final(self).codes@ == old(self).codes@,
            final(self).subs@.len() == old(self).subs@.len(),
            !old(self).tag_valid(tag) ==> r is Err && r->Err_0 == StoreError::UnregisteredType
                && final(self).subs@ == old(self).subs@,
            old(self).tag_valid(tag) ==> {
                &&& (r is Err ==> r->Err_0 != StoreError::UnregisteredType)
                &&& SubStorage::take_all_post(old(self).sub(tag), final(self).sub(tag), r)
                &&& forall|t: int|
                    0 <= t < old(self).subs@.len() && t != tag.0 as int ==> final(self).subs@[t]
                        == old(self).subs@[t]
            },
    {
        let idx = tag.index();
        if idx >= self.subs.len() {
            return Err(StoreError::UnregisteredType);
        }
        let sub = &mut self.subs[idx];
        sub.take_all()
    }

    /// Every key in `tag`'s sub-container, in increasing index order.
    pub fn keys(&self, tag: MiniTypeId) -> (r: Result<Vec<ItemKey>, StoreError>)
        requires
            self.wf(),
        ensures
            r is Ok <==> self.tag_valid(tag),
            r is Err ==> r->Err_0 == StoreError::UnregisteredType,
            r matches Ok(ks) ==> {
                &&& forall|j: int|
                    0 <= j < ks@.len() ==> self.sub(tag).contains_key(#[trigger] ks@[j])
                &&& forall|k: ItemKey| self.sub(tag).contains_key(k) ==> ks@.contains(k)
                &&& forall|j1: int, j2: int|
                    0 <= j1 < j2 < ks@.len() ==> ks@[j1].index < ks@[j2].index
            },
    {
        let idx = tag.index();
        if idx >= self.subs.len() {
            return Err(StoreError::UnregisteredType);
        }
        Ok(self.subs[idx].keys())
    }
}

} // verus!
