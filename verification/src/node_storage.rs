//! Storage for whole records: the key allocator plus the per-type registry,
//! with exclusive-access tracking on every stored record.
//!
//! Every record lives in exactly one sub-container, under a key that is live
//! in the allocator for as long as the record is stored. Acquiring a record
//! hands out its value together with a [`BorrowDropper`]; until that guard is
//! spent on a release, every further acquisition of the same record is
//! refused, which is what stands in for compile-time exclusive borrows once
//! records are addressed by run-time handles.

use vstd::prelude::*;

use crate::errors::StoreError;
use crate::key::{ItemKey, KeyAllocator};
use crate::mini_type_id::MiniTypeId;
use crate::mini_type_map::MiniTypeMap;
use crate::node::NodeId;
use crate::sub_storage::SubStorage;

verus! {

/// The proof of an outstanding exclusive borrow. It is minted only by an
/// acquisition and spent, by value, on the matching release; it cannot be
/// copied, so at most one release per acquisition can ever succeed.
#[derive(Debug)]
pub struct BorrowDropper {
    node_type: MiniTypeId,
    instance: ItemKey,
}

impl BorrowDropper {
    /// A guard for the given slot. Kept inside the storage layer so that
    /// guards only ever come out of acquisitions.
    fn new(node_type: MiniTypeId, instance: ItemKey) -> (r: Self)
        ensures
            r.spec_id() == (NodeId { node_type, instance }),
    {
        BorrowDropper { node_type, instance }
    }

    /// The identifier of the record this guard was minted for.
    pub closed spec fn spec_id(self) -> NodeId {
        NodeId { node_type: self.node_type, instance: self.instance }
    }

    /// The identifier of the record this guard was minted for.
    pub fn id(&self) -> (r: NodeId)
        ensures
            r == self.spec_id(),
    {
        NodeId { node_type: self.node_type, instance: self.instance }
    }
}

/// Storage of all records: mints their keys and owns the registry of
/// per-type sub-containers.
pub struct NodeStorage<V> {
    /// Mints a unique live key for every stored record.
    pub key_factory: KeyAllocator,
    /// The registry: one sub-container of record cells per registered type.
    pub nodes: MiniTypeMap<V>,
}

impl<V> NodeStorage<V> {
    /// Structural invariant. Beyond the parts' own invariants: every key
    /// with a cell somewhere is live in the allocator, and no key has cells
    /// in two different sub-containers.
    pub open spec fn wf(self) -> bool {
        &&& self.key_factory.wf()
        &&& self.nodes.wf()
        &&& forall|t: int, k: ItemKey|
            0 <= t < self.nodes.subs@.len() && #[trigger] self.nodes.subs@[t].contains_key(k)
                ==> self.key_factory.key_live(k)
        &&& forall|t1: int, t2: int, k: ItemKey|
            #![trigger self.nodes.subs@[t1].contains_key(k), self.nodes.subs@[t2].contains_key(k)]
            0 <= t1 < self.nodes.subs@.len() && 0 <= t2 < self.nodes.subs@.len() && t1 != t2
                && self.nodes.subs@[t1].contains_key(k) ==> !self.nodes.subs@[t2].contains_key(k)
    }

    /// True when `id` names a stored record: its tag is registered and its
    /// key has a cell in that tag's sub-container.
    pub open spec fn contains_id(self, id: NodeId) -> bool {
        self.nodes.contains(id.node_type, id.instance)
    }

    /// True when `id` names a stored record whose value is in its cell.
    pub open spec fn node_ready(self, id: NodeId) -> bool {
        self.contains_id(id) && self.nodes.sub(id.node_type).ready(id.instance)
    }

    /// True when `id` names a stored record whose value is lent out.
    pub open spec fn node_lent(self, id: NodeId) -> bool {
        self.contains_id(id) && self.nodes.sub(id.node_type).lent(id.instance)
    }

    /// The value stored under `id`, when present and not lent out.
    pub open spec fn node_value(self, id: NodeId) -> Option<V> {
        if self.contains_id(id) {
            self.nodes.sub(id.node_type).value_of(id.instance)
        } else {
            None
        }
    }

    /// An empty storage with nothing registered.
    pub fn new() -> (r: Self)
        ensures
            r.wf(),
            r.nodes.codes@.len() == 0,
            forall|k: ItemKey| !r.key_factory.key_live(k),
    {
        NodeStorage { key_factory: KeyAllocator::new(), nodes: MiniTypeMap::new() }
    }

    /// Registers a type code, idempotently; see [`MiniTypeMap::register`].
    pub fn register(&mut self, code: u64) -> (r: Result<MiniTypeId, StoreError>)
        requires
            old(self).wf(),
        ensures
            final(self).wf(),
            final(self).key_factory == old(self).key_factory,
            MiniTypeMap::register_post(old(self).nodes, final(self).nodes, code, r),
    {
        self.nodes.register(code)
    }

    /// The tag of a registered type code; see [`MiniTypeMap::mini_type_of`].
    pub fn mini_type_of(&self, code: u64) -> (r: Result<MiniTypeId, StoreError>)
        requires
            self.wf(),
        ensures
            r is Ok <==> self.nodes.registered(code),
            r matches Ok(tag) ==> self.nodes.tag_valid(tag) && self.nodes.code_at(tag) == code,
            r is Err ==> r->Err_0 == StoreError::UnregisteredType,
    {
        self.nodes.mini_type_of(code)
    }

    /// Exactly what [`Self::spawn`] does: with a valid tag, a fresh key is
    /// minted and a ready cell holding `v` appears for it in that tag's
    /// sub-container, every other record and sub-container untouched.
    pub open spec fn spawn_post(
        pre: Self,
        post: Self,
        tag: MiniTypeId,
        v: V,
        r: Result<NodeId, StoreError>,
    ) -> bool {
        &&& post.nodes.codes@ == pre.nodes.codes@
        &&& post.nodes.subs@.len() == pre.nodes.subs@.len()
        &&& !pre.nodes.tag_valid(tag) ==> {
            &&& r is Err
            &&& r->Err_0 == StoreError::UnregisteredType
            &&& post.nodes.subs@ == pre.nodes.subs@
            &&& post.key_factory == pre.key_factory
        }
        &&& pre.nodes.tag_valid(tag) ==> {
            &&& r is Ok
            &&& r->Ok_0.node_type == tag
            &&& !pre.key_factory.key_live(r->Ok_0.instance)
            &&& KeyAllocator::mint_post(pre.key_factory, post.key_factory, r->Ok_0.instance)
            &&& SubStorage::insert_post(
                pre.nodes.sub(tag),
                post.nodes.sub(tag),
                r->Ok_0.instance,
                v,
            )
            &&& forall|t: int|
                0 <= t < pre.nodes.subs@.len() && t != tag.0 as int ==> post.nodes.subs@[t]
                    == pre.nodes.subs@[t]
        }
    }

    /// Stores `v` as a new record of the type tagged `tag`: mints a fresh
    /// key, fills a cell in `tag`'s sub-container, and returns the composite
    /// identifier. Fails only when `tag` was never handed out by
    /// registration.
    pub fn spawn(&mut self, tag: MiniTypeId, v: V) -> (r: Result<NodeId, StoreError>)
        requires
            old(self).wf(),
        ensures
            final(self).wf(),
            Self::spawn_post(*old(self), *final(self), tag, v, r),
    {
        let idx = tag.index();
        if idx >= self.nodes.subs.len() {
            return Err(StoreError::UnregisteredType);
        }
        let key = self.key_factory.mint();
        proof {
            assert forall|k2: ItemKey|
                self.nodes.sub(tag).contains_key(k2) implies k2.index != key.index by {
                if k2.index == key.index {
                    assert(old(self).nodes.subs@[tag.0 as int].contains_key(k2));
                    assert(old(self).key_factory.key_live(k2));
                    assert(k2 != key);
                    assert(self.key_factory.key_live(k2));
                    self.key_factory.lemma_live_same_index(k2, key);
                }
            }
        }
        let _ = self.nodes.insert(tag, key, v);
        let id = NodeId { node_type: tag, instance: key };
        proof {
            assert forall|t: int, k: ItemKey|
                0 <= t < self.nodes.subs@.len() && #[trigger] self.nodes.subs@[t].contains_key(k)
                    implies self.key_factory.key_live(k) by {
                if t == tag.0 as int && k != key {
                    assert(old(self).nodes.subs@[t].contains_key(k));
                } else if t != tag.0 as int {
                    assert(old(self).nodes.subs@[t].contains_key(k));
                }
            }
            assert forall|t1: int, t2: int, k: ItemKey|
                0 <= t1 < self.nodes.subs@.len() && 0 <= t2 < self.nodes.subs@.len() && t1 != t2
                    && #[trigger] self.nodes.subs@[t1].contains_key(k) implies !#[trigger] self
                .nodes.subs@[t2].contains_key(k) by {
                if t1 == tag.0 as int && k == key {
                    if self.nodes.subs@[t2].contains_key(k) {
                        assert(old(self).nodes.subs@[t2].contains_key(k));
                        assert(old(self).key_factory.key_live(k));
                    }
                } else {
                    assert(old(self).nodes.subs@[t1].contains_key(k));
                    if self.nodes.subs@[t2].contains_key(k) {
                        if t2 == tag.0 as int && k == key {
                            assert(old(self).key_factory.key_live(k));
                        } else {
                            assert(old(self).nodes.subs@[t2].contains_key(k));
                        }
                    }
                }
            }
        }
        Ok(id)
    }

    /// Exactly what [`Self::free`] does: the record named by `id` is gone,
    /// its key is dead with a bumped generation, and nothing else moves.
    pub open spec fn free_post(
        pre: Self,
        post: Self,
        id: NodeId,
        r: Result<(), StoreError>,
    ) -> bool {
        &&& post.nodes.codes@ == pre.nodes.codes@
        &&& post.nodes.subs@.len() == pre.nodes.subs@.len()
        &&& !pre.nodes.tag_valid(id.node_type) ==> {
            &&& r is Err
            &&& r->Err_0 == StoreError::UnregisteredType
            &&& post.nodes.subs@ == pre.nodes.subs@
            &&& post.key_factory == pre.key_factory
        }
        &&& pre.nodes.tag_valid(id.node_type) && !pre.contains_id(id) ==> {
            &&& r is Err
            &&& r->Err_0 == StoreError::MissingKey
            &&& post.key_factory == pre.key_factory
            &&& forall|k2: ItemKey|
                post.nodes.sub(id.node_type).contains_key(k2) == pre.nodes.sub(
                    id.node_type,
                ).contains_key(k2)
            &&& forall|k2: ItemKey|
                pre.nodes.sub(id.node_type).contains_key(k2) ==> post.nodes.sub(
                    id.node_type,
                ).cell(k2) == pre.nodes.sub(id.node_type).cell(k2)
            &&& forall|t: int|
                0 <= t < pre.nodes.subs@.len() && t != id.node_type.0 as int
                    ==> post.nodes.subs@[t] == pre.nodes.subs@[t]
        }
        &&& pre.contains_id(id) ==> {
            &&& r is Ok
            &&& !post.contains_id(id)
            &&& KeyAllocator::free_post(pre.key_factory, post.key_factory, id.instance)
            &&& forall|k2: ItemKey|
                k2 != id.instance ==> post.nodes.sub(id.node_type).contains_key(k2) == pre.nodes.sub(
                    id.node_type,
                ).contains_key(k2)
            &&& forall|k2: ItemKey|
                k2 != id.instance && pre.nodes.sub(id.node_type).contains_key(k2) ==> post.nodes.sub(
                    id.node_type,
                ).cell(k2) == pre.nodes.sub(id.node_type).cell(k2)
            &&& forall|t: int|
                0 <= t < pre.nodes.subs@.len() && t != id.node_type.0 as int
                    ==> post.nodes.subs@[t] == pre.nodes.subs@[t]
        }
    }

    /// Destroys the record named by `id` and frees its key, bumping the
    /// slot's generation so stale copies of `id` are rejected from now on.
    /// A record whose value is lent out can still be freed: the borrower
    /// keeps the value, and their release will report the record as missing.
    pub fn free(&mut self, id: &NodeId) -> (r: Result<(), StoreError>)
        requires
            old(self).wf(),
        ensures
            final(self).wf(),
            Self::free_post(*old(self), *final(self), *id, r),
    {
        match self.nodes.remove(id.node_type, id.instance) {
            Err(e) => Err(e),
            Ok(_taken) => {
                proof {
                    assert(old(self).nodes.subs@[id.node_type.0 as int].contains_key(id.instance));
                    assert(old(self).key_factory.key_live(id.instance));
                }
                let _ = self.key_factory.free(id.instance);
                proof {
                    assert forall|t: int, k: ItemKey|
                        0 <= t < self.nodes.subs@.len() && #[trigger] self.nodes.subs@[t].contains_key(
                            k,
                        ) implies self.key_factory.key_live(k) by {
                        assert(old(self).nodes.subs@[t].contains_key(k));
                        assert(old(self).key_factory.key_live(k));
                        if t == id.node_type.0 as int {
                            assert(k != id.instance);
                        } else {
                            if k == id.instance {
                                assert(old(self).nodes.subs@[id.node_type.0 as int].contains_key(
                                    k,
                                ));
                                assert(false);
                            }
                        }
                    }
                }
                Ok(())
            },
        }
    }

    /// Exactly what [`Self::get_element`] does: with a present, available
    /// record, its value comes out with a guard for `id` and the cell goes to
    /// the lent state; otherwise the storage is unchanged and the error says
    /// which precondition failed.
    pub open spec fn get_post(
        pre: Self,
        post: Self,
        id: NodeId,
        r: Result<(V, BorrowDropper), StoreError>,
    ) -> bool {
        &&& post.nodes.codes@ == pre.nodes.codes@
        &&& post.nodes.subs@.len() == pre.nodes.subs@.len()
        &&& post.key_factory == pre.key_factory
        &&& !pre.nodes.tag_valid(id.node_type) ==> {
            &&& r is Err
            &&& r->Err_0 == StoreError::UnregisteredType
            &&& post.nodes.subs@ == pre.nodes.subs@
        }
        &&& pre.nodes.tag_valid(id.node_type) ==> {
            &&& forall|k2: ItemKey|
                post.nodes.sub(id.node_type).contains_key(k2) == pre.nodes.sub(
                    id.node_type,
                ).contains_key(k2)
            &&& forall|k2: ItemKey|
                k2 != id.instance && pre.nodes.sub(id.node_type).contains_key(k2)
                    ==> post.nodes.sub(id.node_type).cell(k2) == pre.nodes.sub(id.node_type).cell(
                    k2,
                )
            &&& forall|t: int|
                0 <= t < pre.nodes.subs@.len() && t != id.node_type.0 as int
                    ==> post.nodes.subs@[t] == pre.nodes.subs@[t]
            &&& !pre.contains_id(id) ==> r is Err && r->Err_0 == StoreError::MissingKey
            &&& pre.node_lent(id) ==> r is Err && r->Err_0 == StoreError::AlreadyBorrowed
                && post.nodes.sub(id.node_type).cell(id.instance) == pre.nodes.sub(
                id.node_type,
            ).cell(id.instance)
            &&& pre.node_ready(id) ==> {
                &&& r is Ok
                &&& r->Ok_0.0 == pre.node_value(id).unwrap()
                &&& r->Ok_0.1.spec_id() == id
                &&& post.node_lent(id)
            }
        }
    }

    /// Acquires the record named by `id` exclusively: returns its value and
    /// the guard that must be spent on the matching release. Fails with
    /// `UnregisteredType` for a tag never handed out, `MissingKey` for a
    /// freed or stale key, and `AlreadyBorrowed` while the value is lent out.
    pub fn get_element(&mut self, id: NodeId) -> (r: Result<(V, BorrowDropper), StoreError>)
        requires
            old(self).wf(),
        ensures
            final(self).wf(),
            Self::get_post(*old(self), *final(self), id, r),
    {
        match self.nodes.take(id.node_type, id.instance) {
            Err(e) => Err(e),
            Ok(v) => Ok((v, BorrowDropper::new(id.node_type, id.instance))),
        }
    }

    /// Exactly what [`Self::put_element`] does: a release with the guard of
    /// an outstanding borrow puts `v` back and frees the cell for the next
    /// acquisition; otherwise nothing changes and the value comes back.
    pub open spec fn put_post(
        pre: Self,
        post: Self,
        id: NodeId,
        v: V,
        r: Result<(), (V, StoreError)>,
    ) -> bool {
        &&& post.nodes.codes@ == pre.nodes.codes@
        &&& post.nodes.subs@.len() == pre.nodes.subs@.len()
        &&& post.key_factory == pre.key_factory
        &&& !pre.nodes.tag_valid(id.node_type) ==> {
            &&& r is Err
            &&& r->Err_0 == (v, StoreError::UnregisteredType)
            &&& post.nodes.subs@ == pre.nodes.subs@
        }
        &&& pre.nodes.tag_valid(id.node_type) ==> {
            &&& forall|k2: ItemKey|
                post.nodes.sub(id.node_type).contains_key(k2) == pre.nodes.sub(
                    id.node_type,
                ).contains_key(k2)
            &&& forall|k2: ItemKey|
                k2 != id.instance && pre.nodes.sub(id.node_type).contains_key(k2)
                    ==> post.nodes.sub(id.node_type).cell(k2) == pre.nodes.sub(id.node_type).cell(
                    k2,
                )
            &&& forall|t: int|
                0 <= t < pre.nodes.subs@.len() && t != id.node_type.0 as int
                    ==> post.nodes.subs@[t] == pre.nodes.subs@[t]
            &&& !pre.contains_id(id) ==> r is Err && r->Err_0 == (v, StoreError::MissingKey)
            &&& pre.node_ready(id) ==> r is Err && r->Err_0 == (v, StoreError::NotBorrowed)
                && post.nodes.sub(id.node_type).cell(id.instance) == pre.nodes.sub(
                id.node_type,
            ).cell(id.instance)
            &&& pre.node_lent(id) ==> r is Ok && post.node_ready(id) && post.node_value(id)
                == Some(v)
        }
    }

    /// Releases an exclusive borrow: spends `guard` and moves `v` back into
    /// the record the guard was minted for. Fails — handing `v` back — when
    /// that record was freed in the meantime or is not in the lent state.
    pub fn put_element(&mut self, guard: BorrowDropper, v: V) -> (r: Result<
        (),
        (V, StoreError),
    >)
        requires
            old(self).wf(),
        ensures
            final(self).wf(),
            Self::put_post(*old(self), *final(self), guard.spec_id(), v, r),
    {
        self.nodes.put(guard.node_type, guard.instance, v)
    }

    /// The identifiers of every stored record of the type tagged `tag`, in
    /// increasing slot-index order.
    pub fn get_ids(&self, tag: MiniTypeId) -> (r: Result<Vec<NodeId>, StoreError>)
        requires
            self.wf(),
        ensures
            r is Ok <==> self.nodes.tag_valid(tag),
            r is Err ==> r->Err_0 == StoreError::UnregisteredType,
            r matches Ok(ids) ==> {
                &&& forall|j: int|
                    0 <= j < ids@.len() ==> (#[trigger] ids@[j]).node_type == tag
                        && self.contains_id(ids@[j])
                &&& forall|k: ItemKey|
                    self.nodes.sub(tag).contains_key(k) ==> ids@.contains(
                        NodeId { node_type: tag, instance: k },
                    )
                &&& forall|j1: int, j2: int|
                    0 <= j1 < j2 < ids@.len() ==> ids@[j1].instance.index
                        < ids@[j2].instance.index
            },
    {
        let keys = match self.nodes.keys(tag) {
            Err(e) => {
                return Err(e);
            },
            Ok(ks) => ks,
        };
        let mut ids: Vec<NodeId> = Vec::new();
        let mut j: usize = 0;
        while j < keys.len()
            invariant
                j <= keys@.len(),
                ids@.len() == j,
                self.nodes.tag_valid(tag),
                forall|i: int|
                    0 <= i < keys@.len() ==> self.nodes.sub(tag).contains_key(#[trigger] keys@[i]),
                forall|i1: int, i2: int|
                    0 <= i1 < i2 < keys@.len() ==> keys@[i1].index < keys@[i2].index,
                forall|i: int|
                    0 <= i < j ==> ids@[i] == (NodeId { node_type: tag, instance: keys@[i] }),
            decreases keys@.len() - j,
        {
            ids.push(NodeId { node_type: tag, instance: keys[j] });
            j += 1;
        }
        proof {
            assert forall|k: ItemKey| self.nodes.sub(tag).contains_key(k) implies ids@.contains(
                NodeId { node_type: tag, instance: k },
            ) by {
                let keys_seq = keys@;
                assert(keys_seq.contains(k));
                let i = choose|i: int| 0 <= i < keys_seq.len() && keys_seq[i] == k;
                assert(ids@[i] == (NodeId { node_type: tag, instance: k }));
            }
        }
        Ok(ids)
    }

    /// Exactly what [`Self::get_node_cells`] does: either every record of the
    /// tag is delivered, each with its identifier and guard, and all their
    /// cells go to the lent state; or some record was already borrowed, the
    /// error says so, and nothing is acquired.
    pub open spec fn get_all_post(
        pre: Self,
        post: Self,
        tag: MiniTypeId,
        r: Result<Vec<(NodeId, V, BorrowDropper)>, StoreError>,
    ) -> bool {
        &&& post.nodes.codes@ == pre.nodes.codes@
        &&& post.nodes.subs@.len() == pre.nodes.subs@.len()
        &&& post.key_factory == pre.key_factory
        &&& !pre.nodes.tag_valid(tag) ==> {
            &&& r is Err
            &&& r->Err_0 == StoreError::UnregisteredType
            &&& post.nodes.subs@ == pre.nodes.subs@
        }
        &&& pre.nodes.tag_valid(tag) ==> {
            &&& forall|k2: ItemKey|
                post.nodes.sub(tag).contains_key(k2) == pre.nodes.sub(tag).contains_key(k2)
            &&& forall|t: int|
                0 <= t < pre.nodes.subs@.len() && t != tag.0 as int ==> post.nodes.subs@[t]
                    == pre.nodes.subs@[t]
            &&& r is Err && r->Err_0 == StoreError::AlreadyBorrowed ==> {
                &&& exists|k2: ItemKey| pre.nodes.sub(tag).lent(k2)
                &&& forall|k2: ItemKey|
                    pre.nodes.sub(tag).contains_key(k2) ==> post.nodes.sub(tag).cell(k2)
                        == pre.nodes.sub(tag).cell(k2)
            }
            &&& r is Err ==> r->Err_0 == StoreError::AlreadyBorrowed
            &&& r matches Ok(items) ==> {
                &&& forall|k2: ItemKey| !pre.nodes.sub(tag).lent(k2)
                &&& forall|k2: ItemKey|
                    pre.nodes.sub(tag).contains_key(k2) ==> post.nodes.sub(tag).lent(k2)
                &&& forall|j: int|
                    0 <= j < items@.len() ==> {
                        &&& (#[trigger] items@[j]).0.node_type == tag
                        &&& pre.node_ready(items@[j].0)
                        &&& pre.node_value(items@[j].0) == Some(items@[j].1)
                        &&& items@[j].2.spec_id() == items@[j].0
                    }
                &&& forall|k2: ItemKey|
                    pre.nodes.sub(tag).contains_key(k2) ==> exists|j: int|
                        0 <= j < items@.len() && items@[j].0.instance == k2
                &&& forall|j1: int, j2: int|
                    0 <= j1 < j2 < items@.len() ==> items@[j1].0.instance.index
                        < items@[j2].0.instance.index
            }
        }
    }

    /// Acquires every record of the type tagged `tag` at once, each value
    /// paired with its identifier and its own guard, in increasing slot-index
    /// order. Fails without acquiring anything when any record of the tag is
    /// already borrowed.
    pub fn get_node_cells(&mut self, tag: MiniTypeId) -> (r: Result<
        Vec<(NodeId, V, BorrowDropper)>,
        StoreError,
    >)
        requires
            old(self).wf(),
        ensures
            final(self).wf(),
            Self::get_all_post(*old(self), *final(self), tag, r),
    {
        let mut items = match self.nodes.take_all(tag) {
            Err(e) => {
                return Err(e);
            },
            Ok(items) => items,
        };
        let ghost items0 = items@;
        let mut out: Vec<(NodeId, V, BorrowDropper)> = Vec::new();
        while items.len() > 0
            invariant
                out@.len() + items@.len() == items0.len(),
                forall|j: int| 0 <= j < items@.len() ==> items@[j] == items0[out@.len() + j],
                forall|j: int|
                    0 <= j < out@.len() ==> {
                        &&& (#[trigger] out@[j]).0 == (NodeId {
                            node_type: tag,
                            instance: items0[j].0,
                        })
                        &&& out@[j].1 == items0[j].1
                        &&& out@[j].2.spec_id() == out@[j].0
                    },
            decreases items@.len(),
        {
            let (k, v) = items.remove(0);
            let id = NodeId { node_type: tag, instance: k };
            out.push((id, v, BorrowDropper::new(tag, k)));
        }
        proof {
            assert forall|k2: ItemKey|
                old(self).nodes.sub(tag).contains_key(k2) implies exists|j: int|
                0 <= j < out@.len() && out@[j].0.instance == k2 by {
                let j = choose|j: int| 0 <= j < items0.len() && items0[j].0 == k2;
                assert(out@[j].0.instance == k2);
            }
        }
        Ok(out)
    }

    /// Round trip: storing a value and acquiring it through the returned
    /// identifier yields exactly that value, whatever the store held before.
    pub proof fn lemma_round_trip(
        s0: Self,
        s1: Self,
        s2: Self,
        tag: MiniTypeId,
        v: V,
        r1: Result<NodeId, StoreError>,
        r2: Result<(V, BorrowDropper), StoreError>,
    )
        requires
            s0.nodes.tag_valid(tag),
            Self::spawn_post(s0, s1, tag, v, r1),
            Self::get_post(s1, s2, r1->Ok_0, r2),
        ensures
            s1.node_ready(r1->Ok_0),
            s1.node_value(r1->Ok_0) == Some(v),
            r2 is Ok,
            r2->Ok_0.0 == v,
    {
    }

    /// Key uniqueness: two stores in a row return identifiers with distinct
    /// keys, whatever their tags; with the allocator's
    /// [`KeyAllocator::lemma_mint_sequence_distinct`] this extends to any run
    /// of stores without intervening frees.
    pub proof fn lemma_spawn_ids_distinct(
        s0: Self,
        s1: Self,
        s2: Self,
        tag1: MiniTypeId,
        tag2: MiniTypeId,
        v1: V,
        v2: V,
        r1: Result<NodeId, StoreError>,
        r2: Result<NodeId, StoreError>,
    )
        requires
            s0.nodes.tag_valid(tag1),
            s1.nodes.tag_valid(tag2),
            Self::spawn_post(s0, s1, tag1, v1, r1),
            Self::spawn_post(s1, s2, tag2, v2, r2),
        ensures
            r1->Ok_0.instance != r2->Ok_0.instance,
            r1->Ok_0 != r2->Ok_0,
    {
        KeyAllocator::lemma_mint_preserves_live(
            s1.key_factory,
            s2.key_factory,
            r2->Ok_0.instance,
            r1->Ok_0.instance,
        );
    }

    /// Generation safety: after a record is freed, a store that reuses the
    /// same slot index hands out a key under a strictly larger generation, so
    /// the new identifier never compares equal to the stale one; and an
    /// acquisition with the stale identifier is rejected as missing.
    pub proof fn lemma_stale_id_rejected(
        s0: Self,
        s1: Self,
        s2: Self,
        s3: Self,
        id: NodeId,
        tag2: MiniTypeId,
        v: V,
        rf: Result<(), StoreError>,
        rs: Result<NodeId, StoreError>,
        rg: Result<(V, BorrowDropper), StoreError>,
    )
        requires
            s0.wf(),
            s0.contains_id(id),
            Self::free_post(s0, s1, id, rf),
            s1.nodes.tag_valid(tag2),
            Self::spawn_post(s1, s2, tag2, v, rs),
            Self::get_post(s2, s3, id, rg),
        ensures
            !s1.contains_id(id),
            !s2.contains_id(id),
            rs->Ok_0 != id,
            rs->Ok_0.instance != id.instance,
            rs->Ok_0.instance.index == id.instance.index ==> rs->Ok_0.instance.generation
                > id.instance.generation,
            rg is Err,
            rg->Err_0 == StoreError::MissingKey,
    {
        let k = id.instance;
        let k2 = rs->Ok_0.instance;
        assert(s0.key_factory.key_live(k));
        if k2.index == k.index {
            KeyAllocator::lemma_generation_safety(
                s0.key_factory,
                s1.key_factory,
                s2.key_factory,
                k,
                k2,
            );
        }
        assert(!s1.contains_id(id));
        if id.node_type == tag2 {
            assert(s2.nodes.sub(id.node_type).contains_key(k) == s1.nodes.sub(
                id.node_type,
            ).contains_key(k));
        } else {
            assert(s2.nodes.subs@[id.node_type.0 as int] == s1.nodes.subs@[id.node_type.0 as int]);
        }
    }

    /// Exclusive borrow: a second acquisition of the same record, made while
    /// the first borrow is outstanding, is refused as already borrowed.
    pub proof fn lemma_exclusive_borrow(
        s0: Self,
        s1: Self,
        s2: Self,
        id: NodeId,
        r1: Result<(V, BorrowDropper), StoreError>,
        r2: Result<(V, BorrowDropper), StoreError>,
    )
        requires
            Self::get_post(s0, s1, id, r1),
            r1 is Ok,
            Self::get_post(s1, s2, id, r2),
        ensures
            r2 is Err,
            r2->Err_0 == StoreError::AlreadyBorrowed,
    {
        assert(s0.nodes.tag_valid(id.node_type));
        assert(s0.contains_id(id));
        assert(s0.node_ready(id));
    }

    /// Exclusive borrow, release half: once the guard of an outstanding
    /// borrow is spent on a release, the next acquisition succeeds and sees
    /// the released value.
    pub proof fn lemma_release_reenables_borrow(
        s0: Self,
        s1: Self,
        s2: Self,
        id: NodeId,
        v: V,
        r1: Result<(), (V, StoreError)>,
        r2: Result<(V, BorrowDropper), StoreError>,
    )
        requires
            s0.node_lent(id),
            Self::put_post(s0, s1, id, v, r1),
            Self::get_post(s1, s2, id, r2),
        ensures
            r1 is Ok,
            r2 is Ok,
            r2->Ok_0.0 == v,
    {
    }

    /// Type isolation: storing a record of one type leaves every other
    /// type's sub-container untouched, and the new identifier is invisible
    /// there — in particular an acquisition of all records of another type
    /// never lists it.
    pub proof fn lemma_type_isolation(
        s0: Self,
        s1: Self,
        s2: Self,
        tag_a: MiniTypeId,
        tag_b: MiniTypeId,
        v: V,
        r: Result<NodeId, StoreError>,
        rb: Result<Vec<(NodeId, V, BorrowDropper)>, StoreError>,
    )
        requires
            s0.wf(),
            s0.nodes.tag_valid(tag_a),
            s0.nodes.tag_valid(tag_b),
            tag_a != tag_b,
            Self::spawn_post(s0, s1, tag_a, v, r),
            Self::get_all_post(s1, s2, tag_b, rb),
        ensures
            s1.nodes.sub(tag_b) == s0.nodes.sub(tag_b),
            !s1.nodes.sub(tag_b).contains_key(r->Ok_0.instance),
            rb matches Ok(items) ==> forall|j: int|
                0 <= j < items@.len() ==> (#[trigger] items@[j]).0 != r->Ok_0,
    {
        let k = r->Ok_0.instance;
        assert(s1.nodes.subs@[tag_b.0 as int] == s0.nodes.subs@[tag_b.0 as int]);
        if s0.nodes.sub(tag_b).contains_key(k) {
            assert(s0.key_factory.key_live(k));
        }
        if rb is Ok {
            let items = rb->Ok_0;
            assert forall|j: int| 0 <= j < items@.len() implies (#[trigger] items@[j]).0 != r
                ->Ok_0 by {
                assert(s1.node_ready(items@[j].0));
                assert(s1.nodes.sub(tag_b).contains_key(items@[j].0.instance));
            }
        }
    }
}

} // verus!
