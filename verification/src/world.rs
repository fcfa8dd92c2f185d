//! The store's front door: register types and interfaces, spawn, retrieve,
//! enumerate, resolve, and free records.
//!
//! `V` is the record type held in every slot (typically a caller-defined
//! closed union of record variants), `C` the component type, `B` the
//! interface view that registered factories build, and `F` the factory type.

use vstd::prelude::*;

use crate::errors::StoreError;
use crate::key::ItemKey;
use crate::mini_type_id::MiniTypeId;
use crate::node::NodeId;
use crate::node_storage::{BorrowDropper, NodeStorage};
use crate::relations::Relations;
use crate::storage::Storage;
use crate::sub_storage::SubStorage;
use crate::trait_map::TraitMap;

verus! {

/// Storage for all records, related metadata, and the interface registry.
pub struct World<V, C, B, F> {
    pub storage: Storage<V, C>,
    pub trait_map: TraitMap<V, B, F>,
    /// The family ties of each stored record, under the record's key.
    pub community: SubStorage<Relations>,
}

impl<V, C, B, F: Fn(V) -> (V, B)> World<V, C, B, F> {
    /// Structural invariant: the parts are well formed and every record with
    /// family ties is alive.
    pub open spec fn wf(self) -> bool {
        &&& self.storage.wf()
        &&& self.trait_map.wf()
        &&& forall|k: ItemKey|
            #[trigger] self.community.contains_key(k)
                ==> self.storage.nodes.key_factory.key_live(k)
    }

    /// An empty world.
    pub fn new() -> (r: Self)
        ensures
            r.wf(),
            r.storage.nodes.nodes.codes@.len() == 0,
            forall|tc: u64, tag: MiniTypeId| !r.trait_map.registered_pair(tc, tag),
            forall|k: ItemKey| !r.community.contains_key(k),
            forall|k: ItemKey| !r.storage.nodes.key_factory.key_live(k),
    {
        World {
            storage: Storage::new(),
            trait_map: TraitMap::new(),
            community: SubStorage::new(),
        }
    }

    /// Registers a record type code, idempotently: the same code always gets
    /// the same dense tag, and a first registration allocates an empty
    /// sub-container for it. Fails only when the maximum number of distinct
    /// types is already registered.
    pub fn register_node(&mut self, code: u64) -> (r: Result<MiniTypeId, StoreError>)
        requires
            old(self).wf(),
        ensures
            final(self).wf(),
            crate::mini_type_map::MiniTypeMap::register_post(
                old(self).storage.nodes.nodes,
                final(self).storage.nodes.nodes,
                code,
                r,
            ),
            final(self).storage.nodes.key_factory == old(self).storage.nodes.key_factory,
            final(self).storage.components == old(self).storage.components,
            final(self).trait_map == old(self).trait_map,
            final(self).community == old(self).community,
    {
        self.storage.nodes.register(code)
    }

    /// Registers `factory` for resolving records of the type tagged
    /// `node_type` as views of the interface coded `trait_code`, replacing
    /// any factory the pair had. The factory must accept every record value.
    pub fn register_trait(&mut self, trait_code: u64, node_type: MiniTypeId, factory: F)
        requires
            old(self).wf(),
            forall|v: V| #[trigger] call_requires(factory, (v,)),
        ensures
            final(self).wf(),
            TraitMap::register_post(
                old(self).trait_map,
                final(self).trait_map,
                trait_code,
                node_type,
                factory,
            ),
            final(self).storage == old(self).storage,
            final(self).community == old(self).community,
    {
        self.trait_map.register(trait_code, node_type, factory)
    }

    /// Stores `node` as a new record of the type tagged `tag`: a fresh key is
    /// minted, the record is filed under it, its family ties start empty, and
    /// the composite identifier comes back.
    pub fn spawn_node(&mut self, tag: MiniTypeId, node: V) -> (r: Result<NodeId, StoreError>)
        requires
            old(self).wf(),
        ensures
            final(self).wf(),
            NodeStorage::spawn_post(
                old(self).storage.nodes,
                final(self).storage.nodes,
                tag,
                node,
                r,
            ),
            final(self).storage.components == old(self).storage.components,
            final(self).trait_map == old(self).trait_map,
            r is Ok ==> {
                &&& final(self).community.contains_key(r->Ok_0.instance)
                &&& forall|k2: ItemKey|
                    k2 != r->Ok_0.instance ==> final(self).community.contains_key(k2) == old(
                        self,
                    ).community.contains_key(k2)
            },
            r is Err ==> final(self).community == old(self).community,
    {
        let id = match self.storage.nodes.spawn(tag, node) {
            Err(e) => {
                return Err(e);
            },
            Ok(id) => id,
        };
        proof {
            assert forall|k2: ItemKey|
                self.community.contains_key(k2) implies k2.index != id.instance.index by {
                if k2.index == id.instance.index {
                    assert(old(self).community.contains_key(k2));
                    assert(old(self).storage.nodes.key_factory.key_live(k2));
                    assert(k2 != id.instance);
                    assert(self.storage.nodes.key_factory.key_live(k2));
                    self.storage.nodes.key_factory.lemma_live_same_index(k2, id.instance);
                }
            }
        }
        self.community.insert(id.instance, Relations::new(None));
        proof {
            assert forall|k2: ItemKey|
                #[trigger] self.community.contains_key(k2) implies self.storage.nodes.key_factory.key_live(
                k2,
            ) by {
                if k2 != id.instance {
                    assert(old(self).community.contains_key(k2));
                    assert(old(self).storage.nodes.key_factory.key_live(k2));
                }
            }
        }
        Ok(id)
    }

    /// Destroys the record named by `id`: its cell is released, its family
    /// ties dropped, and its key's generation bumped, so every outstanding
    /// copy of `id` is rejected as missing from now on.
    pub fn free_node(&mut self, id: &NodeId) -> (r: Result<(), StoreError>)
        requires
            old(self).wf(),
        ensures
            final(self).wf(),
            NodeStorage::free_post(
                old(self).storage.nodes,
                final(self).storage.nodes,
                *id,
                r,
            ),
            final(self).storage.components == old(self).storage.components,
            final(self).trait_map == old(self).trait_map,
            r is Ok ==> !final(self).community.contains_key(id.instance),
            forall|k2: ItemKey|
                k2 != id.instance ==> final(self).community.contains_key(k2) == old(
                    self,
                ).community.contains_key(k2),
            r is Err ==> final(self).community == old(self).community,
    {
        match self.storage.nodes.free(id) {
            Err(e) => {
                proof {
                    if self.community.contains_key(id.instance) {
                        assert(old(self).storage.nodes.key_factory.key_live(id.instance));
                    }
                }
                Err(e)
            },
            Ok(()) => {
                let _ = self.community.remove(id.instance);
                proof {
                    assert forall|k2: ItemKey|
                        #[trigger] self.community.contains_key(k2) implies self.storage.nodes.key_factory.key_live(
                        k2,
                    ) by {
                        assert(k2 != id.instance);
                        assert(old(self).community.contains_key(k2));
                        assert(old(self).storage.nodes.key_factory.key_live(k2));
                    }
                }
                Ok(())
            },
        }
    }

    /// Acquires the record named by `id` exclusively: its value comes out
    /// with the guard that the matching [`Self::release_node`] must spend.
    pub fn get_node(&mut self, id: NodeId) -> (r: Result<(V, BorrowDropper), StoreError>)
        requires
            old(self).wf(),
        ensures
            final(self).wf(),
            NodeStorage::get_post(old(self).storage.nodes, final(self).storage.nodes, id, r),
            final(self).storage.components == old(self).storage.components,
            final(self).trait_map == old(self).trait_map,
            final(self).community == old(self).community,
    {
        self.storage.nodes.get_element(id)
    }

    /// Releases an exclusive borrow: spends `guard` and moves `node` back
    /// into the record the guard was minted for.
    pub fn release_node(&mut self, guard: BorrowDropper, node: V) -> (r: Result<
        (),
        (V, StoreError),
    >)
        requires
            old(self).wf(),
        ensures
            final(self).wf(),
            NodeStorage::put_post(
                old(self).storage.nodes,
                final(self).storage.nodes,
                guard.spec_id(),
                node,
                r,
            ),
            final(self).storage.components == old(self).storage.components,
            final(self).trait_map == old(self).trait_map,
            final(self).community == old(self).community,
    {
        self.storage.nodes.put_element(guard, node)
    }

    /// Acquires every record of the type tagged `tag` at once, each value
    /// paired with its identifier and its own guard. Fails without acquiring
    /// anything when any record of the tag is already borrowed.
    pub fn get_nodes(&mut self, tag: MiniTypeId) -> (r: Result<
        Vec<(NodeId, V, BorrowDropper)>,
        StoreError,
    >)
        requires
            old(self).wf(),
        ensures
            final(self).wf(),
            NodeStorage::get_all_post(
                old(self).storage.nodes,
                final(self).storage.nodes,
                tag,
                r,
            ),
            final(self).storage.components == old(self).storage.components,
            final(self).trait_map == old(self).trait_map,
            final(self).community == old(self).community,
    {
        self.storage.nodes.get_node_cells(tag)
    }

    /// The identifiers of every stored record of the type tagged `tag`, in
    /// increasing slot-index order.
    pub fn get_node_ids(&self, tag: MiniTypeId) -> (r: Result<Vec<NodeId>, StoreError>)
        requires
            self.wf(),
        ensures
            r is Ok <==> self.storage.nodes.nodes.tag_valid(tag),
            r is Err ==> r->Err_0 == StoreError::UnregisteredType,
            r matches Ok(ids) ==> {
                &&& forall|j: int|
                    0 <= j < ids@.len() ==> (#[trigger] ids@[j]).node_type == tag
                        && self.storage.nodes.contains_id(ids@[j])
                &&& forall|k: ItemKey|
                    self.storage.nodes.nodes.sub(tag).contains_key(k) ==> ids@.contains(
                        NodeId { node_type: tag, instance: k },
                    )
                &&& forall|j1: int, j2: int|
                    0 <= j1 < j2 < ids@.len() ==> ids@[j1].instance.index
                        < ids@[j2].instance.index
            },
    {
        self.storage.nodes.get_ids(tag)
    }

    /// Retrieves the record named by `id` as a view of the interface coded
    /// `trait_code`, through the factory registered for that code and the
    /// record's type tag. This is how a consumer that knows only an interface
    /// operates on a record given just its identifier.
    pub fn get_node_resilient(&mut self, trait_code: u64, id: NodeId) -> (r: Result<
        B,
        StoreError,
    >)
        requires
            old(self).wf(),
        ensures
            final(self).wf(),
            old(self).trait_map.resolve_post(
                old(self).storage.nodes,
                final(self).storage.nodes,
                trait_code,
                id,
                r,
            ),
            final(self).storage.nodes.key_factory == old(self).storage.nodes.key_factory,
            final(self).storage.components == old(self).storage.components,
            final(self).trait_map == old(self).trait_map,
            final(self).community == old(self).community,
    {
        self.trait_map.get_node(&mut self.storage.nodes, trait_code, id)
    }
}

impl<V, C, B, F: Fn(V) -> (V, B)> Default for World<V, C, B, F> {
    /// Same as [`World::new`].
    fn default() -> (r: Self)
        ensures
            r.wf(),
    {
        World::new()
    }
}

} // verus!
