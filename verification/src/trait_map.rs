//! The dynamic interface registry: factories that materialize a stored record
//! as an interface view, keyed by (interface, type tag).
//!
//! A consumer that knows only an interface — named by a 64-bit interface code
//! — can retrieve a record given just its composite identifier: the registry
//! looks up the factory registered for the pair of that code and the
//! identifier's type tag and invokes it against the record obtained from
//! storage. At most one factory is registered per pair; registering again
//! replaces it.

use core::marker::PhantomData;
use vstd::prelude::*;

use crate::errors::StoreError;
use crate::mini_type_id::MiniTypeId;
use crate::node::NodeId;
use crate::node_storage::NodeStorage;

verus! {

/// One registered factory: it materializes records of the type tagged
/// `node_type` as views of the interface coded `trait_code`.
pub struct TraitEntry<F> {
    pub trait_code: u64,
    pub node_type: MiniTypeId,
    pub factory: F,
}

/// The registry of interface factories. `V` is the stored record type, `B`
/// the interface view a factory builds, and `F` the factory type: a function
/// from the record value to that same value alongside its view.
pub struct TraitMap<V, B, F> {
    pub entries: Vec<TraitEntry<F>>,
    pub marker: PhantomData<(V, B)>,
}

impl<V, B, F: Fn(V) -> (V, B)> TraitMap<V, B, F> {
    /// True when entry `i` is the factory of the (`tc`, `tag`) pair.
    pub open spec fn entry_matches(self, i: int, tc: u64, tag: MiniTypeId) -> bool {
        &&& self.entries@[i].trait_code == tc
        &&& self.entries@[i].node_type == tag
    }

    /// Structural invariant: at most one factory per (interface, type) pair,
    /// and every stored factory accepts every record value.
    pub open spec fn wf(self) -> bool {
        &&& forall|i: int, j: int|
            0 <= i < j < self.entries@.len() ==> !(self.entries@[i].trait_code
                == self.entries@[j].trait_code && self.entries@[i].node_type
                == self.entries@[j].node_type)
        &&& forall|i: int, v: V|
            0 <= i < self.entries@.len() ==> #[trigger] call_requires(
                self.entries@[i].factory,
                (v,),
            )
    }

    /// True when a factory is registered for the (`tc`, `tag`) pair.
    pub open spec fn registered_pair(self, tc: u64, tag: MiniTypeId) -> bool {
        exists|i: int| 0 <= i < self.entries@.len() && self.entry_matches(i, tc, tag)
    }

    /// The position of the (`tc`, `tag`) factory (unique under [`Self::wf`]).
    pub open spec fn index_of_pair(self, tc: u64, tag: MiniTypeId) -> int {
        choose|i: int| 0 <= i < self.entries@.len() && self.entry_matches(i, tc, tag)
    }

    /// The factory registered for the (`tc`, `tag`) pair.
    pub open spec fn factory_of(self, tc: u64, tag: MiniTypeId) -> F {
        self.entries@[self.index_of_pair(tc, tag)].factory
    }

    /// Under [`Self::wf`], any entry matching a pair is that pair's one
    /// registered factory.
    pub proof fn lemma_pair_index_unique(self, i: int, tc: u64, tag: MiniTypeId)
        requires
            self.wf(),
            0 <= i < self.entries@.len(),
            self.entry_matches(i, tc, tag),
        ensures
            self.registered_pair(tc, tag),
            self.index_of_pair(tc, tag) == i,
            self.factory_of(tc, tag) == self.entries@[i].factory,
    {
        assert(self.registered_pair(tc, tag));
        let j = self.index_of_pair(tc, tag);
        assert(0 <= j < self.entries@.len() && self.entry_matches(j, tc, tag));
        if i < j {
            assert(false);
        } else if j < i {
            assert(false);
        }
    }

    /// An empty registry.
    pub fn new() -> (r: Self)
        ensures
            r.wf(),
            forall|tc: u64, tag: MiniTypeId| !r.registered_pair(tc, tag),
            r.entries@.len() == 0,
    {
        TraitMap { entries: Vec::new(), marker: PhantomData }
    }

    /// Exactly what [`Self::register`] does: the pair now maps to `f`, and
    /// every other pair maps exactly as before.
    pub open spec fn register_post(pre: Self, post: Self, tc: u64, tag: MiniTypeId, f: F) -> bool {
        &&& post.registered_pair(tc, tag)
        &&& post.factory_of(tc, tag) == f
        &&& forall|tc2: u64, tag2: MiniTypeId|
            !(tc2 == tc && tag2 == tag) ==> #[trigger] post.registered_pair(tc2, tag2)
                == pre.registered_pair(tc2, tag2)
        &&& forall|tc2: u64, tag2: MiniTypeId|
            !(tc2 == tc && tag2 == tag) && pre.registered_pair(tc2, tag2)
                ==> #[trigger] post.factory_of(tc2, tag2) == pre.factory_of(tc2, tag2)
    }

    /// Registers `factory` for the (`trait_code`, `node_type`) pair,
    /// replacing any factory the pair had. The factory must accept every
    /// record value: it is a pure function of a record's contents.
    pub fn register(&mut self, trait_code: u64, node_type: MiniTypeId, factory: F)
        requires
            old(self).wf(),
            forall|v: V| #[trigger] call_requires(factory, (v,)),
        ensures
            final(self).wf(),
            Self::register_post(*old(self), *final(self), trait_code, node_type, factory),
    {
        let mut i: usize = 0;
        while i < self.entries.len()
            invariant
                i <= self.entries@.len(),
                *self == *old(self),
                old(self).wf(),
                forall|v: V| #[trigger] call_requires(factory, (v,)),
                forall|j: int| 0 <= j < i ==> !old(self).entry_matches(j, trait_code, node_type),
            decreases self.entries@.len() - i,
        {
            let e = &self.entries[i];
            if e.trait_code == trait_code && e.node_type == node_type {
                proof {
                    old(self).lemma_pair_index_unique(i as int, trait_code, node_type);
                }
                let ghost f0 = factory;
                self.entries.set(
                    i,
                    TraitEntry { trait_code, node_type, factory },
                );
                proof {
                    assert forall|i1: int, j1: int|
                        0 <= i1 < j1 < self.entries@.len() implies !(self.entries@[i1].trait_code
                        == self.entries@[j1].trait_code && self.entries@[i1].node_type
                        == self.entries@[j1].node_type) by {
                        assert(old(self).entries@[i as int].trait_code == trait_code);
                        assert(old(self).entries@[i as int].node_type == node_type);
                        assert(i1 != i as int ==> self.entries@[i1] == old(self).entries@[i1]);
                        assert(j1 != i as int ==> self.entries@[j1] == old(self).entries@[j1]);
                    }
                    assert forall|i1: int, v: V|
                        0 <= i1 < self.entries@.len() implies #[trigger] call_requires(
                        self.entries@[i1].factory,
                        (v,),
                    ) by {
                        if i1 == i as int {
                            assert(self.entries@[i1].factory == f0);
                            assert(call_requires(f0, (v,)));
                        } else {
                            assert(self.entries@[i1] == old(self).entries@[i1]);
                        }
                    }
                    assert(self.wf());
                    self.lemma_pair_index_unique(i as int, trait_code, node_type);
                    assert forall|tc2: u64, tag2: MiniTypeId|
                        !(tc2 == trait_code && tag2 == node_type) implies #[trigger] self
                        .registered_pair(tc2, tag2) == old(self).registered_pair(tc2, tag2) by {
                        if self.registered_pair(tc2, tag2) {
                            let j = choose|j: int|
                                0 <= j < self.entries@.len() && self.entry_matches(j, tc2, tag2);
                            assert(j != i);
                            assert(old(self).entry_matches(j, tc2, tag2));
                        }
                        if old(self).registered_pair(tc2, tag2) {
                            let j = choose|j: int|
                                0 <= j < old(self).entries@.len() && old(self).entry_matches(
                                    j,
                                    tc2,
                                    tag2,
                                );
                            assert(j != i as int);
                            assert(self.entry_matches(j, tc2, tag2));
                        }
                    }
                    assert forall|tc2: u64, tag2: MiniTypeId|
                        !(tc2 == trait_code && tag2 == node_type) && old(self).registered_pair(
                            tc2,
                            tag2,
                        ) implies #[trigger] self.factory_of(tc2, tag2) == old(self).factory_of(
                        tc2,
                        tag2,
                    ) by {
                        let j = choose|j: int|
                            0 <= j < old(self).entries@.len() && old(self).entry_matches(
                                j,
                                tc2,
                                tag2,
                            );
                        assert(j != i as int);
                        old(self).lemma_pair_index_unique(j, tc2, tag2);
                        assert(self.entry_matches(j, tc2, tag2));
                        self.lemma_pair_index_unique(j, tc2, tag2);
                    }
                }
                return;
            }
            i += 1;
        }
        self.entries.push(TraitEntry { trait_code, node_type, factory });
        proof {
            let n = old(self).entries@.len() as int;
            assert(self.entry_matches(n, trait_code, node_type));
            assert(self.wf()) by {
                assert forall|i1: int, j1: int|
                    0 <= i1 < j1 < self.entries@.len() implies !(self.entries@[i1].trait_code
                    == self.entries@[j1].trait_code && self.entries@[i1].node_type
                    == self.entries@[j1].node_type) by {
                    if j1 == n {
                        assert(!old(self).entry_matches(i1, trait_code, node_type));
                    }
                }
            }
            self.lemma_pair_index_unique(n, trait_code, node_type);
            assert forall|tc2: u64, tag2: MiniTypeId|
                !(tc2 == trait_code && tag2 == node_type) implies #[trigger] self.registered_pair(
                tc2,
                tag2,
            ) == old(self).registered_pair(tc2, tag2) by {
                if self.registered_pair(tc2, tag2) {
                    let j = choose|j: int|
                        0 <= j < self.entries@.len() && self.entry_matches(j, tc2, tag2);
                    assert(j != n);
                    assert(old(self).entry_matches(j, tc2, tag2));
                }
                if old(self).registered_pair(tc2, tag2) {
                    let j = choose|j: int|
                        0 <= j < old(self).entries@.len() && old(self).entry_matches(j, tc2, tag2);
                    assert(self.entry_matches(j, tc2, tag2));
                }
            }
            assert forall|tc2: u64, tag2: MiniTypeId|
                !(tc2 == trait_code && tag2 == node_type) && old(self).registered_pair(tc2, tag2)
                implies #[trigger] self.factory_of(tc2, tag2) == old(self).factory_of(
                tc2,
                tag2,
            ) by {
                let j = choose|j: int|
                    0 <= j < old(self).entries@.len() && old(self).entry_matches(j, tc2, tag2);
                old(self).lemma_pair_index_unique(j, tc2, tag2);
                assert(self.entry_matches(j, tc2, tag2));
                self.lemma_pair_index_unique(j, tc2, tag2);
            }
        }
    }

    /// Exactly what [`Self::get_node`] does: success exactly when the
    /// (interface, type) pair has a factory and the record is present and not
    /// borrowed; each failure names the first condition that broke; no record
    /// appears, disappears, or changes borrow state; and on success the
    /// delivered view and the value left in the record are an input/output
    /// pair of the registered factory on the stored value.
    pub open spec fn resolve_post(
        self,
        pre: NodeStorage<V>,
        post: NodeStorage<V>,
        tc: u64,
        id: NodeId,
        r: Result<B, StoreError>,
    ) -> bool {
        &&& (r is Ok <==> self.registered_pair(tc, id.node_type) && pre.node_ready(id))
        &&& !self.registered_pair(tc, id.node_type) ==> r is Err && r->Err_0
            == StoreError::UnregisteredInterface
        &&& self.registered_pair(tc, id.node_type) ==> {
            &&& !pre.nodes.tag_valid(id.node_type) ==> r is Err && r->Err_0
                == StoreError::UnregisteredType
            &&& pre.nodes.tag_valid(id.node_type) && !pre.contains_id(id) ==> r is Err
                && r->Err_0 == StoreError::MissingKey
            &&& pre.node_lent(id) ==> r is Err && r->Err_0 == StoreError::AlreadyBorrowed
        }
        &&& forall|id2: NodeId| post.contains_id(id2) == pre.contains_id(id2)
        &&& forall|id2: NodeId| post.node_lent(id2) == pre.node_lent(id2)
        &&& r is Ok ==> {
            &&& call_ensures(
                self.factory_of(tc, id.node_type),
                (pre.node_value(id).unwrap(),),
                (post.node_value(id).unwrap(), r->Ok_0),
            )
            &&& post.node_ready(id)
        }
    }

    /// Retrieves the record named by `id` as a view of the interface coded
    /// `trait_code`, by invoking the factory registered for that code and the
    /// record's type tag against the record's value. The record itself stays
    /// stored, not borrowed, holding whatever value the factory handed back.
    ///
    /// Succeeds exactly when the pair has a factory and the record is present
    /// and not borrowed; the errors say which condition failed, interface
    /// registration checked first.
    pub fn get_node(&self, nodes: &mut NodeStorage<V>, trait_code: u64, id: NodeId) -> (r:
        Result<B, StoreError>)
        requires
            self.wf(),
            old(nodes).wf(),
        ensures
            final(nodes).wf(),
            self.resolve_post(*old(nodes), *final(nodes), trait_code, id, r),
            !self.registered_pair(trait_code, id.node_type) ==> *final(nodes) == *old(nodes),
            final(nodes).nodes.codes@ == old(nodes).nodes.codes@,
            final(nodes).nodes.subs@.len() == old(nodes).nodes.subs@.len(),
            final(nodes).key_factory == old(nodes).key_factory,
    {
        let mut i: usize = 0;
        while i < self.entries.len()
            invariant
                i <= self.entries@.len(),
                self.wf(),
                old(nodes).wf(),
                *nodes == *old(nodes),
                forall|j: int| 0 <= j < i ==> !self.entry_matches(j, trait_code, id.node_type),
            decreases self.entries@.len() - i,
        {
            let e = &self.entries[i];
            if e.trait_code == trait_code && e.node_type == id.node_type {
                proof {
                    self.lemma_pair_index_unique(i as int, trait_code, id.node_type);
                }
                let (v, guard) = match nodes.get_element(id) {
                    Err(err) => {
                        return Err(err);
                    },
                    Ok(pair) => pair,
                };
                let (v2, b) = (e.factory)(v);
                let put_back = nodes.put_element(guard, v2);
                proof {
                    assert(put_back is Ok);
                }
                return Ok(b);
            }
            i += 1;
        }
        proof {
            assert(!self.registered_pair(trait_code, id.node_type)) by {
                if self.registered_pair(trait_code, id.node_type) {
                    let j = choose|j: int|
                        0 <= j < self.entries@.len() && self.entry_matches(
                            j,
                            trait_code,
                            id.node_type,
                        );
                }
            }
        }
        Err(StoreError::UnregisteredInterface)
    }

    /// Interface resolution: once a factory is registered for an interface
    /// code and a type tag, resolving any identifier of that tag through that
    /// code succeeds exactly when the record is present and not borrowed, and
    /// on success the delivered view comes from that very factory.
    pub proof fn lemma_interface_resolution(
        tm0: Self,
        tm1: Self,
        tc: u64,
        tag: MiniTypeId,
        f: F,
        pre: NodeStorage<V>,
        post: NodeStorage<V>,
        id: NodeId,
        r: Result<B, StoreError>,
    )
        requires
            Self::register_post(tm0, tm1, tc, tag, f),
            id.node_type == tag,
            tm1.resolve_post(pre, post, tc, id, r),
        ensures
            r is Ok <==> pre.node_ready(id),
            r is Ok ==> call_ensures(
                f,
                (pre.node_value(id).unwrap(),),
                (post.node_value(id).unwrap(), r->Ok_0),
            ),
    {
    }

    /// Interface resolution, negative half: with no factory registered for
    /// the (interface, type) pair, resolution fails as an unregistered
    /// interface, whatever the record's state.
    pub proof fn lemma_unregistered_interface(
        self,
        pre: NodeStorage<V>,
        post: NodeStorage<V>,
        tc: u64,
        id: NodeId,
        r: Result<B, StoreError>,
    )
        requires
            !self.registered_pair(tc, id.node_type),
            self.resolve_post(pre, post, tc, id, r),
        ensures
            r is Err,
            r->Err_0 == StoreError::UnregisteredInterface,
    {
    }
}

} // verus!
