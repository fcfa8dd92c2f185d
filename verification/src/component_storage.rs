//! Storage for separately stored fields ("components") of records, keyed by
//! the owning record's key.
//!
//! A component type gets its own tag and sub-container from the registry,
//! exactly like a record type; a component is filed under the key of the
//! record it belongs to, so looking it up needs no extra allocation. The
//! handle to a component pairs its type tag with that key.

use vstd::prelude::*;

use crate::errors::StoreError;
use crate::key::ItemKey;
use crate::mini_type_id::MiniTypeId;
use crate::mini_type_map::MiniTypeMap;
use crate::sub_storage::SubStorage;

verus! {

/// The composite handle of a stored component: the dense tag of the
/// component's type plus the key of the record that owns it.
#[derive(Copy, Clone, Debug, PartialEq, Eq, Structural)]
pub struct ComponentId {
    pub component_type: MiniTypeId,
    pub key: ItemKey,
}

impl ComponentId {
    /// The handle for a component of the type tagged `component_type`, owned
    /// by the record keyed `key`. Use it only for a component actually filed
    /// under that tag and key: lookups with a made-up handle report a missing
    /// key.
    pub fn new(component_type: MiniTypeId, key: ItemKey) -> (r: Self)
        ensures
            r == (ComponentId { component_type, key }),
    {
        ComponentId { component_type, key }
    }
}

/// Storage of all components: a registry of per-type sub-containers whose
/// keys are owned by the record storage.
pub struct ComponentStorage<C>(pub MiniTypeMap<C>);

impl<C> ComponentStorage<C> {
    /// Structural invariant: the registry's own.
    pub open spec fn wf(self) -> bool {
        self.0.wf()
    }

    /// True when `id` names a stored component.
    pub open spec fn contains_id(self, id: ComponentId) -> bool {
        self.0.contains(id.component_type, id.key)
    }

    /// The value of the component named by `id`, when present and not
    /// checked out.
    pub open spec fn component_value(self, id: ComponentId) -> Option<C> {
        if self.contains_id(id) {
            self.0.sub(id.component_type).value_of(id.key)
        } else {
            None
        }
    }

    /// An empty component storage.
    pub fn new() -> (r: Self)
        ensures
            r.wf(),
            r.0.codes@.len() == 0,
    {
        ComponentStorage(MiniTypeMap::new())
    }

    /// Registers a component type code, idempotently; see
    /// [`MiniTypeMap::register`].
    pub fn register(&mut self, code: u64) -> (r: Result<MiniTypeId, StoreError>)
        requires
            old(self).wf(),
        ensures
            final(self).wf(),
            MiniTypeMap::register_post(old(self).0, final(self).0, code, r),
    {
        self.0.register(code)
    }

    /// Files `component` under the owning record's key in `tag`'s
    /// sub-container and returns its handle. The key's index must be nowhere
    /// in use within that sub-container: a record owns at most one component
    /// of each type.
    pub fn insert(&mut self, tag: MiniTypeId, key: ItemKey, component: C) -> (r: Result<
        ComponentId,
        StoreError,
    >)
        requires
            old(self).wf(),
            old(self).0.tag_valid(tag) ==> forall|k2: ItemKey|
                old(self).0.sub(tag).contains_key(k2) ==> k2.index != key.index,
        ensures
            final(self).wf(),
            final(self).0.codes@ == old(self).0.codes@,
            final(self).0.subs@.len() == old(self).0.subs@.len(),
            !old(self).0.tag_valid(tag) ==> r is Err && r->Err_0 == StoreError::UnregisteredType
                && final(self).0.subs@ == old(self).0.subs@,
            old(self).0.tag_valid(tag) ==> {
                &&& r is Ok
                &&& r->Ok_0 == (ComponentId { component_type: tag, key })
                &&& SubStorage::insert_post(
                    old(self).0.sub(tag),
                    final(self).0.sub(tag),
                    key,
                    component,
                )
                &&& forall|t: int|
                    0 <= t < old(self).0.subs@.len() && t != tag.0 as int
                        ==> final(self).0.subs@[t] == old(self).0.subs@[t]
            },
    {
        match self.0.insert(tag, key, component) {
            Ok(()) => Ok(ComponentId::new(tag, key)),
            Err(e) => Err(e),
        }
    }

    /// Checks the component named by `id` out exclusively; a later
    /// [`Self::put_component`] checks it back in.
    pub fn get_component(&mut self, id: &ComponentId) -> (r: Result<C, StoreError>)
        requires
            old(self).wf(),
        ensures
            final(self).wf(),
            final(self).0.codes@ == old(self).0.codes@,
            final(self).0.subs@.len() == old(self).0.subs@.len(),
            !old(self).0.tag_valid(id.component_type) ==> r is Err && r->Err_0
                == StoreError::UnregisteredType && final(self).0.subs@ == old(self).0.subs@,
            old(self).0.tag_valid(id.component_type) ==> {
                &&& SubStorage::take_post(
                    old(self).0.sub(id.component_type),
                    final(self).0.sub(id.component_type),
                    id.key,
                    r,
                )
                &&& forall|t: int|
                    0 <= t < old(self).0.subs@.len() && t != id.component_type.0 as int
                        ==> final(self).0.subs@[t] == old(self).0.subs@[t]
            },
    {
        self.0.take(id.component_type, id.key)
    }

    /// Checks a component back in under its handle. On failure the value
    /// travels back to the caller.
    pub fn put_component(&mut self, id: &ComponentId, component: C) -> (r: Result<
        (),
        (C, StoreError),
    >)
        requires
            old(self).wf(),
        ensures
            final(self).wf(),
            final(self).0.codes@ == old(self).0.codes@,
            final(self).0.subs@.len() == old(self).0.subs@.len(),
            !old(self).0.tag_valid(id.component_type) ==> r is Err && r->Err_0 == (
                component,
                StoreError::UnregisteredType,
            ) && final(self).0.subs@ == old(self).0.subs@,
            old(self).0.tag_valid(id.component_type) ==> {
                &&& SubStorage::put_post(
                    old(self).0.sub(id.component_type),
                    final(self).0.sub(id.component_type),
                    id.key,
                    component,
                    r,
                )
                &&& forall|t: int|
                    0 <= t < old(self).0.subs@.len() && t != id.component_type.0 as int
                        ==> final(self).0.subs@[t] == old(self).0.subs@[t]
            },
    {
        self.0.put(id.component_type, id.key, component)
    }

    /// Checks every component of the type tagged `tag` out at once, each
    /// paired with its handle, in increasing key-index order. Fails without
    /// taking anything when any of them is already checked out.
    pub fn get_components(&mut self, tag: MiniTypeId) -> (r: Result<
        Vec<(ComponentId, C)>,
        StoreError,
    >)
        requires
            old(self).wf(),
        ensures
            final(self).wf(),
            final(self).0.codes@ == old(self).0.codes@,
            final(self).0.subs@.len() == old(self).0.subs@.len(),
            !old(self).0.tag_valid(tag) ==> r is Err && r->Err_0 == StoreError::UnregisteredType
                && final(self).0.subs@ == old(self).0.subs@,
            old(self).0.tag_valid(tag) ==> {
                &&& forall|t: int|
                    0 <= t < old(self).0.subs@.len() && t != tag.0 as int
                        ==> final(self).0.subs@[t] == old(self).0.subs@[t]
                &&& forall|k2: ItemKey|
                    final(self).0.sub(tag).contains_key(k2) == old(self).0.sub(tag).contains_key(
                        k2,
                    )
                &&& r is Err ==> r->Err_0 == StoreError::AlreadyBorrowed && forall|k2: ItemKey|
                    old(self).0.sub(tag).contains_key(k2) ==> final(self).0.sub(tag).cell(k2)
                        == old(self).0.sub(tag).cell(k2)
                &&& r matches Ok(items) ==> {
                    &&& forall|k2: ItemKey|
                        old(self).0.sub(tag).contains_key(k2) ==> final(self).0.sub(tag).lent(k2)
                    &&& forall|j: int|
                        0 <= j < items@.len() ==> {
                            &&& (#[trigger] items@[j]).0.component_type == tag
                            &&& old(self).0.sub(tag).ready(items@[j].0.key)
                            &&& old(self).0.sub(tag).value_of(items@[j].0.key) == Some(
                                items@[j].1,
                            )
                        }
                    &&& forall|k2: ItemKey|
                        old(self).0.sub(tag).contains_key(k2) ==> exists|j: int|
                            0 <= j < items@.len() && items@[j].0.key == k2
                    &&& forall|j1: int, j2: int|
                        0 <= j1 < j2 < items@.len() ==> items@[j1].0.key.index
                            < items@[j2].0.key.index
                }
            },
    {
        let mut taken = match self.0.take_all(tag) {
            Err(e) => {
                return Err(e);
            },
            Ok(items) => items,
        };
        let ghost taken0 = taken@;
        let mut out: Vec<(ComponentId, C)> = Vec::new();
        while taken.len() > 0
            invariant
                out@.len() + taken@.len() == taken0.len(),
                forall|j: int| 0 <= j < taken@.len() ==> taken@[j] == taken0[out@.len() + j],
                forall|j: int|
                    0 <= j < out@.len() ==> {
                        &&& (#[trigger] out@[j]).0 == (ComponentId {
                            component_type: tag,
                            key: taken0[j].0,
                        })
                        &&& out@[j].1 == taken0[j].1
                    },
            decreases taken@.len(),
        {
            let (k, c) = taken.remove(0);
            out.push((ComponentId::new(tag, k), c));
        }
        proof {
            assert forall|k2: ItemKey|
                old(self).0.sub(tag).contains_key(k2) implies exists|j: int|
                0 <= j < out@.len() && out@[j].0.key == k2 by {
                let j = choose|j: int| 0 <= j < taken0.len() && taken0[j].0 == k2;
                assert(out@[j].0.key == k2);
            }
        }
        Ok(out)
    }
}

} // verus!
