//! The two halves of the store's memory: whole records and their separately
//! stored components.

use vstd::prelude::*;

use crate::component_storage::ComponentStorage;
use crate::node_storage::NodeStorage;

verus! {

/// All stored data: the record storage with its key allocator, and the
/// component storage keyed by the records' keys.
pub struct Storage<V, C> {
    pub nodes: NodeStorage<V>,
    pub components: ComponentStorage<C>,
}

impl<V, C> Storage<V, C> {
    /// Structural invariant: both halves are well formed.
    pub open spec fn wf(self) -> bool {
        self.nodes.wf() && self.components.wf()
    }

    /// An empty store.
    pub fn new() -> (r: Self)
        ensures
            r.wf(),
            r.nodes.nodes.codes@.len() == 0,
            r.components.0.codes@.len() == 0,
            forall|k: crate::key::ItemKey| !r.nodes.key_factory.key_live(k),
    {
        Storage { nodes: NodeStorage::new(), components: ComponentStorage::new() }
    }
}

impl<V, C> Default for Storage<V, C> {
    /// Same as [`Storage::new`].
    fn default() -> (r: Self)
        ensures
            r.wf(),
            r.nodes.nodes.codes@.len() == 0,
            r.components.0.codes@.len() == 0,
            forall|k: crate::key::ItemKey| !r.nodes.key_factory.key_live(k),
    {
        Storage::new()
    }
}

} // verus!
