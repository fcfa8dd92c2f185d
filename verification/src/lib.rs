//! A heterogeneous object store with a compact type registry, a generational
//! key allocator, per-slot exclusive-access tracking, and a dynamic-interface
//! lookup table.
//!
//! Callers register record types at run time and receive dense integer tags;
//! stored items are addressed by composite identifiers pairing a tag with a
//! generational key, so stale handles are detected and rejected in O(1).
//! Every stored item carries its own exclusive-access state: acquiring an
//! item moves its value out against a guard, and nothing else can acquire it
//! until the guard is spent on a release. A registry of factories keyed by
//! (interface, type tag) pairs lets a consumer that knows only an interface
//! retrieve any item whose type was registered for it.

use vstd::prelude::*;

pub mod component_storage;
pub mod errors;
pub mod key;
pub mod mini_type_id;
pub mod mini_type_map;
pub mod node;
pub mod node_storage;
pub mod relations;
pub mod storage;
pub mod sub_storage;
pub mod trait_map;
pub mod world;

pub use component_storage::ComponentId;
pub use component_storage::ComponentStorage;
pub use errors::StoreError;
pub use errors::type_not_registered;
pub use key::ItemKey;
pub use key::KeyAllocator;
pub use mini_type_id::MiniTypeId;
pub use mini_type_map::MiniTypeMap;
pub use node::NodeId;
pub use node_storage::BorrowDropper;
pub use node_storage::NodeStorage;
pub use relations::Relations;
pub use storage::Storage;
pub use sub_storage::RecipeTupleCell;
pub use sub_storage::SubStorage;
pub use trait_map::TraitMap;
pub use world::World;

verus! {

} // verus!
