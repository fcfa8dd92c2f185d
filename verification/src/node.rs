//! The external handle to a stored record.

use vstd::prelude::*;

use crate::key::ItemKey;
use crate::mini_type_id::MiniTypeId;

verus! {

/// The composite identifier of a stored record: the dense tag of its type
/// plus the generational key of its slot. This is the handle returned to
/// callers and accepted by every retrieval operation.
#[derive(Copy, Clone, Debug, PartialEq, Eq, Structural)]
pub struct NodeId {
    pub node_type: MiniTypeId,
    pub instance: ItemKey,
}

} // verus!
