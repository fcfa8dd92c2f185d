//! Dense integer identifiers for registered record types.

use vstd::prelude::*;

verus! {

/// The largest number of distinct record types a registry may hold.
pub const MAX_REGISTERED_TYPES: usize = 65535;

/// A dense integer identifier assigned to a record type the first time it is
/// registered. Tags are handed out in registration order, so a tag doubles as
/// an index into the registry's list of sub-containers.
#[derive(Copy, Clone, Debug, PartialEq, Eq, Hash, Structural)]
pub struct MiniTypeId(pub u16);

impl MiniTypeId {
    /// The tag as a plain index into the registry.
    pub fn index(&self) -> (i: usize)
        ensures
            i == self.0 as usize,
    {
        self.0 as usize
    }

    /// Builds the tag for a registry position. Positions at or beyond
    /// [`MAX_REGISTERED_TYPES`] never carry a tag.
    pub fn from_index(value: usize) -> (r: Self)
        requires
            value < MAX_REGISTERED_TYPES,
        ensures
            r.0 as usize == value,
    {
        MiniTypeId(value as u16)
    }
}

} // verus!
