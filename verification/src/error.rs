use vstd::prelude::*;

verus! {

/// Errors reported by the entity-component store and the animation tables.
#[derive(Debug, Clone, Copy, PartialEq, Eq, Structural)]
pub enum EcsError {
    /// The entity's index is not below `MAX_ENTITIES`.
    IndexOutOfBounds,
    /// The entity holds no component in this storage.
    NotFound,
    /// Every entity slot is in use.
    NoFreeSlot,
    /// The frame storage cannot hold the requested frames.
    FrameStorageFull,
    /// A frame count does not fit in a `u8`.
    FrameCountTooLarge,
}

} // verus!
