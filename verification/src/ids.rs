use vstd::prelude::*;

verus! {

/// Identity of one client connection: an opaque 128-bit value drawn once per
/// TCP session at accept time and never reused within a process lifetime.
#[derive(Clone, Copy, PartialEq, Eq, Structural, Hash, Debug)]
pub struct ConnectionId(pub u128);

/// Identity of one simulation entity, allocated by the world when the entity
/// is created and stable until the entity is destroyed.
pub type EntityId = u32;

} // verus!
