//! Handles into the entity registry.
use vstd::prelude::*;

verus! {

/// A reference to a registry slot: the slot's index and the generation that the
/// slot had when the entity was stored. A handle whose generation no longer
/// matches its slot is stale.
#[derive(Clone, Copy, Debug, PartialEq, Eq, Structural)]
pub struct Handle {
    pub index: usize,
    pub generation: u64,
}

} // verus!
