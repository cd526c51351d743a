use vstd::prelude::*;

verus! {

/// A handle to an element of an arena: a slot number paired with the generation
/// of the element that occupies that slot.
#[derive(Clone, Copy, Debug, PartialEq, Eq, Structural)]
pub struct Index {
    pub slot: u32,
    pub generation: u32,
}

impl Index {
    /// Builds an index from its slot number and generation.
    pub fn from_raw_parts(slot: u32, generation: u32) -> (r: Index)
        ensures
            r.slot == slot,
            r.generation == generation,
    {
        Index { slot, generation }
    }

    /// Splits this index into its slot number and generation.
    pub fn into_raw_parts(self) -> (r: (u32, u32))
        ensures
            r == (self.slot, self.generation),
    {
        (self.slot, self.generation)
    }
}

} // verus!
