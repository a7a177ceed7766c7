//! One cell of the backing storage.

use vstd::prelude::*;

verus! {

/// The lowest generation a slot can carry; zero never tags a slot.
pub const FIRST_GENERATION: u32 = 1;

/// The generation that follows `generation`: one more, or back to the first
/// generation once the counter has reached its maximum.
pub open spec fn next_generation(generation: u32) -> u32 {
    if generation == u32::MAX {
        FIRST_GENERATION
    } else {
        (generation + 1) as u32
    }
}

/// Computes the generation a slot takes when its occupant leaves.
pub fn advance_generation(generation: u32) -> (next: u32)
    ensures
        next == next_generation(generation),
        next >= FIRST_GENERATION,
        next != generation,
{
    match generation.checked_add(1) {
        Some(next) => next,
        None => FIRST_GENERATION,
    }
}

/// A storage cell: free, or holding a value. Either way it is tagged with a
/// generation. A free cell carries the generation its next occupant will get.
pub enum Slot<T> {
    Empty(u32),
    Used(u32, T),
}

impl<T> Slot<T> {
    /// The generation the cell is tagged with.
    pub open spec fn spec_generation(&self) -> u32 {
        match *self {
            Slot::Empty(generation) => generation,
            Slot::Used(generation, _) => generation,
        }
    }

    /// A cell is well formed when its generation is not zero.
    pub open spec fn wf(&self) -> bool {
        self.spec_generation() >= FIRST_GENERATION
    }

    /// An occupied cell.
    pub fn used(generation: u32, item: T) -> (slot: Self)
        requires
            generation >= FIRST_GENERATION,
        ensures
            slot == Slot::Used(generation, item),
            slot.wf(),
    {
        Slot::Used(generation, item)
    }

    /// A free cell.
    pub fn empty(generation: u32) -> (slot: Self)
        requires
            generation >= FIRST_GENERATION,
        ensures
            slot == Slot::<T>::Empty(generation),
            slot.wf(),
    {
        Slot::Empty(generation)
    }

    #[verifier::when_used_as_spec(spec_generation)]
    pub fn generation(&self) -> (generation: u32)
        ensures
            generation == self.spec_generation(),
    {
        match self {
            Slot::Empty(generation) => *generation,
            Slot::Used(generation, _) => *generation,
        }
    }
}

} // verus!
