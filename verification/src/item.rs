//! Handles to stored values.

use std::marker::PhantomData;
use vstd::prelude::*;
use vstd::std_specs::cmp::PartialEqSpecImpl;

verus! {

// The formatter and the error of `std::fmt`, which only pass through
// `Debug::fmt` below.
#[verifier::external_type_specification]
#[verifier::external_body]
pub struct ExFormatter<'a>(std::fmt::Formatter<'a>);

#[verifier::external_type_specification]
#[verifier::external_body]
pub struct ExFmtError(std::fmt::Error);

/// A handle to a value stored in a container of `T`s: the index of its slot
/// and the generation the slot had when the value was stored.
///
/// A handle names a slot of the container that issued it. It carries no
/// identity of that container: using it with another one is the caller's
/// error and goes undetected when index and generation happen to match.
pub struct Item<T> {
    pub(crate) index: usize,
    pub(crate) generation: u32,
    pub(crate) _marker: PhantomData<T>,
}

impl<T> Item<T> {
    /// The index of the slot the handle names.
    pub closed spec fn spec_index(&self) -> usize {
        self.index
    }

    /// The generation the handle was issued under.
    pub closed spec fn spec_generation(&self) -> u32 {
        self.generation
    }

    #[verifier::when_used_as_spec(spec_index)]
    pub fn index(&self) -> (index: usize)
        ensures
            index == self.spec_index(),
    {
        self.index
    }

    #[verifier::when_used_as_spec(spec_generation)]
    pub fn generation(&self) -> (generation: u32)
        ensures
            generation == self.spec_generation(),
    {
        self.generation
    }

    pub(crate) fn issue(index: usize, generation: u32) -> (item: Self)
        ensures
            item.spec_index() == index,
            item.spec_generation() == generation,
    {
        Item { index, generation, _marker: PhantomData }
    }
}

impl<T> Clone for Item<T> {
    fn clone(&self) -> (copy: Self)
        ensures
            copy == *self,
    {
        Item { index: self.index, generation: self.generation, _marker: PhantomData }
    }
}

impl<T> std::fmt::Debug for Item<T> {
    /// Writes the handle's index and generation with `write!`. Nothing is
    /// claimed of the text or of the formatter's state.
    #[verifier::external_body]
    fn fmt(&self, f: &mut std::fmt::Formatter<'_>) -> std::fmt::Result {
        write!(f, "Item {{ index: {}, generation: {} }}", self.index, self.generation)
    }
}

impl<T> Copy for Item<T> {

}

impl<T> PartialEq for Item<T> {
    fn eq(&self, other: &Self) -> (equal: bool) {
        self.index == other.index && self.generation == other.generation
    }
}

impl<T> Eq for Item<T> {

}

impl<T> PartialEqSpecImpl for Item<T> {
    open spec fn obeys_eq_spec() -> bool {
        true
    }

    open spec fn eq_spec(&self, other: &Self) -> bool {
        self.spec_index() == other.spec_index() && self.spec_generation()
            == other.spec_generation()
    }
}

} // verus!
