//! The container itself.

use crate::holes::{hole_values, holes_insert, holes_len, holes_pop_front, holes_with_capacity};
use crate::item::Item;
use crate::laws::{lemma_insert_adds_one, lemma_remove_takes_one};
use crate::model::{
    after_insert, after_remove, all_wf, hole_set, is_live, is_lowest_hole, lemma_hole_set_bounded,
    lemma_holes_after_remove, lemma_next_index_is, lemma_no_hole, live_count, next_index,
    next_issued_generation, value_at,
};
use crate::slot::{advance_generation, Slot, FIRST_GENERATION};
use skiplist::OrderedSkipList;
use vstd::multiset::Multiset;
use vstd::pervasive::unreached;
use vstd::prelude::*;

verus! {

/// A growable container that keeps its values in one contiguous stretch of
/// memory and names each by a generation-checked handle.
///
/// The storage never shrinks. A removed value leaves a hole, recorded in an
/// ordered skip list, and an insertion fills the lowest hole before it
/// appends. Access by handle takes constant time; removal takes logarithmic
/// time in the number of holes.
pub struct PackedData<T> {
    holes: OrderedSkipList<usize>,
    data: Vec<Slot<T>>,
}

/// `Vec::capacity`: the number of elements the vector can hold without
/// reallocating, which is never less than its length.
#[verifier::external_body]
fn vec_capacity<T>(data: &Vec<Slot<T>>) -> (capacity: usize)
    ensures
        capacity >= data@.len(),
{
    data.capacity()
}

/// A multiset that holds each element of a set once, and nothing else, has
/// as many elements as the set.
proof fn lemma_indicator_len(values: Multiset<usize>, indices: Set<int>)
    requires
        indices.finite(),
        forall|i: int| indices.contains(i) ==> 0 <= i <= usize::MAX,
        forall|i: usize| #[trigger]
            values.count(i) == if indices.contains(i as int) {
                1nat
            } else {
                0nat
            },
    ensures
        values.len() == indices.len(),
    decreases indices.len(),
{
    if indices.len() == 0 {
        assert(indices =~= Set::<int>::empty());
        assert(values =~= Multiset::<usize>::empty());
    } else {
        vstd::set::axiom_set_choose_len(indices);
        let x = indices.choose();
        let xu = x as usize;
        assert(values.count(xu) == 1);
        let fewer = values.remove(xu);
        let rest = indices.remove(x);
        assert forall|i: usize| #[trigger]
            fewer.count(i) == if rest.contains(i as int) {
                1nat
            } else {
                0nat
            } by {
            assert(values.count(i) == if indices.contains(i as int) {
                1nat
            } else {
                0nat
            });
        }
        lemma_indicator_len(fewer, rest);
    }
}

impl<T> View for PackedData<T> {
    type V = Seq<Slot<T>>;

    /// The slots of the backing storage, in order.
    closed spec fn view(&self) -> Seq<Slot<T>> {
        self.data@
    }
}

impl<T> PackedData<T> {
    /// The skip list holds exactly the indices of the free slots, each once.
    pub closed spec fn holes_agree(&self) -> bool {
        forall|i: usize| #[trigger]
            hole_values(self.holes).count(i) == if hole_set(self.data@).contains(i as int) {
                1nat
            } else {
                0nat
            }
    }

    /// The container's invariant: valid generations throughout, and a hole
    /// list that matches the free slots.
    pub open spec fn wf(&self) -> bool {
        &&& all_wf(self@)
        &&& self.holes_agree()
    }

    /// The handle names a value that is stored now.
    pub open spec fn spec_contains(&self, item: Item<T>) -> bool {
        is_live(self@, item.index() as int, item.generation())
    }

    /// Constructs an empty container. The hole list is tuned for up to
    /// `capacity` holes; more are allowed and only slow removal down.
    pub fn with_max_capacity(capacity: usize) -> (packed: Self)
        ensures
            packed.wf(),
            packed@ == Seq::<Slot<T>>::empty(),
    {
        let packed = PackedData { holes: holes_with_capacity(capacity), data: Vec::new() };
        proof {
            assert(hole_set(packed.data@) =~= Set::<int>::empty());
        }
        packed
    }

    /// The number of slots the storage can hold before it reallocates.
    pub fn capacity(&self) -> (capacity: usize)
        ensures
            capacity >= self@.len(),
    {
        vec_capacity(&self.data)
    }

    /// The number of stored values.
    pub fn len(&self) -> (len: usize)
        requires
            self.wf(),
        ensures
            len == live_count(self@),
            len <= self@.len(),
    {
        let slots = self.data.len();
        proof {
            lemma_hole_set_bounded(self.data@);
            lemma_indicator_len(hole_values(self.holes), hole_set(self.data@));
        }
        slots - holes_len(&self.holes)
    }

    /// Whether the storage has no slot at all, which is so until the first
    /// insertion and never again: a freed slot stays in the storage.
    pub fn is_empty(&self) -> (empty: bool)
        ensures
            empty == (self@.len() == 0),
    {
        self.data.is_empty()
    }

    /// Whether the handle names a value that is stored now.
    #[verifier::when_used_as_spec(spec_contains)]
    pub fn contains(&self, item: Item<T>) -> (stored: bool)
        ensures
            stored == self.spec_contains(item),
    {
        if item.index() < self.data.len() {
            match &self.data[item.index()] {
                Slot::Used(generation, _) => *generation == item.generation(),
                Slot::Empty(_) => false,
            }
        } else {
            false
        }
    }

    /// Stores `value` in the lowest free slot, or in a new slot when none is
    /// free, and returns its handle.
    pub fn insert(&mut self, value: T) -> (item: Item<T>)
        requires
            old(self).wf(),
        ensures
            final(self).wf(),
            final(self)@ == after_insert(old(self)@, value),
            item.index() == next_index(old(self)@),
            item.generation() == next_issued_generation(old(self)@),
            final(self).contains(item),
            value_at(final(self)@, item.index() as int) == value,
            live_count(final(self)@) == live_count(old(self)@) + 1,
    {
        proof {
            lemma_insert_adds_one(old(self)@, value);
        }
        match holes_pop_front(&mut self.holes) {
            Some(index) => {
                proof {
                    assert(hole_set(self.data@).contains(index as int));
                    assert forall|j: int| 0 <= j < index implies (#[trigger] self.data@[j])
                        is Used by {
                        if self.data@[j] is Empty {
                            assert(hole_set(self.data@).contains(j));
                            assert(hole_values(old(self).holes).count(j as usize) == 1);
                        }
                    }
                    assert(is_lowest_hole(self.data@, index as int));
                    lemma_next_index_is(self.data@, index as int);
                }
                let generation = self.data[index].generation();
                self.data.set(index, Slot::used(generation, value));
                proof {
                    assert(hole_set(self.data@) =~= hole_set(old(self).data@).remove(index as int));
                }
                Item::issue(index, generation)
            },
            None => {
                let index = self.data.len();
                proof {
                    assert forall|i: int| 0 <= i < index implies (#[trigger] self.data@[i])
                        is Used by {
                        if self.data@[i] is Empty {
                            assert(hole_set(self.data@).contains(i));
                            vstd::multiset::axiom_count_le_len(
                                hole_values(old(self).holes),
                                i as usize,
                            );
                        }
                    }
                    lemma_no_hole(self.data@);
                }
                self.data.push(Slot::used(FIRST_GENERATION, value));
                proof {
                    assert(hole_set(self.data@) =~= hole_set(old(self).data@));
                }
                Item::issue(index, FIRST_GENERATION)
            },
        }
    }

    /// Takes the value that `item` names out of the container. Its slot
    /// becomes a hole with the next generation, so `item` is stale from now
    /// on.
    pub fn remove(&mut self, item: Item<T>) -> (value: T)
        requires
            old(self).wf(),
            old(self).contains(item),
        ensures
            final(self).wf(),
            final(self)@ == after_remove(old(self)@, item.index() as int),
            value == value_at(old(self)@, item.index() as int),
            !final(self).contains(item),
            live_count(final(self)@) == live_count(old(self)@) - 1,
    {
        proof {
            lemma_remove_takes_one(old(self)@, item.index() as int, item.generation());
        }
        let index = item.index();
        let generation = advance_generation(self.data[index].generation());
        let mut slot = Slot::empty(generation);
        std::mem::swap(&mut slot, &mut self.data[index]);
        proof {
            assert(self.data@.len() == self.data.len());
            lemma_hole_set_bounded(self.data@);
            lemma_hole_set_bounded(old(self).data@);
            lemma_holes_after_remove(old(self).data@, index as int);
            vstd::set::axiom_set_insert_len(hole_set(old(self).data@), index as int);
            lemma_indicator_len(hole_values(self.holes), hole_set(old(self).data@));
        }
        holes_insert(&mut self.holes, index);
        // The precondition rules the two `unreached` arms out. A caller that
        // was not verified and passes a stale handle panics there.
        match slot {
            Slot::Used(stored, value) => {
                if stored != item.generation() {
                    unreached()
                } else {
                    value
                }
            },
            Slot::Empty(_) => unreached(),
        }
    }

    /// A reference to the value that `item` names.
    pub fn get(&self, item: Item<T>) -> (value: &T)
        requires
            self.contains(item),
        ensures
            *value == value_at(self@, item.index() as int),
    {
        match &self.data[item.index()] {
            Slot::Used(generation, value) => {
                if *generation != item.generation() {
                    unreached()
                } else {
                    value
                }
            },
            Slot::Empty(_) => unreached(),
        }
    }

    /// A mutable reference to the value that `item` names. Whatever the
    /// caller writes through it replaces the value; the slot keeps its
    /// generation and every other slot stays as it was.
    pub fn get_mut(&mut self, item: Item<T>) -> (value: &mut T)
        requires
            old(self).contains(item),
        ensures
            *value == value_at(old(self)@, item.index() as int),
            final(self)@ == old(self)@.update(
                item.index() as int,
                Slot::Used(item.generation(), *final(value)),
            ),
            old(self).wf() ==> final(self).wf(),
    {
        match &mut self.data[item.index()] {
            Slot::Used(generation, value) => {
                if *generation != item.generation() {
                    unreached()
                } else {
                    value
                }
            },
            Slot::Empty(_) => unreached(),
        }
    }
}

} // verus!
