//! What holds of the container across operations, stated over its model.
//!
//! `PackedData::insert` and `PackedData::remove` ensure that the slots change
//! as `after_insert` and `after_remove` say, so each statement here carries
//! over to every container that is well formed.

use crate::model::{
    after_insert, after_remove, has_hole, hole_set, is_live, is_lowest_hole, lemma_hole_set_bounded,
    lemma_holes_after_insert, lemma_holes_after_remove, lemma_next_index_is, live_count,
    next_index, next_issued_generation, value_at,
};
use crate::slot::{next_generation, Slot, FIRST_GENERATION};
use vstd::prelude::*;

verus! {

/// The slot at `index` has moved past `generation`: a handle issued under
/// that generation is stale.
pub open spec fn is_outdated<T>(slots: Seq<Slot<T>>, index: int, generation: u32) -> bool {
    &&& 0 <= index < slots.len()
    &&& slots[index].spec_generation() > generation
}

/// Density: the stored values are the slots that are not holes, so they are
/// never more than the slots.
pub proof fn lemma_live_count_bounds<T>(slots: Seq<Slot<T>>)
    ensures
        live_count(slots) == slots.len() - hole_set(slots).len(),
        0 <= live_count(slots) <= slots.len(),
{
    lemma_hole_set_bounded(slots);
}

/// Density: nothing is stored in a container without slots.
pub proof fn lemma_live_count_empty<T>()
    ensures
        live_count(Seq::<Slot<T>>::empty()) == 0,
{
    assert(hole_set(Seq::<Slot<T>>::empty()) =~= Set::<int>::empty());
}

/// Density: an insertion stores one value more. It fills a hole and leaves
/// the number of slots alone, or, without a hole, appends one slot.
pub proof fn lemma_insert_adds_one<T>(slots: Seq<Slot<T>>, value: T)
    ensures
        live_count(after_insert(slots, value)) == live_count(slots) + 1,
        has_hole(slots) ==> after_insert(slots, value).len() == slots.len(),
        !has_hole(slots) ==> after_insert(slots, value).len() == slots.len() + 1,
{
    lemma_hole_set_bounded(slots);
    lemma_holes_after_insert(slots, value);
    if has_hole(slots) {
        vstd::set::axiom_set_remove_len(hole_set(slots), next_index(slots));
    }
}

/// Density: a removal stores one value less and keeps every slot.
pub proof fn lemma_remove_takes_one<T>(slots: Seq<Slot<T>>, index: int, generation: u32)
    requires
        is_live(slots, index, generation),
    ensures
        live_count(after_remove(slots, index)) == live_count(slots) - 1,
        after_remove(slots, index).len() == slots.len(),
{
    lemma_hole_set_bounded(slots);
    lemma_holes_after_remove(slots, index);
    vstd::set::axiom_set_insert_len(hole_set(slots), index);
}

/// Round trip: the handle that an insertion issues is live afterwards and
/// names the inserted value, and no other slot has changed.
pub proof fn lemma_insert_then_get<T>(slots: Seq<Slot<T>>, value: T)
    ensures
        is_live(
            after_insert(slots, value),
            next_index(slots),
            next_issued_generation(slots),
        ),
        value_at(after_insert(slots, value), next_index(slots)) == value,
        forall|i: int|
            0 <= i < slots.len() && i != next_index(slots) ==> #[trigger] after_insert(
                slots,
                value,
            )[i] == slots[i],
{
}

/// Round trip: removing what was just inserted yields the inserted value and
/// leaves its handle stale.
pub proof fn lemma_insert_then_remove<T>(slots: Seq<Slot<T>>, value: T)
    ensures
        value_at(after_insert(slots, value), next_index(slots)) == value,
        !is_live(
            after_remove(after_insert(slots, value), next_index(slots)),
            next_index(slots),
            next_issued_generation(slots),
        ),
{
}

/// Reuse: once a value is removed from a slot that has no hole below it, the
/// next insertion goes to that very slot.
pub proof fn lemma_freed_slot_is_reused<T>(slots: Seq<Slot<T>>, index: int, generation: u32)
    requires
        is_live(slots, index, generation),
        forall|j: int| 0 <= j < index ==> (#[trigger] slots[j]) is Used,
    ensures
        has_hole(after_remove(slots, index)),
        next_index(after_remove(slots, index)) == index,
{
    let freed = after_remove(slots, index);
    assert forall|j: int| 0 <= j < index implies (#[trigger] freed[j]) is Used by {
        assert(slots[j] is Used);
    }
    lemma_next_index_is(freed, index);
}

/// Reuse: an insertion never appends while a slot is free, and of the free
/// slots it takes the lowest.
pub proof fn lemma_insert_takes_lowest_hole<T>(slots: Seq<Slot<T>>, hole: int)
    requires
        0 <= hole < slots.len(),
        slots[hole] is Empty,
    ensures
        has_hole(slots),
        0 <= next_index(slots) <= hole,
        slots[next_index(slots)] is Empty,
        is_lowest_hole(slots, next_index(slots)),
    decreases hole,
{
    if forall|j: int| 0 <= j < hole ==> (#[trigger] slots[j]) is Used {
        lemma_next_index_is(slots, hole);
    } else {
        let lower = choose|j: int| 0 <= j < hole && !((#[trigger] slots[j]) is Used);
        lemma_insert_takes_lowest_hole(slots, lower);
    }
}

/// Generations: removal moves the slot's generation on by one, or back to
/// the first generation when the counter is at its maximum.
pub proof fn lemma_remove_advances_generation<T>(
    slots: Seq<Slot<T>>,
    index: int,
    generation: u32,
)
    requires
        is_live(slots, index, generation),
    ensures
        after_remove(slots, index)[index] == Slot::<T>::Empty(next_generation(generation)),
        generation < u32::MAX ==> next_generation(generation) == generation + 1,
        generation == u32::MAX ==> next_generation(generation) == FIRST_GENERATION,
        forall|i: int|
            0 <= i < slots.len() && i != index ==> #[trigger] after_remove(slots, index)[i]
                == slots[i],
{
}

/// Generations: when a slot is reused, the new handle's generation is the one
/// that follows the generation of the handle removed from it. It is strictly
/// greater, except that the maximum is followed by the first generation.
///
/// `later` is any state in which the slot is still as the removal left it
/// and is the lowest hole; other slots may have changed in between.
pub proof fn lemma_reissued_generation<T>(
    slots: Seq<Slot<T>>,
    index: int,
    generation: u32,
    later: Seq<Slot<T>>,
)
    requires
        is_live(slots, index, generation),
        is_lowest_hole(later, index),
        later[index] == after_remove(slots, index)[index],
    ensures
        next_index(later) == index,
        next_issued_generation(later) == next_generation(generation),
        generation < u32::MAX ==> next_issued_generation(later) > generation,
        generation == u32::MAX ==> next_issued_generation(later) == FIRST_GENERATION,
{
    lemma_next_index_is(later, index);
}

/// Stale handles: a removed handle is not live any more.
pub proof fn lemma_removed_is_stale<T>(slots: Seq<Slot<T>>, index: int, generation: u32)
    requires
        is_live(slots, index, generation),
    ensures
        !is_live(after_remove(slots, index), index, generation),
        generation < u32::MAX ==> is_outdated(after_remove(slots, index), index, generation),
{
}

/// Stale handles: a removed handle stays stale when the next insertion
/// reuses its slot or any other, whatever the generation was.
pub proof fn lemma_stale_after_insert<T>(
    slots: Seq<Slot<T>>,
    index: int,
    generation: u32,
    value: T,
)
    requires
        is_live(slots, index, generation),
    ensures
        !is_live(after_insert(after_remove(slots, index), value), index, generation),
{
    let freed = after_remove(slots, index);
    assert(freed[index].spec_generation() != generation);
}

/// Stale handles: a handle whose slot has moved past its generation is not
/// live.
pub proof fn lemma_outdated_is_stale<T>(slots: Seq<Slot<T>>, index: int, generation: u32)
    requires
        is_outdated(slots, index, generation),
    ensures
        !is_live(slots, index, generation),
{
}

/// Stale handles: no insertion brings an outdated handle back.
pub proof fn lemma_outdated_after_insert<T>(
    slots: Seq<Slot<T>>,
    index: int,
    generation: u32,
    value: T,
)
    requires
        is_outdated(slots, index, generation),
    ensures
        is_outdated(after_insert(slots, value), index, generation),
{
}

/// Stale handles: no removal brings an outdated handle back, short of the
/// removal that wraps the generation of that very slot around.
pub proof fn lemma_outdated_after_remove<T>(
    slots: Seq<Slot<T>>,
    index: int,
    generation: u32,
    removed: int,
)
    requires
        is_outdated(slots, index, generation),
        0 <= removed < slots.len(),
        removed == index ==> slots[index].spec_generation() < u32::MAX,
    ensures
        is_outdated(after_remove(slots, removed), index, generation),
{
}

} // verus!
