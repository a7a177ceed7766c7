//! The mathematical model of the container: a sequence of slots, and what
//! insertion and removal do to it.

use crate::slot::{next_generation, Slot, FIRST_GENERATION};
use vstd::prelude::*;

verus! {

/// Every slot of the sequence carries a valid generation.
pub open spec fn all_wf<T>(slots: Seq<Slot<T>>) -> bool {
    forall|i: int| 0 <= i < slots.len() ==> (#[trigger] slots[i]).wf()
}

/// The handle `(index, generation)` names the occupant of its slot: the index
/// is in bounds, the slot holds a value, and the generations agree.
pub open spec fn is_live<T>(slots: Seq<Slot<T>>, index: int, generation: u32) -> bool {
    &&& 0 <= index < slots.len()
    &&& slots[index] is Used
    &&& slots[index].spec_generation() == generation
}

/// The value held by the occupied slot at `index`.
pub open spec fn value_at<T>(slots: Seq<Slot<T>>, index: int) -> T
    recommends
        0 <= index < slots.len(),
        slots[index] is Used,
{
    slots[index]->Used_1
}

/// The indices of the free slots.
pub open spec fn hole_set<T>(slots: Seq<Slot<T>>) -> Set<int> {
    Set::new(|i: int| 0 <= i < slots.len() && slots[i] is Empty)
}

/// The number of stored values: the slots that are not holes.
pub open spec fn live_count<T>(slots: Seq<Slot<T>>) -> int {
    slots.len() - hole_set(slots).len()
}

/// `index` is a free slot and every slot below it is occupied.
pub open spec fn is_lowest_hole<T>(slots: Seq<Slot<T>>, index: int) -> bool {
    &&& 0 <= index < slots.len()
    &&& slots[index] is Empty
    &&& forall|j: int| 0 <= j < index ==> (#[trigger] slots[j]) is Used
}

/// Some slot is free.
pub open spec fn has_hole<T>(slots: Seq<Slot<T>>) -> bool {
    exists|i: int| is_lowest_hole(slots, i)
}

/// Where the next insertion puts its value: in the lowest hole, or, when
/// there is none, in a new slot past the end.
pub open spec fn next_index<T>(slots: Seq<Slot<T>>) -> int {
    if has_hole(slots) {
        choose|i: int| is_lowest_hole(slots, i)
    } else {
        slots.len() as int
    }
}

/// The generation of the handle that the next insertion issues: that of the
/// hole it fills, or the first generation for a new slot.
pub open spec fn next_issued_generation<T>(slots: Seq<Slot<T>>) -> u32 {
    if has_hole(slots) {
        slots[next_index(slots)].spec_generation()
    } else {
        FIRST_GENERATION
    }
}

/// The slots after `value` has been inserted.
pub open spec fn after_insert<T>(slots: Seq<Slot<T>>, value: T) -> Seq<Slot<T>> {
    let occupant = Slot::Used(next_issued_generation(slots), value);
    if has_hole(slots) {
        slots.update(next_index(slots), occupant)
    } else {
        slots.push(occupant)
    }
}

/// The slots after the occupant of `index` has been removed: the slot is free
/// and its generation has moved on.
pub open spec fn after_remove<T>(slots: Seq<Slot<T>>, index: int) -> Seq<Slot<T>>
    recommends
        0 <= index < slots.len(),
{
    slots.update(index, Slot::Empty(next_generation(slots[index].spec_generation())))
}

/// A sequence has at most one lowest hole.
pub proof fn lemma_lowest_hole_unique<T>(slots: Seq<Slot<T>>, a: int, b: int)
    requires
        is_lowest_hole(slots, a),
        is_lowest_hole(slots, b),
    ensures
        a == b,
{
    if a < b {
        assert(slots[a] is Used);
    } else if b < a {
        assert(slots[b] is Used);
    }
}

/// A lowest hole, once exhibited, is where the next insertion goes.
pub proof fn lemma_next_index_is<T>(slots: Seq<Slot<T>>, index: int)
    requires
        is_lowest_hole(slots, index),
    ensures
        has_hole(slots),
        next_index(slots) == index,
{
    lemma_lowest_hole_unique(slots, index, next_index(slots));
}

/// Without a free slot there is no lowest hole.
pub proof fn lemma_no_hole<T>(slots: Seq<Slot<T>>)
    requires
        forall|i: int| 0 <= i < slots.len() ==> (#[trigger] slots[i]) is Used,
    ensures
        !has_hole(slots),
        hole_set(slots) =~= Set::<int>::empty(),
{
    assert forall|i: int| !is_lowest_hole(slots, i) by {
        if 0 <= i < slots.len() {
            assert(slots[i] is Used);
        }
    }
}

/// The holes are finitely many, at most one per slot.
pub proof fn lemma_hole_set_bounded<T>(slots: Seq<Slot<T>>)
    ensures
        hole_set(slots).finite(),
        hole_set(slots).len() <= slots.len(),
    decreases slots.len(),
{
    if slots.len() == 0 {
        assert(hole_set(slots) =~= Set::<int>::empty());
    } else {
        let front = slots.drop_last();
        let last = slots.len() - 1;
        lemma_hole_set_bounded(front);
        if slots[last] is Empty {
            assert(hole_set(slots) =~= hole_set(front).insert(last));
        } else {
            assert(hole_set(slots) =~= hole_set(front));
        }
    }
}

/// Freeing an occupied slot adds exactly its index to the holes.
pub proof fn lemma_holes_after_remove<T>(slots: Seq<Slot<T>>, index: int)
    requires
        0 <= index < slots.len(),
        slots[index] is Used,
    ensures
        hole_set(after_remove(slots, index)) == hole_set(slots).insert(index),
        !hole_set(slots).contains(index),
{
    assert(hole_set(after_remove(slots, index)) =~= hole_set(slots).insert(index));
}

/// Inserting takes the lowest hole out of the holes, or leaves them alone
/// when a new slot is appended.
pub proof fn lemma_holes_after_insert<T>(slots: Seq<Slot<T>>, value: T)
    ensures
        has_hole(slots) ==> hole_set(slots).contains(next_index(slots)) && hole_set(
            after_insert(slots, value),
        ) == hole_set(slots).remove(next_index(slots)),
        !has_hole(slots) ==> hole_set(after_insert(slots, value)) == hole_set(slots),
{
    if has_hole(slots) {
        assert(hole_set(after_insert(slots, value)) =~= hole_set(slots).remove(
            next_index(slots),
        ));
    } else {
        assert(hole_set(after_insert(slots, value)) =~= hole_set(slots));
    }
}

} // verus!
