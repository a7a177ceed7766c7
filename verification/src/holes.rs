//! The ordered set of free indices, kept in a skip list.
//!
//! The skip list itself is not verified. This module states what the library
//! relies on: which indices the list holds after each operation, and that the
//! front of the list is its smallest element.

use skiplist::OrderedSkipList;
use vstd::multiset::Multiset;
use vstd::prelude::*;

verus! {

#[verifier::external_type_specification]
#[verifier::external_body]
#[verifier::reject_recursive_types(T)]
pub struct ExOrderedSkipList<T>(OrderedSkipList<T>);

/// The indices a skip list holds, with their multiplicities.
pub uninterp spec fn hole_values(list: OrderedSkipList<usize>) -> Multiset<usize>;

/// `OrderedSkipList::with_capacity`: a new list, ordered by the natural order
/// of `usize`, that holds nothing. The capacity only tunes the number of
/// levels.
#[verifier::external_body]
pub(crate) fn holes_with_capacity(capacity: usize) -> (list: OrderedSkipList<usize>)
    ensures
        hole_values(list) == Multiset::<usize>::empty(),
{
    OrderedSkipList::with_capacity(capacity)
}

/// `OrderedSkipList::len`: the number of elements held, duplicates counted.
#[verifier::external_body]
pub(crate) fn holes_len(list: &OrderedSkipList<usize>) -> (n: usize)
    ensures
        n == hole_values(*list).len(),
{
    list.len()
}

/// `OrderedSkipList::insert`: the list gains one occurrence of `index` and
/// nothing else changes. The list counts its elements in a `usize`, so it must
/// not be full.
#[verifier::external_body]
pub(crate) fn holes_insert(list: &mut OrderedSkipList<usize>, index: usize)
    requires
        hole_values(*old(list)).len() < usize::MAX,
    ensures
        hole_values(*final(list)) == hole_values(*old(list)).insert(index),
{
    list.insert(index)
}

/// `OrderedSkipList::pop_front`: on an empty list, `None` and no change;
/// otherwise the list loses one occurrence of its smallest element, which is
/// returned.
#[verifier::external_body]
pub(crate) fn holes_pop_front(list: &mut OrderedSkipList<usize>) -> (front: Option<usize>)
    ensures
        match front {
            Some(index) => {
                &&& hole_values(*old(list)).count(index) > 0
                &&& forall|other: usize| #[trigger]
                    hole_values(*old(list)).count(other) > 0 ==> index <= other
                &&& hole_values(*final(list)) == hole_values(*old(list)).remove(index)
            },
            None => {
                &&& hole_values(*old(list)).len() == 0
                &&& hole_values(*final(list)) == hole_values(*old(list))
            },
        },
{
    list.pop_front()
}

} // verus!
