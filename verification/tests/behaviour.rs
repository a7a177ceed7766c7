use packed_data::slot::{advance_generation, FIRST_GENERATION};
use packed_data::{Item, PackedData, Slot};

#[test]
fn new_container_is_empty() {
    let packed: PackedData<u8> = PackedData::with_max_capacity(0);
    assert_eq!(packed.len(), 0);
    assert!(packed.is_empty());
    assert!(packed.capacity() >= packed.len());
}

#[test]
fn first_handles_count_up_from_zero() {
    let mut packed = PackedData::with_max_capacity(8);
    let a = packed.insert('a');
    let b = packed.insert('b');
    let c = packed.insert('c');
    assert_eq!((a.index(), a.generation()), (0, 1));
    assert_eq!((b.index(), b.generation()), (1, 1));
    assert_eq!((c.index(), c.generation()), (2, 1));
    assert_eq!(FIRST_GENERATION, 1);
}

#[test]
fn scenario_four_values_one_replaced() {
    let mut packed = PackedData::with_max_capacity(4);
    let h0 = packed.insert("A");
    let h1 = packed.insert("B");
    let h2 = packed.insert("C");
    let h3 = packed.insert("D");
    assert_eq!(packed.len(), 4);
    assert_eq!(packed.remove(h1), "B");
    assert_eq!(packed.len(), 3);
    let h4 = packed.insert("E");
    assert_eq!(h4.index(), h1.index());
    assert_ne!(h4.generation(), h1.generation());
    assert_eq!(h4.generation(), 2);
    assert!(!packed.contains(h1));
    assert!(packed.contains(h4));
    assert_eq!(*packed.get(h4), "E");
    assert_eq!(*packed.get(h0), "A");
    assert_eq!(*packed.get(h2), "C");
    assert_eq!(*packed.get(h3), "D");
}

#[test]
fn scenario_every_other_removed_then_refilled() {
    let mut packed = PackedData::with_max_capacity(100);
    let mut items: Vec<Item<usize>> = Vec::new();
    for n in 0..100usize {
        items.push(packed.insert(n));
    }
    let capacity = packed.capacity();
    // Free the even slots from the top down, so that the order of reuse
    // cannot be the order of removal.
    for k in (0..50usize).rev() {
        assert_eq!(packed.remove(items[2 * k]), 2 * k);
    }
    assert_eq!(packed.len(), 50);
    assert_eq!(packed.capacity(), capacity);
    for k in 0..50usize {
        let item = packed.insert(1000 + k);
        assert_eq!(item.index(), 2 * k);
        assert_eq!(item.generation(), 2);
        assert_eq!(packed.len(), 51 + k);
    }
    assert_eq!(packed.capacity(), capacity);
    let appended = packed.insert(7);
    assert_eq!((appended.index(), appended.generation()), (100, 1));
}

#[test]
fn density_holds_along_a_run() {
    let mut packed = PackedData::with_max_capacity(4);
    let mut live: Vec<Item<u32>> = Vec::new();
    let mut peak = 0usize;
    for step in 0..200u32 {
        if step % 3 == 2 {
            let item = live.remove((step as usize) % live.len());
            packed.remove(item);
        } else {
            live.push(packed.insert(step));
        }
        if live.len() > peak {
            peak = live.len();
        }
        assert_eq!(packed.len(), live.len());
        assert!(packed.len() <= packed.capacity());
        assert!(!packed.is_empty());
    }
    // Holes are refilled before the storage grows: no handle lies past the peak.
    for item in live.iter() {
        assert!(item.index() < peak);
        assert!(packed.contains(*item));
    }
}

#[test]
fn round_trip_insert_get_remove() {
    let mut packed = PackedData::with_max_capacity(2);
    let item = packed.insert(String::from("kept"));
    assert_eq!(packed.get(item), "kept");
    assert_eq!(packed.remove(item), "kept");
    assert!(!packed.contains(item));
    assert_eq!(packed.len(), 0);
}

#[test]
fn get_mut_replaces_only_the_named_value() {
    let mut packed = PackedData::with_max_capacity(2);
    let a = packed.insert(1u64);
    let b = packed.insert(2u64);
    *packed.get_mut(a) = 10;
    assert_eq!(*packed.get(a), 10);
    assert_eq!(*packed.get(b), 2);
    assert_eq!(packed.len(), 2);
    assert!(packed.contains(a));
}

#[test]
fn lowest_freed_slot_is_reused_first() {
    let mut packed = PackedData::with_max_capacity(8);
    let items: Vec<Item<u8>> = (0..6u8).map(|n| packed.insert(n)).collect();
    // Free in an order that is neither ascending nor descending.
    packed.remove(items[3]);
    packed.remove(items[0]);
    packed.remove(items[4]);
    assert_eq!(packed.len(), 3);
    assert_eq!(packed.insert(30).index(), 0);
    assert_eq!(packed.insert(31).index(), 3);
    assert_eq!(packed.insert(32).index(), 4);
    assert_eq!(packed.insert(33).index(), 6);
}

#[test]
fn removing_the_lowest_slot_gives_it_to_the_next_insert() {
    let mut packed = PackedData::with_max_capacity(4);
    let first = packed.insert(1);
    let _second = packed.insert(2);
    packed.remove(first);
    let again = packed.insert(3);
    assert_eq!(again.index(), first.index());
}

#[test]
fn generations_grow_with_each_reuse() {
    let mut packed = PackedData::with_max_capacity(1);
    let mut item = packed.insert(0u32);
    for round in 1..=50u32 {
        assert_eq!(item.generation(), round);
        packed.remove(item);
        let next = packed.insert(round);
        assert_eq!(next.index(), item.index());
        assert!(next.generation() > item.generation());
        item = next;
    }
}

#[test]
fn generation_wraps_to_the_first() {
    assert_eq!(advance_generation(1), 2);
    assert_eq!(advance_generation(41), 42);
    assert_eq!(advance_generation(u32::MAX - 1), u32::MAX);
    assert_eq!(advance_generation(u32::MAX), 1);
}

#[test]
fn stale_handles_are_told_apart() {
    let mut packed = PackedData::with_max_capacity(2);
    let old = packed.insert(5);
    assert!(packed.contains(old));
    packed.remove(old);
    assert!(!packed.contains(old));
    let new = packed.insert(6);
    assert!(!packed.contains(old));
    assert!(packed.contains(new));
    assert_ne!(old, new);
}

#[test]
fn unknown_handles_are_not_contained() {
    let mut small = PackedData::with_max_capacity(2);
    let mut large = PackedData::with_max_capacity(2);
    small.insert(1);
    large.insert(1);
    let past_the_end = large.insert(2);
    assert!(!small.contains(past_the_end));
}

#[test]
fn emptied_container_keeps_its_slots() {
    let mut packed = PackedData::with_max_capacity(2);
    let item = packed.insert(1);
    packed.remove(item);
    assert_eq!(packed.len(), 0);
    assert!(!packed.is_empty());
}

#[test]
fn handles_copy_and_compare() {
    let mut packed = PackedData::with_max_capacity(2);
    let a = packed.insert(vec![1]);
    let b = a;
    let c = a.clone();
    assert!(a == b);
    assert!(a == c);
    assert_eq!(format!("{:?}", a), "Item { index: 0, generation: 1 }");
}

#[test]
fn slots_report_their_generation() {
    let used = Slot::used(3, 'x');
    let free: Slot<char> = Slot::empty(4);
    assert_eq!(used.generation(), 3);
    assert_eq!(free.generation(), 4);
    assert!(matches!(used, Slot::Used(3, 'x')));
    assert!(matches!(free, Slot::Empty(4)));
}
