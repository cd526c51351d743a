use rapier::coarena::{Coarena, EMPTY_GENERATION};
use rapier::index::Index;

fn idx(slot: u32, generation: u32) -> Index {
    Index::from_raw_parts(slot, generation)
}

#[test]
fn new_coarena_is_empty() {
    let c: Coarena<u32> = Coarena::new();
    assert_eq!(c.len(), 0);
    assert_eq!(c.get(idx(0, 0)), None);
    assert_eq!(c.get_unknown_gen(0), None);
    assert!(c.iter().is_empty());
}

#[test]
fn get_after_insert_returns_value() {
    let mut c: Coarena<u32> = Coarena::new();
    c.insert(idx(3, 1), 42);
    assert_eq!(c.get(idx(3, 1)), Some(&42));
    assert_eq!(c.len(), 4);
}

#[test]
fn get_with_other_generation_is_none() {
    let mut c: Coarena<u32> = Coarena::new();
    c.insert(idx(2, 5), 7);
    assert_eq!(c.get(idx(2, 4)), None);
    assert_eq!(c.get(idx(2, 6)), None);
    assert_eq!(c.get(idx(9, 5)), None);
}

#[test]
fn insert_fills_gaps_with_default() {
    let mut c: Coarena<u32> = Coarena::new();
    c.insert(idx(3, 1), 42);
    for s in 0..3 {
        assert_eq!(c.get_gen(s), Some(EMPTY_GENERATION));
        assert_eq!(c.get_unknown_gen(s), Some(&0));
    }
    assert_eq!(c.get_gen(3), Some(1));
    assert_eq!(c.get_gen(4), None);
}

#[test]
fn insert_with_default_uses_given_default() {
    let mut c: Coarena<i64> = Coarena::new();
    c.insert_with_default(idx(2, 0), 10, -1);
    assert_eq!(c.get_unknown_gen(0), Some(&-1));
    assert_eq!(c.get_unknown_gen(1), Some(&-1));
    assert_eq!(c.get(idx(2, 0)), Some(&10));
    // Inserting below the current length creates no slot.
    c.insert_with_default(idx(0, 4), 20, -7);
    assert_eq!(c.len(), 3);
    assert_eq!(c.get(idx(0, 4)), Some(&20));
    assert_eq!(c.get_unknown_gen(1), Some(&-1));
}

#[test]
fn insert_overwrites_other_generation() {
    let mut c: Coarena<u32> = Coarena::new();
    c.insert(idx(1, 1), 5);
    c.insert(idx(1, 2), 6);
    assert_eq!(c.get(idx(1, 1)), None);
    assert_eq!(c.get(idx(1, 2)), Some(&6));
}

#[test]
fn remove_returns_value_and_empties_slot() {
    let mut c: Coarena<u32> = Coarena::new();
    c.insert(idx(1, 3), 8);
    assert_eq!(c.remove(idx(1, 3), 99), Some(8));
    assert_eq!(c.get(idx(1, 3)), None);
    assert_eq!(c.get(idx(1, 4)), None);
    assert_eq!(c.get(idx(1, 0)), None);
    assert_eq!(c.get_gen(1), Some(EMPTY_GENERATION));
    assert_eq!(c.get_unknown_gen(1), Some(&99));
}

#[test]
fn remove_with_stale_generation_does_nothing() {
    let mut c: Coarena<u32> = Coarena::new();
    c.insert(idx(1, 3), 8);
    assert_eq!(c.remove(idx(1, 2), 99), None);
    assert_eq!(c.remove(idx(5, 3), 99), None);
    assert_eq!(c.get(idx(1, 3)), Some(&8));
    assert_eq!(c.len(), 2);
}

#[test]
fn reused_slot_rejects_old_generation() {
    let mut c: Coarena<u32> = Coarena::new();
    c.insert(idx(4, 1), 100);
    assert_eq!(c.remove(idx(4, 1), 0), Some(100));
    c.insert(idx(4, 2), 200);
    assert_eq!(c.get(idx(4, 1)), None);
    assert_eq!(c.get(idx(4, 2)), Some(&200));
}

#[test]
fn get_mut_changes_matching_element_only() {
    let mut c: Coarena<u32> = Coarena::new();
    c.insert(idx(0, 1), 1);
    if let Some(v) = c.get_mut(idx(0, 1)) {
        *v = 11;
    }
    assert!(c.get_mut(idx(0, 2)).is_none());
    assert_eq!(c.get(idx(0, 1)), Some(&11));
}

#[test]
fn iter_skips_empty_slots() {
    let mut c: Coarena<u32> = Coarena::new();
    c.insert(idx(1, 7), 10);
    c.insert(idx(3, 9), 30);
    c.insert(idx(4, 2), 40);
    c.remove(idx(4, 2), 0);
    let items = c.iter();
    assert_eq!(items.len(), 2);
    assert_eq!(items[0].0, idx(1, 7));
    assert_eq!(*items[0].1, 10);
    assert_eq!(items[1].0, idx(3, 9));
    assert_eq!(*items[1].1, 30);
}

#[test]
fn ensure_element_exist_creates_and_keeps() {
    let mut c: Coarena<u32> = Coarena::new();
    *c.ensure_element_exist(idx(2, 1), 5) += 1;
    assert_eq!(c.get(idx(2, 1)), Some(&6));
    assert_eq!(c.get_unknown_gen(0), Some(&5));
    assert_eq!(*c.ensure_element_exist(idx(2, 1), 0), 6);
    // Another generation resets the slot to the default.
    assert_eq!(*c.ensure_element_exist(idx(2, 3), 0), 0);
    assert_eq!(c.get(idx(2, 1)), None);
    assert_eq!(c.get(idx(2, 3)), Some(&0));
}

#[test]
fn ensure_pair_exists_hands_out_both_elements() {
    let mut c: Coarena<u32> = Coarena::new();
    c.insert(idx(1, 1), 10);
    {
        let (a, b) = c.ensure_pair_exists(idx(1, 1), idx(4, 2), 7);
        assert_eq!(*a, 10);
        assert_eq!(*b, 7);
        *a += 1;
        *b += 2;
    }
    assert_eq!(c.len(), 5);
    assert_eq!(c.get(idx(1, 1)), Some(&11));
    assert_eq!(c.get(idx(4, 2)), Some(&9));
    assert_eq!(c.get_gen(2), Some(EMPTY_GENERATION));
    assert_eq!(c.get_unknown_gen(3), Some(&7));
}

#[test]
fn ensure_pair_exists_in_either_order() {
    let mut c: Coarena<u32> = Coarena::new();
    c.insert(idx(0, 1), 3);
    c.insert(idx(2, 1), 4);
    {
        let (a, b) = c.ensure_pair_exists(idx(2, 1), idx(0, 5), 9);
        assert_eq!(*a, 4);
        assert_eq!(*b, 9);
        *b = 1;
    }
    assert_eq!(c.get(idx(2, 1)), Some(&4));
    assert_eq!(c.get(idx(0, 5)), Some(&1));
    assert_eq!(c.get(idx(0, 1)), None);
    assert_eq!(c.len(), 3);
}

#[test]
fn index_raw_parts_round_trip() {
    let i = Index::from_raw_parts(12, 34);
    assert_eq!(i.into_raw_parts(), (12, 34));
}

#[test]
fn default_coarena_is_empty() {
    let c: Coarena<u32> = Coarena::default();
    assert_eq!(c.len(), 0);
    assert_eq!(c.get_gen(0), None);
}
