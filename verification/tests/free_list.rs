use geode::free_list::FreeList;

#[test]
fn free_list_hands_out_slots_in_order() {
    let mut list: FreeList<char> = FreeList::new();
    assert_eq!(list.len(), 0);
    assert!(!list.is_full());
    assert_eq!(list.allocate('a'), 0);
    assert_eq!(list.allocate('b'), 1);
    assert_eq!(list.allocate('c'), 2);
    assert_eq!(list.len(), 3);
    assert_eq!(list.get(0), Some(&'a'));
    assert_eq!(list.get(1), Some(&'b'));
    assert_eq!(list.get(2), Some(&'c'));
    assert_eq!(list.get(3), None);
}

#[test]
fn free_list_reuses_a_freed_slot_before_growing() {
    let mut list: FreeList<u32> = FreeList::new();
    for value in 0..5u32 {
        assert_eq!(list.allocate(value), value);
    }
    assert_eq!(list.dealloc(3), Some(3));
    assert_eq!(list.get(3), None);
    assert_eq!(list.len(), 5);
    assert_eq!(list.allocate(30), 3);
    assert_eq!(list.get(3), Some(&30));
    assert_eq!(list.allocate(50), 5);
    assert_eq!(list.len(), 6);
}

#[test]
fn free_list_reuses_every_freed_slot() {
    let mut list: FreeList<u32> = FreeList::new();
    for value in 0..4u32 {
        list.allocate(value);
    }
    assert_eq!(list.dealloc(1), Some(1));
    assert_eq!(list.dealloc(2), Some(2));
    assert_eq!(list.dealloc(2), None);
    let first = list.allocate(10);
    let second = list.allocate(20);
    assert!(first == 1 || first == 2);
    assert!(second == 1 || second == 2);
    assert_ne!(first, second);
    assert_eq!(list.len(), 4);
    assert_eq!(list.allocate(30), 4);
}

#[test]
fn free_list_get_mut_changes_the_value_in_place() {
    let mut list: FreeList<String> = FreeList::new();
    let slot = list.allocate("a".to_string());
    if let Some(value) = list.get_mut(slot) {
        value.push('b');
    }
    assert_eq!(list.get(slot), Some(&"ab".to_string()));
    assert!(list.get_mut(9).is_none());
    list.dealloc(slot);
    assert!(list.get_mut(slot).is_none());
}
