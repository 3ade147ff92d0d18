use ft_lockup::index_set::IndexSet;

#[test]
fn test_index_set_insert_remove_contains() {
    let mut set = IndexSet::new();
    assert!(set.is_empty());
    assert!(!set.contains(3));
    assert!(set.insert(3));
    assert!(!set.insert(3));
    assert!(set.insert(1));
    assert!(set.insert(7));
    assert!(set.insert(0));
    assert!(!set.is_empty());
    assert_eq!(set.to_vec(), vec![0, 1, 3, 7]);
    assert!(set.contains(0) && set.contains(1) && set.contains(3) && set.contains(7));
    assert!(!set.contains(2));
    assert!(!set.remove(2));
    assert!(set.remove(1));
    assert!(!set.remove(1));
    assert_eq!(set.to_vec(), vec![0, 3, 7]);
    assert!(set.remove(7));
    assert!(set.remove(0));
    assert!(set.remove(3));
    assert!(set.is_empty());
    assert_eq!(set.to_vec(), Vec::<u64>::new());
}

#[test]
fn test_index_set_from_vec_keeps_each_once() {
    let set = IndexSet::from_vec(vec![5, 2, 5, 9, 2, 2, u64::MAX, 0]);
    assert_eq!(set.to_vec(), vec![0, 2, 5, 9, u64::MAX]);
    assert!(IndexSet::from_vec(vec![]).is_empty());
}
