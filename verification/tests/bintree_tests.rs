use fixed_income::bintree::BinTree;

#[test]
fn test_basic_sort() {
    let mut t = BinTree::new();
    t.add_sorted(4);
    t.add_sorted(5);
    t.add_sorted(6);
    t.add_sorted(10);
    t.add_sorted(1);
    t.add_sorted(94);
    t.add_sorted(54);
    t.add_sorted(3);
    assert_eq!(t.max_value(), Some(94));
}

#[test]
fn test_max_value_empty() {
    let mut t = BinTree::new();
    assert_eq!(t.max_value(), None);
}

#[test]
fn test_max_value_consumes() {
    // The rightmost walk takes the tree: a second query finds it empty.
    let mut t = BinTree::new();
    t.add_sorted(7);
    t.add_sorted(3);
    assert_eq!(t.max_value(), Some(7));
    assert_eq!(t.max_value(), None);
}

#[test]
fn test_duplicates_and_descending_inserts() {
    // Repeated and descending values exercise both rotations.
    let mut t = BinTree::new();
    for v in [5, 5, 5, 4, 3, 2, 1, 0, -1, -2, 5] {
        t.add_sorted(v);
    }
    assert_eq!(t.max_value(), Some(5));
}

#[test]
fn test_heights_stay_small() {
    let mut t = BinTree::new();
    for v in 0..100 {
        t.add_sorted(v);
    }
    // An ascending run left to itself would stand 100 nodes tall; the
    // rotations keep the recorded height well below that.
    assert!(t.height() < 30);
    assert_eq!(t.max_value(), Some(99));
}
