use rde::budget::FormatBudget;

#[test]
fn elements_are_granted_up_to_the_allowance() {
    let mut b = FormatBudget::new(5, 10, 100);
    assert_eq!(b.take_elements(4), 4);
    assert_eq!(b.max_elements, 6);
    assert_eq!(b.take_elements(9), 6);
    assert_eq!(b.max_elements, 0);
    assert!(b.is_exhausted());
}

#[test]
fn children_are_one_level_shallower() {
    let mut b = FormatBudget::new(2, 10, 100);
    let child = b.for_child().unwrap();
    assert_eq!(child.max_depth, 1);
    assert_eq!(b.max_depth, 2);
    let mut leaf = FormatBudget::new(0, 10, 100);
    assert!(leaf.for_child().is_none());
}

#[test]
fn bytes_are_granted_up_to_the_allowance() {
    let mut b = FormatBudget::default();
    assert_eq!(b.take_bytes(5000), 4096);
    assert_eq!(b.max_bytes, 0);
}
