use linked_lists::first;

#[test]
fn test_basics() {
    let mut list = first::List::new();

    // Check empty list behaves right
    assert_eq!(list.pop(), None);

    // Populate list
    list.push(1);
    list.push(2);
    list.push(3);
    println!("{:?}", list);

    // Check normal removal
    assert_eq!(list.pop(), Some(3));
    assert_eq!(list.pop(), Some(2));

    // Push some more just to make sure nothing's corrupted
    list.push(4);
    list.push(5);
    // Check normal removal
    assert_eq!(list.pop(), Some(5));
    assert_eq!(list.pop(), Some(4));

    // Check exhaustion
    assert_eq!(list.pop(), Some(1));
    assert_eq!(list.pop(), None);
}

#[test]
fn long_list_can_be_discarded() {
    let mut list = first::List::new();
    for i in 0..200_000 {
        list.push(i);
    }
    assert_eq!(list.pop(), Some(199_999));
    drop(list);
}

#[test]
fn extreme_values_pass_through() {
    let mut list = first::List::new();
    list.push(i32::MIN);
    list.push(i32::MAX);
    assert_eq!(list.pop(), Some(i32::MAX));
    assert_eq!(list.pop(), Some(i32::MIN));
    assert_eq!(list.pop(), None);
}
