use linked_lists::third::List;
use std::rc::Rc;

#[test]
fn persistent_basics() {
    let list = List::new();
    assert_eq!(list.head(), None);

    let list = list.prepend(1).prepend(2).prepend(3);
    assert_eq!(list.head(), Some(&3));

    let list = list.tail();
    assert_eq!(list.head(), Some(&2));

    let list = list.tail();
    assert_eq!(list.head(), Some(&1));

    let list = list.tail();
    assert_eq!(list.head(), None);

    // The tail of an empty list is empty.
    let list = list.tail();
    assert_eq!(list.head(), None);
}

#[test]
fn persistent_iter() {
    let list = List::new().prepend(1).prepend(2).prepend(3);

    let mut iter = list.iter();
    assert_eq!(iter.next(), Some(&3));
    assert_eq!(iter.next(), Some(&2));
    assert_eq!(iter.next(), Some(&1));
    assert_eq!(iter.next(), None);
    assert_eq!(iter.next(), None);
}

#[test]
fn prepend_leaves_the_list_as_it_was() {
    let base = List::new().prepend(1).prepend(2);
    let left = base.prepend(10);
    let right = base.prepend(20);

    assert_eq!(base.head(), Some(&2));
    assert_eq!(left.head(), Some(&10));
    assert_eq!(right.head(), Some(&20));

    let mut iter = left.iter();
    assert_eq!(iter.next(), Some(&10));
    assert_eq!(iter.next(), Some(&2));
    assert_eq!(iter.next(), Some(&1));
    assert_eq!(iter.next(), None);

    let rest = right.tail();
    let mut iter = rest.iter();
    assert_eq!(iter.next(), Some(&2));
    assert_eq!(iter.next(), Some(&1));
    assert_eq!(iter.next(), None);
}

#[test]
fn tail_of_prepend_is_the_list() {
    let base = List::new().prepend(1).prepend(2);
    let same = base.prepend(3).tail();
    let mut left = base.iter();
    let mut right = same.iter();
    assert_eq!(left.next(), right.next());
    assert_eq!(left.next(), right.next());
    assert_eq!(left.next(), None);
    assert_eq!(right.next(), None);
}

#[test]
fn lists_share_their_tails() {
    let token = Rc::new(());
    let base = List::new().prepend(Rc::clone(&token)).prepend(Rc::clone(&token));
    assert_eq!(Rc::strong_count(&token), 3);

    // Neither a longer list nor a tail copies a node.
    let longer = base.prepend(Rc::clone(&token));
    let shorter = base.tail();
    assert_eq!(Rc::strong_count(&token), 4);
    assert!(Rc::ptr_eq(longer.tail().head().unwrap(), base.head().unwrap()));

    drop(longer);
    assert_eq!(Rc::strong_count(&token), 3);

    // The tail keeps its node alive after the list it came from is gone.
    drop(base);
    assert_eq!(Rc::strong_count(&token), 2);
    assert!(shorter.head().is_some());

    drop(shorter);
    assert_eq!(Rc::strong_count(&token), 1);
}

#[test]
fn discarding_a_list_spares_what_another_holds() {
    let base = List::new().prepend(1).prepend(2);
    let longer = base.prepend(3).prepend(4);
    drop(longer);
    let mut iter = base.iter();
    assert_eq!(iter.next(), Some(&2));
    assert_eq!(iter.next(), Some(&1));
    assert_eq!(iter.next(), None);
}

#[test]
fn long_persistent_list_can_be_discarded() {
    let mut list = List::new();
    for i in 0..200_000 {
        list = list.prepend(i);
    }
    assert_eq!(list.head(), Some(&199_999));
    drop(list);
}
