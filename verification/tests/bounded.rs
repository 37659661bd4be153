use trident::symbol::{FormalParameter, List};

#[test]
fn quick() {
    println!("{}", std::mem::size_of::<Option<f64>>());
}

#[test]
fn list_get_is_some_below_len_only() {
    let list = List::new(FormalParameter::new_unchecked(3), FormalParameter::new_unchecked(6))
        .unwrap();
    assert_eq!(list.len(), 4);
    for i in 0..4usize {
        assert_eq!(list.get(i).unwrap().id(), 3 + i as u32);
    }
    assert!(list.get(4).is_none());
    assert!(list.get(usize::MAX).is_none());
}

#[test]
fn list_of_one_handle() {
    let list = List::new(FormalParameter::new_unchecked(9), FormalParameter::new_unchecked(9))
        .unwrap();
    assert_eq!(list.len(), 1);
    assert!(!list.is_empty());
    assert_eq!(list.as_range(), 9..10);
    assert_eq!(list.get(0).unwrap().id(), 9);
}

#[test]
fn list_needs_ordered_ends() {
    let list = List::new(FormalParameter::new_unchecked(5), FormalParameter::new_unchecked(4));
    assert!(list.is_none());
}

#[test]
fn list_cannot_end_at_the_last_index() {
    let list = List::new(FormalParameter::new_unchecked(0), FormalParameter::new_unchecked(u32::MAX));
    assert!(list.is_none());
    let list = List::new(
        FormalParameter::new_unchecked(0),
        FormalParameter::new_unchecked(u32::MAX - 1),
    )
    .unwrap();
    assert_eq!(list.len(), u32::MAX as usize);
}

#[test]
fn list_contains_its_range_only() {
    let list = List::new(FormalParameter::new_unchecked(3), FormalParameter::new_unchecked(6))
        .unwrap();
    assert!(!list.contains(FormalParameter::new_unchecked(2)));
    assert!(list.contains(FormalParameter::new_unchecked(3)));
    assert!(list.contains(FormalParameter::new_unchecked(6)));
    assert!(!list.contains(FormalParameter::new_unchecked(7)));
}

#[test]
fn list_iter_walks_in_order() {
    let list = List::new(FormalParameter::new_unchecked(3), FormalParameter::new_unchecked(5))
        .unwrap();
    let mut walk = list.iter();
    assert_eq!(walk.next().unwrap().id(), 3);
    assert_eq!(walk.next().unwrap().id(), 4);
    assert_eq!(walk.next().unwrap().id(), 5);
    assert!(walk.next().is_none());
    assert!(walk.next().is_none());
}

#[test]
fn list_clone_keeps_the_range() {
    let list = List::new(FormalParameter::new_unchecked(3), FormalParameter::new_unchecked(5))
        .unwrap();
    assert_eq!(list.clone().as_range(), 3..6);
}
