use trident::bitset::BitSet;

#[test]
fn new_set_is_all_false() {
    let set = BitSet::new(19);
    assert_eq!(set.len(), 19);
    for i in 0..19 {
        assert_eq!(set.get(i), Some(false));
    }
    assert_eq!(set.get(19), None);
}

#[test]
fn empty_set_has_no_bit() {
    let mut set = BitSet::new(0);
    assert_eq!(set.len(), 0);
    assert_eq!(set.get(0), None);
    assert_eq!(set.set(0, true), None);
}

#[test]
fn set_changes_one_bit() {
    let mut set = BitSet::new(19);
    assert_eq!(set.set(10, true), Some(()));
    for i in 0..19 {
        assert_eq!(set.get(i), Some(i == 10));
    }
    assert_eq!(set.set(18, true), Some(()));
    assert_eq!(set.set(10, false), Some(()));
    for i in 0..19 {
        assert_eq!(set.get(i), Some(i == 18));
    }
}

#[test]
fn set_out_of_range_changes_nothing() {
    let mut set = BitSet::new(8);
    assert_eq!(set.set(3, true), Some(()));
    let before = set.clone();
    assert_eq!(set.set(8, true), None);
    assert_eq!(set.set(usize::MAX, true), None);
    assert!(set == before);
}

#[test]
fn bits_of_a_whole_byte() {
    let mut set = BitSet::new(16);
    for i in 0..16 {
        if i % 3 == 0 {
            assert_eq!(set.set(i, true), Some(()));
        }
    }
    for i in 0..16 {
        assert_eq!(set.get(i), Some(i % 3 == 0));
    }
}
