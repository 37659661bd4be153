use trident::instruction::Compute;
use trident::operation::{Arity, OpKind};

#[test]
fn arity_of_a_count() {
    let a = Arity::new(3).unwrap();
    assert!(a.is_definite());
    assert!(!a.is_variadic());
    assert_eq!(a.get(), Some(3));
    assert_eq!(Arity::new(0).unwrap().get(), Some(0));
    assert_eq!(Arity::new(u32::MAX - 1).unwrap().get(), Some(u32::MAX - 1));
}

#[test]
fn arity_has_no_count_of_max() {
    assert!(Arity::new(u32::MAX).is_none());
}

#[test]
fn arity_variadic_has_no_count() {
    let a = Arity::variadic();
    assert!(a.is_variadic());
    assert!(!a.is_definite());
    assert_eq!(a.get(), None);
}

#[test]
fn arity_from_number() {
    assert_eq!(Arity::from(2u32).get(), Some(2));
    assert_eq!(Arity::from(u32::MAX), Arity::variadic());
    assert_eq!(Arity::from(7), Arity::new(7).unwrap());
    assert_eq!(Arity::default().get(), Some(0));
}

fn catalog() -> Vec<(OpKind<'static>, u16, Option<u32>, Option<u32>, Option<u32>, bool, &'static str)> {
    vec![
        (OpKind::Nop, 0, Some(0), Some(0), Some(0), false, "nop"),
        (OpKind::H, 1, Some(1), Some(0), Some(0), true, "h"),
        (OpKind::X, 2, Some(1), Some(0), Some(0), true, "x"),
        (OpKind::Y, 3, Some(1), Some(0), Some(0), true, "y"),
        (OpKind::Z, 4, Some(1), Some(0), Some(0), true, "z"),
        (OpKind::Rx, 5, Some(1), Some(0), Some(1), true, "rx"),
        (OpKind::Ry, 6, Some(1), Some(0), Some(1), true, "ry"),
        (OpKind::Rz, 7, Some(1), Some(0), Some(1), true, "rz"),
        (OpKind::Cx, 8, Some(2), Some(0), Some(0), true, "cx"),
        (OpKind::Ccx, 9, Some(3), Some(0), Some(0), true, "ccx"),
        (OpKind::Measure, 10, Some(1), Some(1), Some(0), false, "measure"),
        (OpKind::Barrier, 11, None, Some(0), Some(0), false, "barrier"),
        (OpKind::Compute(Compute::new(vec![], 0)), 100, Some(0), None, Some(0), false, "compute"),
    ]
}

#[test]
fn catalog_of_operations() {
    for (op, tag, qubits, bits, parameters, unitary, label) in catalog() {
        assert_eq!(op.tag(), tag);
        assert_eq!(op.qubits().get(), qubits);
        assert_eq!(op.bits().get(), bits);
        assert_eq!(op.parameters().get(), parameters);
        assert_eq!(op.is_unitary(), unitary);
        assert_eq!(op.label(), label);
    }
}

#[test]
fn tags_are_not_shared() {
    let all = catalog();
    for i in 0..all.len() {
        for j in 0..i {
            assert_ne!(all[i].1, all[j].1);
        }
    }
}

#[test]
fn default_operation_is_nop() {
    assert_eq!(OpKind::default(), OpKind::Nop);
    assert_eq!(OpKind::Rx.clone(), OpKind::Rx);
}
