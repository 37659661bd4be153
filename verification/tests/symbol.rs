use trident::circuit::QuantumCircuit;
use trident::symbol::{Ancillas, Bit, FormalParameter, List, Qubit, Symbol};

#[test]
fn handles_keep_their_index() {
    assert_eq!(Qubit::new_unchecked(3).id(), 3);
    assert_eq!(Bit::new_unchecked(u32::MAX).id(), u32::MAX);
    assert_eq!(FormalParameter::new_unchecked(0).id(), 0);
    assert_eq!(<Qubit as Symbol>::new_unchecked(8).id(), 8);
}

#[test]
fn handles_are_equal_by_index() {
    assert_eq!(Qubit::new_unchecked(3), Qubit::new_unchecked(3));
    assert_ne!(Qubit::new_unchecked(3), Qubit::new_unchecked(4));
    assert!(Bit::new_unchecked(3) < Bit::new_unchecked(4));
    assert!(FormalParameter::new_unchecked(9) >= FormalParameter::new_unchecked(9));
}

#[test]
fn limits_of_the_kinds() {
    assert_eq!(Qubit::MAX, u32::MAX - 1);
    assert_eq!(FormalParameter::MAX, u32::MAX - 1);
    assert_eq!(Bit::MAX, 1 << 24);
}

#[test]
fn list_of_qubits_and_bits() {
    let qubits = List::new(Qubit::new_unchecked(0), Qubit::new_unchecked(2)).unwrap();
    assert_eq!(qubits.get(2).unwrap().id(), 2);
    assert!(qubits.get(3).is_none());
    let bits = List::new(Bit::new_unchecked(10), Bit::new_unchecked(10)).unwrap();
    assert!(bits.contains(Bit::new_unchecked(10)));
    assert!(!bits.contains(Bit::new_unchecked(11)));
}

#[test]
fn circuit_without_ancillas_has_no_window() {
    let circ = QuantumCircuit::new(|b| {
        b.qubits::<3>()?;
        Ok(())
    })
    .unwrap();
    assert!(Ancillas::new(&circ).is_none());
}

#[test]
fn ancillas_stand_above_the_qubits() {
    let circ = QuantumCircuit::new(|b| {
        b.qubits::<3>()?;
        b.set_num_ancillas(4)?;
        Ok(())
    })
    .unwrap();
    assert_eq!(circ.num_qubit(), 3);
    assert_eq!(circ.num_ancillas(), 4);
    assert_eq!(circ.width(), 7);
    let ancillas = Ancillas::new(&circ).unwrap();
    assert_eq!(ancillas.count(), 4);
    for n in 0..4usize {
        assert_eq!(ancillas.get(n).unwrap().id(), 3 + n as u32);
    }
    assert!(ancillas.get(4).is_none());
    assert!(!ancillas.contains(Qubit::new_unchecked(2)));
    assert!(ancillas.contains(Qubit::new_unchecked(3)));
    assert!(ancillas.contains(Qubit::new_unchecked(6)));
    assert!(!ancillas.contains(Qubit::new_unchecked(7)));
    let mut walk = ancillas.iter();
    for n in 3..7u32 {
        assert_eq!(walk.next().unwrap().id(), n);
    }
    assert!(walk.next().is_none());
    assert_eq!(ancillas.clone().count(), 4);
}
