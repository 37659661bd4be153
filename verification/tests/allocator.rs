use trident::circuit::{CircuitAllocOverflow, CircuitBuilder, CircuitError, QuantumCircuit};
use trident::symbol::{Bit, FormalParameter, List, Qubit};

#[test]
fn handles_are_numbered_from_zero() {
    let circ = QuantumCircuit::new(|b| {
        assert_eq!(b.qubit()?.id(), 0);
        assert_eq!(b.qubit()?.id(), 1);
        assert_eq!(b.bit()?.id(), 0);
        assert_eq!(b.formal()?.id(), 0);
        assert_eq!(b.qubit()?.id(), 2);
        assert_eq!(b.bit()?.id(), 1);
        assert_eq!(b.formal()?.id(), 1);
        assert_eq!(b.num_qubits(), 3);
        assert_eq!(b.num_bits(), 2);
        assert_eq!(b.num_formals(), 2);
        Ok(())
    })
    .unwrap();
    assert_eq!(circ.num_qubit(), 3);
    assert_eq!(circ.num_bits(), 2);
    assert_eq!(circ.num_formals(), 2);
    assert_eq!(circ.num_ancillas(), 0);
    assert_eq!(circ.width(), 3);
}

#[test]
fn allocate_by_kind() {
    QuantumCircuit::new(|b| {
        let q: Qubit = b.allocate()?;
        let c: Bit = b.allocate()?;
        let p: FormalParameter = b.allocate()?;
        let q2: Qubit = b.allocate()?;
        assert_eq!((q.id(), c.id(), p.id(), q2.id()), (0, 0, 0, 1));
        Ok(())
    })
    .unwrap();
}

#[test]
fn alloc_n_advances_by_n() {
    QuantumCircuit::new(|b| {
        let [q0, q1, q2]: [Qubit; 3] = b.alloc_n()?;
        assert_eq!((q0.id(), q1.id(), q2.id()), (0, 1, 2));
        assert_eq!(b.num_qubits(), 3);
        let [q3, q4] = b.qubits::<2>()?;
        assert_eq!((q3.id(), q4.id()), (3, 4));
        assert_eq!(b.num_qubits(), 5);
        let none: [Qubit; 0] = b.alloc_n()?;
        assert_eq!(none.len(), 0);
        assert_eq!(b.num_qubits(), 5);
        let [b0, b1] = b.bits::<2>()?;
        assert_eq!((b0.id(), b1.id()), (0, 1));
        let [p0, p1, p2, p3] = b.formals::<4>()?;
        assert_eq!((p0.id(), p1.id(), p2.id(), p3.id()), (0, 1, 2, 3));
        assert_eq!((b.num_qubits(), b.num_bits(), b.num_formals()), (5, 2, 4));
        Ok(())
    })
    .unwrap();
}

#[test]
fn alloc_list_advances_by_len() {
    QuantumCircuit::new(|b| {
        b.qubit()?;
        let list: List<Qubit> = b.alloc_list(10)?;
        assert_eq!(list.as_range(), 1..11);
        assert_eq!(list.len(), 10);
        assert_eq!(b.num_qubits(), 11);
        let empty: List<Bit> = b.alloc_list(0)?;
        assert!(empty.is_empty());
        assert_eq!(b.num_bits(), 0);
        let formals: List<FormalParameter> = b.alloc_list(2)?;
        assert_eq!(formals.as_range(), 0..2);
        assert_eq!(b.num_formals(), 2);
        Ok(())
    })
    .unwrap();
}

fn fill_qubits(b: &mut CircuitBuilder<'_>, n: u32) {
    let list: List<Qubit> = b.alloc_list(n as usize).unwrap();
    assert_eq!(list.len(), n as usize);
}

#[test]
fn last_qubit_then_overflow() {
    QuantumCircuit::new(|b| {
        fill_qubits(b, Qubit::MAX - 1);
        assert_eq!(b.num_qubits(), (Qubit::MAX - 1) as usize);
        assert_eq!(b.qubit()?.id(), Qubit::MAX - 1);
        assert_eq!(b.num_qubits(), Qubit::MAX as usize);
        assert_eq!(b.qubit(), Err(CircuitAllocOverflow));
        assert_eq!(b.allocate::<Qubit>(), Err(CircuitAllocOverflow));
        assert_eq!(b.num_qubits(), Qubit::MAX as usize);
        Ok(())
    })
    .unwrap();
}

#[test]
fn last_bit_then_overflow() {
    QuantumCircuit::new(|b| {
        let list: List<Bit> = b.alloc_list((Bit::MAX - 1) as usize)?;
        assert_eq!(list.len(), (Bit::MAX - 1) as usize);
        assert_eq!(b.bit()?.id(), Bit::MAX - 1);
        assert_eq!(b.num_bits(), Bit::MAX as usize);
        assert_eq!(b.bit(), Err(CircuitAllocOverflow));
        assert_eq!(b.num_bits(), Bit::MAX as usize);
        Ok(())
    })
    .unwrap();
}

#[test]
fn last_formal_then_overflow() {
    QuantumCircuit::new(|b| {
        let list: List<FormalParameter> = b.alloc_list((FormalParameter::MAX - 1) as usize)?;
        assert_eq!(list.len(), (FormalParameter::MAX - 1) as usize);
        assert_eq!(b.formal()?.id(), FormalParameter::MAX - 1);
        assert_eq!(b.num_formals(), FormalParameter::MAX as usize);
        assert_eq!(b.formal(), Err(CircuitAllocOverflow));
        assert_eq!(b.num_formals(), FormalParameter::MAX as usize);
        Ok(())
    })
    .unwrap();
}

#[test]
fn failed_allocation_changes_nothing() {
    QuantumCircuit::new(|b| {
        let _: List<Bit> = b.alloc_list((Bit::MAX - 2) as usize)?;
        b.qubits::<2>()?;
        b.formal()?;
        assert!(b.bits::<3>().is_err());
        assert!(b.alloc_list::<Bit>(3).is_err());
        assert!(b.alloc_list::<Bit>(usize::MAX).is_err());
        assert_eq!(b.num_bits(), (Bit::MAX - 2) as usize);
        assert_eq!(b.num_qubits(), 2);
        assert_eq!(b.num_formals(), 1);
        let [c0, c1] = b.bits::<2>()?;
        assert_eq!((c0.id(), c1.id()), (Bit::MAX - 2, Bit::MAX - 1));
        assert_eq!(b.num_bits(), Bit::MAX as usize);
        Ok(())
    })
    .unwrap();
}

#[test]
fn ancillas_count_as_qubits() {
    QuantumCircuit::new(|b| {
        fill_qubits(b, Qubit::MAX - 3);
        assert_eq!(b.set_num_ancillas(4), Err(CircuitAllocOverflow));
        assert_eq!(b.num_ancillas(), 0);
        assert_eq!(b.set_num_ancillas(2), Ok(()));
        assert_eq!(b.num_ancillas(), 2);
        assert_eq!(b.width(), (Qubit::MAX - 1) as usize);
        assert!(b.qubits::<2>().is_err());
        assert_eq!(b.qubit()?.id(), Qubit::MAX - 3);
        assert_eq!(b.qubit(), Err(CircuitAllocOverflow));
        assert_eq!(b.set_num_ancillas(3), Err(CircuitAllocOverflow));
        assert_eq!(b.set_num_ancillas(0), Ok(()));
        assert_eq!(b.qubit()?.id(), Qubit::MAX - 2);
        Ok(())
    })
    .unwrap();
}

#[test]
fn overflow_ends_the_session() {
    let circ = QuantumCircuit::new(|b| {
        fill_qubits(b, Qubit::MAX);
        b.qubit()?;
        Ok(())
    });
    assert_eq!(circ.err(), Some(CircuitError::AllocOverflow));
    assert_eq!(CircuitError::from(CircuitAllocOverflow), CircuitError::AllocOverflow);
}

#[test]
fn tuple_of_handles_of_several_kinds() {
    QuantumCircuit::new(|b| {
        b.qubit()?;
        let (q, c, p, q2): (Qubit, Bit, FormalParameter, Qubit) = b.alloc_tuple()?;
        assert_eq!((q.id(), c.id(), p.id(), q2.id()), (1, 0, 0, 2));
        assert_eq!((b.num_qubits(), b.num_bits(), b.num_formals()), (3, 1, 1));
        let (c2,): (Bit,) = b.alloc_tuple()?;
        assert_eq!(c2.id(), 1);
        let (q3, q4): (Qubit, Qubit) = b.alloc_tuple()?;
        assert_eq!((q3.id(), q4.id()), (3, 4));
        Ok(())
    })
    .unwrap();
}

#[test]
fn tuple_of_twelve_handles() {
    QuantumCircuit::new(|b| {
        let t: (Qubit, Bit, Qubit, Bit, Qubit, Bit, Qubit, Bit, Qubit, Bit, Qubit, FormalParameter) =
            b.alloc_tuple()?;
        assert_eq!((t.0.id(), t.2.id(), t.4.id(), t.6.id(), t.8.id(), t.10.id()), (0, 1, 2, 3, 4, 5));
        assert_eq!((t.1.id(), t.3.id(), t.5.id(), t.7.id(), t.9.id()), (0, 1, 2, 3, 4));
        assert_eq!(t.11.id(), 0);
        assert_eq!((b.num_qubits(), b.num_bits(), b.num_formals()), (6, 5, 1));
        Ok(())
    })
    .unwrap();
}

#[test]
fn failed_tuple_keeps_the_handles_before_the_failure() {
    QuantumCircuit::new(|b| {
        let _: List<Bit> = b.alloc_list((Bit::MAX - 1) as usize)?;
        let failed: Result<(Qubit, Bit, FormalParameter, Bit, Qubit), CircuitAllocOverflow> =
            b.alloc_tuple();
        assert!(failed.is_err());
        assert_eq!((b.num_qubits(), b.num_bits(), b.num_formals()), (1, Bit::MAX as usize, 1));
        let failed: Result<(Bit, Qubit), CircuitAllocOverflow> = b.alloc_tuple();
        assert!(failed.is_err());
        assert_eq!((b.num_qubits(), b.num_bits(), b.num_formals()), (1, Bit::MAX as usize, 1));
        Ok(())
    })
    .unwrap();
}
