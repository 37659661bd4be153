use trident::circuit::{CircuitBuilder, CircuitError, ConcreteCircuit, NotConcreteError};
use trident::prelude::QuantumCircuit;
use trident::instruction::{Compute, Instr, InstrVec, Modifier};
use trident::operation::OpKind;
use trident::parameter::Parameter;
use trident::provider::Architecture;
use trident::symbol::{Ancillas, Bit, FormalParameter, Qubit};

fn ids(qubits: &[Qubit<'_>]) -> Vec<u32> {
    qubits.iter().map(|q| q.id()).collect()
}

#[test]
fn bell() {
    let circ = QuantumCircuit::new(|circ| {
        let [q1, q2] = circ.alloc_n()?;

        circ.h(q1)
            .cx(q1, q2);

        Ok(())
    });

    assert!(circ.is_ok());
}

#[test]
fn two_qubits_h_then_cx() {
    let circ = QuantumCircuit::new(|b| {
        let q0 = b.qubit()?;
        let q1 = b.qubit()?;
        b.append(&Instr {
            op: OpKind::H,
            qubits: vec![q0],
            bits: vec![],
            parameters: vec![],
            modifier: None,
        });
        b.append(&Instr {
            op: OpKind::Cx,
            qubits: vec![q0, q1],
            bits: vec![],
            parameters: vec![],
            modifier: None,
        });
        Ok(())
    })
    .unwrap();
    assert_eq!(circ.num_qubit(), 2);
    assert_eq!(circ.data(), &[0x0001_0000, 0, 0x0008_0000, 0, 1]);
    let instructions = circ.instructions();
    let mut walk = instructions.iter();
    let first = walk.next().unwrap();
    assert_eq!(first.op, OpKind::H);
    assert_eq!(ids(&first.qubits), vec![0]);
    let second = walk.next().unwrap();
    assert_eq!(second.op, OpKind::Cx);
    assert_eq!(ids(&second.qubits), vec![0, 1]);
    assert!(walk.next().is_none());
}

#[test]
fn bind_needs_one_value_for_each_formal() {
    let circ = QuantumCircuit::new(|b| {
        let q0 = b.qubit()?;
        let p0 = b.formal()?;
        b.rx(q0, Parameter::from_formal(p0));
        Ok(())
    })
    .unwrap();
    assert_eq!(circ.num_formals(), 1);
    assert!(!circ.is_concrete());
    assert!(circ.bind_copy(&[]).is_none());
    assert!(circ.bind_copy(&[1.57f32.to_bits(), 0]).is_none());
    let concrete = circ.bind(&[1.57f32.to_bits()]).unwrap();
    let bound = concrete.take();
    assert!(bound.is_concrete());
    assert_eq!(bound.num_formals(), 0);
    assert_eq!(bound.num_qubit(), 1);
    let instructions = bound.instructions();
    let mut walk = instructions.iter();
    let rx = walk.next().unwrap();
    assert_eq!(rx.op, OpKind::Rx);
    assert_eq!(ids(&rx.qubits), vec![0]);
    assert_eq!(rx.parameters.len(), 1);
    assert_eq!(rx.parameters[0].as_value_bits().map(f32::from_bits), Some(1.57f32));
    assert!(rx.is_concrete());
    assert!(walk.next().is_none());
}

#[test]
fn bind_gives_each_formal_its_own_value() {
    let circ = QuantumCircuit::new(|b| {
        let [q0, q1] = b.qubits::<2>()?;
        let [p0, p1, p2] = b.formals::<3>()?;
        b.rx(q0, Parameter::from_formal(p2));
        b.h(q1);
        b.rx(q1, Parameter::from_value_bits(0.5f32.to_bits()));
        b.rx(q0, Parameter::from_formal(p0));
        b.rx(q1, Parameter::from_formal(p1));
        b.rx(q1, Parameter::from_formal(p2));
        Ok(())
    })
    .unwrap();
    let values = [1.0f32.to_bits(), f32::NAN.to_bits(), (-3.0f32).to_bits()];
    let bound = circ.bind(&values).unwrap().take();
    assert_eq!(
        bound.data(),
        &[
            0x0005_0000,
            0,
            (-3.0f32).to_bits(),
            0x0001_0000,
            1,
            0x0005_0000,
            1,
            0.5f32.to_bits(),
            0x0005_0000,
            0,
            1.0f32.to_bits(),
            0x0005_0000,
            1,
            0.0f32.to_bits(),
            0x0005_0000,
            1,
            (-3.0f32).to_bits(),
        ]
    );
}

#[test]
fn bind_of_a_circuit_without_formals() {
    let circ = QuantumCircuit::new(|b| {
        let q = b.qubit()?;
        b.h(q);
        Ok(())
    })
    .unwrap();
    assert!(circ.bind_copy(&[0]).is_none());
    let bound = circ.bind_copy(&[]).unwrap().take();
    assert_eq!(bound.data(), circ.data());
}

#[test]
fn variadic_instruction_holds_its_length() {
    let circ = QuantumCircuit::new(|b| {
        let [q0, q1, q2] = b.qubits::<3>()?;
        b.append(&Instr {
            op: OpKind::Barrier,
            qubits: vec![q0, q1, q2],
            bits: vec![],
            parameters: vec![],
            modifier: None,
        });
        b.h(q1);
        Ok(())
    })
    .unwrap();
    assert_eq!(circ.data(), &[0x000B_0000, 3, 0, 1, 2, 0x0001_0000, 1]);
}

#[test]
fn two_circuits_number_their_qubits_alike() {
    let first = QuantumCircuit::new(|b| {
        assert_eq!(b.qubit()?.id(), 0);
        Ok(())
    })
    .unwrap();
    let second = QuantumCircuit::new(|b| {
        assert_eq!(b.qubit()?.id(), 0);
        Ok(())
    })
    .unwrap();
    assert_eq!(first.num_qubit(), 1);
    assert_eq!(second.num_qubit(), 1);
}

#[test]
fn failed_session_makes_no_circuit() {
    let circ = QuantumCircuit::new(|b| {
        b.qubit()?;
        Err(CircuitError::AllocOverflow)
    });
    assert_eq!(circ.err(), Some(CircuitError::AllocOverflow));
}

#[test]
fn empty_session_makes_the_empty_circuit() {
    let circ = QuantumCircuit::new(|_| Ok(())).unwrap();
    assert_eq!(
        (circ.num_qubit(), circ.num_bits(), circ.num_formals(), circ.num_ancillas()),
        (0, 0, 0, 0)
    );
    assert!(circ.data().is_empty());
    assert!(circ.is_concrete());
    let other = QuantumCircuit::default();
    assert!(other.data().is_empty());
    assert_eq!(other.width(), 0);
}

#[test]
fn edit_goes_on_where_the_circuit_stood() {
    let circ = QuantumCircuit::new(|b| {
        let q = b.qubit()?;
        b.bit()?;
        b.h(q);
        Ok(())
    })
    .unwrap();
    let circ = circ
        .edit(|b| {
            assert_eq!(b.num_qubits(), 1);
            assert_eq!(b.instructions().as_words(), &[0x0001_0000, 0]);
            let q = b.qubit()?;
            assert_eq!(q.id(), 1);
            b.measure(q, Bit::new_unchecked(0));
            Ok(())
        })
        .unwrap();
    assert_eq!(circ.num_qubit(), 2);
    assert_eq!(circ.num_bits(), 1);
    assert_eq!(circ.data(), &[0x0001_0000, 0, 0x000A_0000, 1, 0]);
    let copy = circ.clone();
    assert_eq!(copy.data(), circ.data());
    assert_eq!(copy.num_qubit(), 2);
    let lost = circ.edit(|b| {
        b.qubit()?;
        Err(CircuitError::AllocOverflow)
    });
    assert!(lost.is_err());
}

fn instr<'id>(op: OpKind<'id>, qubits: Vec<Qubit<'id>>) -> Instr<'id> {
    Instr { op, qubits, bits: vec![], parameters: vec![], modifier: None }
}

fn check_admits<'id>(b: &mut CircuitBuilder<'id>) -> Result<(), CircuitError> {
    let [q0, q1] = b.qubits::<2>()?;
    let c0 = b.bit()?;
    let p0 = b.formal()?;
    assert!(b.admits(&instr(OpKind::H, vec![q0])));
    assert!(b.admits(&instr(OpKind::Cx, vec![q1, q0])));
    assert!(!b.admits(&instr(OpKind::H, vec![])));
    assert!(!b.admits(&instr(OpKind::H, vec![Qubit::new_unchecked(2)])));
    let mut measure = instr(OpKind::Measure, vec![q0]);
    measure.bits = vec![c0];
    assert!(b.admits(&measure));
    measure.bits = vec![Bit::new_unchecked(1)];
    assert!(!b.admits(&measure));
    let mut rx = instr(OpKind::Rx, vec![q0]);
    rx.parameters = vec![Parameter::from_formal(p0)];
    assert!(b.admits(&rx));
    rx.parameters = vec![Parameter::from_formal(FormalParameter::new_unchecked(1))];
    assert!(!b.admits(&rx));
    rx.parameters = vec![Parameter::from_value_bits(2.0f32.to_bits())];
    assert!(b.admits(&rx));
    let mut guarded = instr(OpKind::H, vec![q0]);
    guarded.modifier = Some(Modifier::IfBit(c0));
    assert!(b.admits(&guarded));
    guarded.modifier = Some(Modifier::WhileBit(Bit::new_unchecked(5)));
    assert!(!b.admits(&guarded));
    guarded.modifier = Some(Modifier::ForConst(1000));
    assert!(b.admits(&guarded));
    guarded.modifier = Some(Modifier::ForCompute(Compute::new(vec![c0, c0], 3)));
    assert!(b.admits(&guarded));
    guarded.modifier = Some(Modifier::IfCompute(Compute::new(vec![c0, Bit::new_unchecked(1)], 3)));
    assert!(!b.admits(&guarded));
    let mut compute = instr(OpKind::Compute(Compute::new(vec![c0], 1)), vec![]);
    compute.bits = vec![c0];
    assert!(b.admits(&compute));
    compute.op = OpKind::Compute(Compute::new(vec![Bit::new_unchecked(9)], 1));
    assert!(!b.admits(&compute));
    Ok(())
}

#[test]
fn session_admits_its_own_handles_only() {
    QuantumCircuit::new(check_admits).unwrap();
}

#[test]
fn circuit_with_formals_is_not_concrete() {
    let circ = QuantumCircuit::new(|b| {
        b.formal()?;
        Ok(())
    })
    .unwrap();
    assert!(circ.clone().as_concrete().is_none());
    assert_eq!(ConcreteCircuit::try_from(circ).err(), Some(NotConcreteError));
}

#[test]
fn circuit_without_formals_is_concrete() {
    let circ = QuantumCircuit::new(|b| {
        let q = b.qubit()?;
        b.h(q);
        Ok(())
    })
    .unwrap();
    let concrete = circ.clone().as_concrete().unwrap();
    assert_eq!(concrete.circuit().data(), circ.data());
    assert_eq!(concrete.clone().take().num_qubit(), 1);
    let concrete: Result<ConcreteCircuit, NotConcreteError> = circ.try_into();
    assert!(concrete.is_ok());
}

struct Swapper {
    fail: bool,
}

impl Architecture for Swapper {
    type TranspileError = String;

    fn num_qubits(&self) -> usize {
        8
    }

    fn connected(&self, qubit1: usize, qubit2: usize) -> bool {
        qubit1 != qubit2
    }

    fn supports<'id>(&self, instr: &Instr<'id>) -> Result<(), String> {
        if instr.op == OpKind::H {
            Ok(())
        } else {
            Err(format!("no {}", instr.op.label()))
        }
    }

    fn transpile<'id>(
        &self,
        instructions: InstrVec<'id>,
        ancillas: Option<Ancillas<'id>>,
    ) -> Result<InstrVec<'id>, String> {
        if self.fail {
            return Err("no".to_string());
        }
        let mut out = InstrVec::new();
        let mut walk = instructions.iter();
        while let Some(instr) = walk.next() {
            out.append(&instr);
        }
        if let Some(ancillas) = ancillas {
            out.append(&Instr {
                op: OpKind::X,
                qubits: vec![ancillas.get(0).unwrap()],
                bits: vec![],
                parameters: vec![],
                modifier: None,
            });
        }
        Ok(out)
    }
}

#[test]
fn transpile_gives_what_the_architecture_gave() {
    let circ = QuantumCircuit::new(|b| {
        let q = b.qubit()?;
        b.bit()?;
        b.set_num_ancillas(2)?;
        b.h(q);
        Ok(())
    })
    .unwrap();
    let concrete = circ.as_concrete().unwrap();
    let transpiled = concrete.transpile_copy(&Swapper { fail: false }).unwrap();
    assert_eq!(transpiled.num_qubit(), 1);
    assert_eq!(transpiled.num_bits(), 1);
    assert_eq!(transpiled.num_ancillas(), 2);
    assert_eq!(transpiled.instructions().as_words(), &[0x0001_0000, 0, 0x0002_0000, 1]);
    assert_eq!(transpiled.take().take(), vec![0x0001_0000, 0, 0x0002_0000, 1]);
    let failed = concrete.transpile(&Swapper { fail: true });
    assert_eq!(failed.err(), Some("no".to_string()));
}
