use trident::bitset::BitSet;
use trident::instruction::{Compute, Instr, InstrFlags, InstrVec, Modifier};
use trident::operation::OpKind;
use trident::parameter::Parameter;
use trident::storage;
use trident::symbol::{Bit, FormalParameter, Qubit};
use trident::wire::DecodeError;

fn qubits(ids: &[u32]) -> Vec<Qubit<'static>> {
    ids.iter().map(|&n| Qubit::new_unchecked(n)).collect()
}

fn bits(ids: &[u32]) -> Vec<Bit<'static>> {
    ids.iter().map(|&n| Bit::new_unchecked(n)).collect()
}

fn ids_of_qubits(qubits: &[Qubit<'static>]) -> Vec<u32> {
    qubits.iter().map(|q| q.id()).collect()
}

fn ids_of_bits(bits: &[Bit<'static>]) -> Vec<u32> {
    bits.iter().map(|b| b.id()).collect()
}

fn words_of_parameters(parameters: &[Parameter<'static>]) -> Vec<u32> {
    parameters.iter().map(|p| p.bits()).collect()
}

fn plain(op: OpKind<'static>, q: &[u32], b: &[u32], p: Vec<Parameter<'static>>) -> Instr<'static> {
    Instr { op, qubits: qubits(q), bits: bits(b), parameters: p, modifier: None }
}

fn encode(instr: &Instr<'static>) -> Vec<u32> {
    assert!(instr.is_valid());
    let mut dest = Vec::new();
    instr.write(&mut dest);
    dest
}

fn same(a: &Instr<'static>, b: &Instr<'static>) -> bool {
    a.op == b.op
        && ids_of_qubits(&a.qubits) == ids_of_qubits(&b.qubits)
        && ids_of_bits(&a.bits) == ids_of_bits(&b.bits)
        && words_of_parameters(&a.parameters) == words_of_parameters(&b.parameters)
        && a.modifier == b.modifier
}

fn round_trip(instr: &Instr<'static>) {
    let words = encode(instr);
    let mut tail = words.clone();
    tail.extend_from_slice(&[0xDEAD_BEEF, 7]);
    let mut src: &[u32] = &tail;
    let back = Instr::read(&mut src).unwrap();
    assert!(same(&back, instr));
    assert_eq!(src, &[0xDEAD_BEEF, 7]);
    let mut src: &[u32] = &words;
    let back = Instr::read(&mut src).unwrap();
    assert!(same(&back, instr));
    assert!(src.is_empty());
}

fn every_operation() -> Vec<Instr<'static>> {
    let angle = Parameter::from_value_bits(0.25f32.to_bits());
    let formal = Parameter::from_formal(FormalParameter::new_unchecked(3));
    vec![
        plain(OpKind::Nop, &[], &[], vec![]),
        plain(OpKind::H, &[4], &[], vec![]),
        plain(OpKind::X, &[0], &[], vec![]),
        plain(OpKind::Y, &[1], &[], vec![]),
        plain(OpKind::Z, &[u32::MAX], &[], vec![]),
        plain(OpKind::Rx, &[2], &[], vec![angle]),
        plain(OpKind::Ry, &[2], &[], vec![formal]),
        plain(OpKind::Rz, &[2], &[], vec![angle]),
        plain(OpKind::Cx, &[0, 1], &[], vec![]),
        plain(OpKind::Ccx, &[0, 1, 2], &[], vec![]),
        plain(OpKind::Measure, &[5], &[6], vec![]),
        plain(OpKind::Barrier, &[], &[], vec![]),
        plain(OpKind::Barrier, &[7, 8, 9, 10], &[], vec![]),
        plain(OpKind::Compute(Compute::new(bits(&[1, 2]), 77)), &[], &[3, 4, 5], vec![]),
        plain(OpKind::Compute(Compute::new(vec![], 0)), &[], &[], vec![]),
    ]
}

fn every_modifier() -> Vec<Modifier<'static>> {
    vec![
        Modifier::IfBit(Bit::new_unchecked(2)),
        Modifier::IfCompute(Compute::new(bits(&[0, 1]), 5)),
        Modifier::WhileBit(Bit::new_unchecked(9)),
        Modifier::WhileCompute(Compute::new(vec![], 6)),
        Modifier::ForConst(12),
        Modifier::ForCompute(Compute::new(bits(&[3]), u32::MAX)),
    ]
}

#[test]
fn round_trip_of_every_operation() {
    for instr in every_operation() {
        round_trip(&instr);
    }
}

#[test]
fn round_trip_of_every_modifier_on_every_operation() {
    for modifier in every_modifier() {
        for mut instr in every_operation() {
            instr.modifier = Some(modifier.clone());
            assert!(instr.has_modifier());
            round_trip(&instr);
        }
    }
}

#[test]
fn words_of_a_fixed_arity_instruction() {
    let words = encode(&plain(OpKind::H, &[4], &[], vec![]));
    assert_eq!(words, vec![0x0001_0000, 4]);
    let words = encode(&plain(OpKind::Cx, &[0, 1], &[], vec![]));
    assert_eq!(words, vec![0x0008_0000, 0, 1]);
    let words = encode(&plain(OpKind::Nop, &[], &[], vec![]));
    assert_eq!(words, vec![0]);
}

#[test]
fn words_of_a_variadic_instruction_hold_the_length() {
    let words = encode(&plain(OpKind::Barrier, &[7, 8, 9], &[], vec![]));
    assert_eq!(words, vec![0x000B_0000, 3, 7, 8, 9]);
    let words = encode(&plain(OpKind::Barrier, &[], &[], vec![]));
    assert_eq!(words, vec![0x000B_0000, 0]);
}

#[test]
fn words_hold_parameters_bit_for_bit() {
    let angle = Parameter::from_value_bits(1.5f32.to_bits());
    let words = encode(&plain(OpKind::Rx, &[2], &[], vec![angle]));
    assert_eq!(words, vec![0x0005_0000, 2, 1.5f32.to_bits()]);
    let formal = Parameter::from_formal(FormalParameter::new_unchecked(3));
    let words = encode(&plain(OpKind::Rz, &[2], &[], vec![formal]));
    assert_eq!(words, vec![0x0007_0000, 2, 0x7F80_0003]);
}

#[test]
fn words_of_a_compute_operation() {
    let instr = plain(OpKind::Compute(Compute::new(bits(&[1, 2]), 77)), &[], &[3, 4, 5], vec![]);
    assert_eq!(encode(&instr), vec![0x0064_0000, 2, 1, 2, 77, 3, 3, 4, 5]);
}

#[test]
fn words_of_modifiers() {
    let mut instr = plain(OpKind::H, &[4], &[], vec![]);
    instr.modifier = Some(Modifier::IfBit(Bit::new_unchecked(2)));
    assert_eq!(encode(&instr), vec![0x0001_0001, 4, 0, 2]);
    instr.modifier = Some(Modifier::IfCompute(Compute::new(bits(&[0, 1]), 5)));
    assert_eq!(encode(&instr), vec![0x0001_0001, 4, 1, 2, 0, 1, 5]);
    instr.modifier = Some(Modifier::WhileBit(Bit::new_unchecked(9)));
    assert_eq!(encode(&instr), vec![0x0001_0001, 4, 2, 9]);
    instr.modifier = Some(Modifier::WhileCompute(Compute::new(vec![], 6)));
    assert_eq!(encode(&instr), vec![0x0001_0001, 4, 3, 0, 6]);
    instr.modifier = Some(Modifier::ForConst(12));
    assert_eq!(encode(&instr), vec![0x0001_0001, 4, 4, 12]);
    instr.modifier = Some(Modifier::ForCompute(Compute::new(bits(&[3]), 8)));
    assert_eq!(encode(&instr), vec![0x0001_0001, 4, 5, 1, 3, 8]);
}

#[test]
fn write_appends_to_what_is_there() {
    let mut dest = vec![11, 22];
    plain(OpKind::H, &[4], &[], vec![]).write(&mut dest);
    plain(OpKind::X, &[5], &[], vec![]).write(&mut dest);
    assert_eq!(dest, vec![11, 22, 0x0001_0000, 4, 0x0002_0000, 5]);
}

#[test]
fn instruction_with_wrong_arity_is_not_valid() {
    assert!(!plain(OpKind::H, &[], &[], vec![]).is_valid());
    assert!(!plain(OpKind::H, &[1, 2], &[], vec![]).is_valid());
    assert!(!plain(OpKind::H, &[1], &[0], vec![]).is_valid());
    assert!(!plain(OpKind::Measure, &[1], &[], vec![]).is_valid());
    assert!(!plain(OpKind::Rx, &[1], &[], vec![]).is_valid());
    assert!(!plain(OpKind::Barrier, &[1], &[1], vec![]).is_valid());
    assert!(plain(OpKind::Barrier, &[1, 2, 3, 4, 5], &[], vec![]).is_valid());
    assert!(plain(OpKind::Measure, &[1], &[2], vec![]).is_valid());
}

#[test]
fn read_of_nothing_fails() {
    let mut src: &[u32] = &[];
    assert_eq!(Instr::read(&mut src).err(), Some(DecodeError::UnexpectedEnd));
    assert!(src.is_empty());
}

#[test]
fn read_of_unknown_operation_fails() {
    let words = [0x0063_0000u32, 1, 2];
    let mut src: &[u32] = &words;
    assert_eq!(Instr::read(&mut src).err(), Some(DecodeError::InvalidOperation));
    assert_eq!(src, &words);
    let words = [0xFFFF_0000u32];
    let mut src: &[u32] = &words;
    assert_eq!(Instr::read(&mut src).err(), Some(DecodeError::InvalidOperation));
}

#[test]
fn read_of_unknown_modifier_fails() {
    let words = [0x0001_0001u32, 4, 6, 2];
    let mut src: &[u32] = &words;
    assert_eq!(Instr::read(&mut src).err(), Some(DecodeError::InvalidModifier));
    assert_eq!(src, &words);
}

#[test]
fn read_of_truncated_words_fails_and_leaves_the_source() {
    let mut full = plain(OpKind::Compute(Compute::new(bits(&[1, 2]), 77)), &[], &[3, 4, 5], vec![]);
    full.modifier = Some(Modifier::ForCompute(Compute::new(bits(&[3]), 8)));
    let words = encode(&full);
    for cut in 0..words.len() {
        let mut src: &[u32] = &words[..cut];
        assert_eq!(Instr::read(&mut src).err(), Some(DecodeError::UnexpectedEnd));
        assert_eq!(src, &words[..cut]);
    }
}

#[test]
fn read_of_a_length_beyond_the_words_fails() {
    let words = [0x000B_0000u32, 3, 7, 8];
    let mut src: &[u32] = &words;
    assert_eq!(Instr::read(&mut src).err(), Some(DecodeError::UnexpectedEnd));
    let words = [0x000B_0000u32, u32::MAX];
    let mut src: &[u32] = &words;
    assert_eq!(Instr::read(&mut src).err(), Some(DecodeError::UnexpectedEnd));
}

#[test]
fn read_ignores_flags_that_it_does_not_know() {
    let words = [0x0001_0002u32, 4];
    let mut src: &[u32] = &words;
    let instr = Instr::read(&mut src).unwrap();
    assert!(same(&instr, &plain(OpKind::H, &[4], &[], vec![])));
    assert!(src.is_empty());
}

#[test]
fn operation_is_read_with_its_flags() {
    let words = [0x0008_0001u32, 9];
    let mut src: &[u32] = &words;
    let (op, flags) = OpKind::read(&mut src).unwrap();
    assert_eq!(op, OpKind::Cx);
    assert_eq!(flags.bits(), 1);
    assert!(flags.contains(InstrFlags::has_modifier()));
    assert_eq!(src, &[9]);
    let mut dest = Vec::new();
    op.write(&mut dest, flags);
    assert_eq!(dest, vec![0x0008_0001]);
}

#[test]
fn flags() {
    let mut flags = InstrFlags::empty();
    assert_eq!(flags.bits(), 0);
    assert!(!flags.contains(InstrFlags::has_modifier()));
    assert!(flags.contains(InstrFlags::empty()));
    flags.insert(InstrFlags::has_modifier());
    assert_eq!(flags.bits(), 1);
    assert!(flags.contains(InstrFlags::has_modifier()));
}

#[test]
fn compute_round_trip() {
    let compute: Compute<BitSet> = Compute::new(bits(&[4, 5, 6]), 9);
    let mut dest = Vec::new();
    compute.write(&mut dest);
    assert_eq!(dest, vec![3, 4, 5, 6, 9]);
    let mut src: &[u32] = &dest;
    let back: Compute<BitSet> = Compute::read(&mut src).unwrap();
    assert_eq!(back, compute);
    assert!(src.is_empty());
    let mut src: &[u32] = &dest[..4];
    assert_eq!(Compute::<BitSet>::read(&mut src).err(), Some(DecodeError::UnexpectedEnd));
    assert_eq!(src, &dest[..4]);
}

#[test]
fn modifier_round_trip() {
    for modifier in every_modifier() {
        let mut dest = Vec::new();
        modifier.write(&mut dest);
        dest.push(1234);
        let mut src: &[u32] = &dest;
        assert_eq!(Modifier::read(&mut src), Ok(modifier));
        assert_eq!(src, &[1234]);
    }
}

#[test]
fn storage_reads_what_it_wrote() {
    let mut dest: Vec<u32> = Vec::new();
    storage::write(&mut dest, 5u32);
    storage::write(&mut dest, Qubit::new_unchecked(6));
    storage::write_slice(&mut dest, &bits(&[7, 8]));
    storage::write(&mut dest, (InstrFlags::has_modifier(), 3u16));
    assert_eq!(dest, vec![5, 6, 7, 8, 0x0003_0001]);
    let mut src: &[u32] = &dest;
    assert_eq!(storage::read_word(&mut src), 5);
    let q: Qubit = storage::read(&mut src);
    assert_eq!(q.id(), 6);
    let b: Vec<Bit> = storage::read_slice(&mut src, 2);
    assert_eq!(ids_of_bits(&b), vec![7, 8]);
    let (flags, tag): (InstrFlags, u16) = storage::read(&mut src);
    assert_eq!((flags.bits(), tag), (1, 3));
    assert!(src.is_empty());
}

#[test]
fn storage_copies_a_slice() {
    assert_eq!(storage::copy_slice(&[3u32, 1, 2]), vec![3, 1, 2]);
    assert_eq!(storage::copy_slice::<u32>(&[]), Vec::<u32>::new());
}

#[test]
fn concrete_instruction_has_values_only() {
    let angle = Parameter::from_value_bits(0.25f32.to_bits());
    let formal = Parameter::from_formal(FormalParameter::new_unchecked(0));
    assert!(plain(OpKind::Rx, &[0], &[], vec![angle]).is_concrete());
    assert!(!plain(OpKind::Rx, &[0], &[], vec![formal]).is_concrete());
    assert!(plain(OpKind::H, &[0], &[], vec![]).is_concrete());
}

#[test]
fn buffer_walks_its_instructions_in_order() {
    let all = every_operation();
    let mut buffer = InstrVec::new();
    for instr in &all {
        buffer.append(instr);
    }
    let mut walk = buffer.iter();
    for instr in &all {
        assert!(same(&walk.next().unwrap(), instr));
    }
    assert!(walk.next().is_none());
    assert!(walk.next().is_none());
}

#[test]
fn buffer_holds_the_words_of_its_instructions() {
    let mut buffer = InstrVec::new();
    assert!(buffer.as_words().is_empty());
    buffer.append(&plain(OpKind::H, &[4], &[], vec![]));
    buffer.append(&plain(OpKind::Barrier, &[1, 2], &[], vec![]));
    assert_eq!(buffer.as_words(), &[0x0001_0000, 4, 0x000B_0000, 2, 1, 2]);
    assert_eq!(buffer.clone().take(), vec![0x0001_0000, 4, 0x000B_0000, 2, 1, 2]);
}

#[test]
fn buffer_extend_and_clear() {
    let mut first = InstrVec::new();
    first.append(&plain(OpKind::H, &[4], &[], vec![]));
    let mut second = InstrVec::default();
    second.append(&plain(OpKind::X, &[5], &[], vec![]));
    second.append(&plain(OpKind::Y, &[6], &[], vec![]));
    first.extend(&second);
    assert_eq!(first.as_words(), &[0x0001_0000, 4, 0x0002_0000, 5, 0x0003_0000, 6]);
    let mut walk = first.iter();
    assert_eq!(walk.next().unwrap().op, OpKind::H);
    assert_eq!(walk.next().unwrap().op, OpKind::X);
    assert_eq!(walk.next().unwrap().op, OpKind::Y);
    assert!(walk.next().is_none());
    first.clear();
    assert!(first.as_words().is_empty());
    assert!(first.iter().next().is_none());
    first.extend(&InstrVec::new());
    assert!(first.as_words().is_empty());
}

#[test]
fn default_instruction_is_an_empty_nop() {
    let instr = Instr::default();
    assert!(same(&instr, &plain(OpKind::Nop, &[], &[], vec![])));
    assert!(same(&instr.clone(), &instr));
    assert!(!instr.has_modifier());
}

#[test]
fn buffer_from_words() {
    let all = every_operation();
    let mut words = Vec::new();
    for instr in &all {
        instr.write(&mut words);
    }
    let buffer: InstrVec = InstrVec::from_words(&words).unwrap();
    assert_eq!(buffer.as_words(), &words[..]);
    let mut walk = buffer.iter();
    for instr in &all {
        assert!(same(&walk.next().unwrap(), instr));
    }
    assert!(walk.next().is_none());
    let empty: InstrVec = InstrVec::from_words(&[]).unwrap();
    assert!(empty.as_words().is_empty());
}

#[test]
fn buffer_from_words_that_hold_no_instructions() {
    let truncated = [0x0001_0000u32, 4, 0x0008_0000, 0];
    assert_eq!(InstrVec::from_words(&truncated).err(), Some(DecodeError::UnexpectedEnd));
    let unknown = [0x0001_0000u32, 4, 0x0063_0000];
    assert_eq!(InstrVec::from_words(&unknown).err(), Some(DecodeError::InvalidOperation));
    let modifier = [0x0001_0000u32, 4, 0x0001_0001, 4, 17];
    assert_eq!(InstrVec::from_words(&modifier).err(), Some(DecodeError::InvalidModifier));
}

#[test]
fn buffer_from_words_drops_flags_that_it_does_not_know() {
    let buffer: InstrVec = InstrVec::from_words(&[0x0001_0004, 4, 0x0002_0003, 5, 4, 9]).unwrap();
    assert_eq!(buffer.as_words(), &[0x0001_0000, 4, 0x0002_0001, 5, 4, 9]);
}
