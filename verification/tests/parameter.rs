use trident::parameter::{NotFormal, NotValue, Parameter, INFINITY_BITS, PAYLOAD_MASK};
use trident::symbol::FormalParameter;

#[test]
fn value_is_kept_bit_for_bit() {
    let p = Parameter::from_value_bits(1.57f32.to_bits());
    assert!(p.is_value());
    assert!(!p.is_formal());
    assert_eq!(p.bits(), 1.57f32.to_bits());
    assert_eq!(p.as_value_bits().map(f32::from_bits), Some(1.57f32));
    assert!(p.as_formal().is_none());
    assert_eq!(p.try_into_value_bits(), Ok(1.57f32.to_bits()));
    assert!(matches!(FormalParameter::try_from(p), Err(NotFormal)));
}

#[test]
fn number_that_is_not_finite_stands_for_zero() {
    for x in [f32::INFINITY, f32::NEG_INFINITY, f32::NAN] {
        let p = Parameter::from_value_bits(x.to_bits());
        assert!(p.is_value());
        assert_eq!(p.as_value_bits().map(f32::from_bits), Some(0.0f32));
    }
}

#[test]
fn negative_and_tiny_values_are_values() {
    for x in [-2.5f32, 0.0, -0.0, f32::MIN_POSITIVE, f32::MAX, f32::MIN, 1e-40] {
        let p = Parameter::from_value_bits(x.to_bits());
        assert!(p.is_value());
        assert_eq!(p.bits(), x.to_bits());
    }
}

#[test]
fn formal_is_read_back() {
    for index in [0u32, 1, 7, PAYLOAD_MASK] {
        let p = Parameter::from_formal(FormalParameter::new_unchecked(index));
        assert!(p.is_formal());
        assert!(!p.is_value());
        assert_eq!(p.bits(), index | INFINITY_BITS);
        assert_eq!(p.as_formal().unwrap().id(), index);
        assert_eq!(FormalParameter::try_from(p).unwrap().id(), index);
        let back: Result<FormalParameter, NotFormal> = p.try_into();
        assert_eq!(back.unwrap().id(), index);
        assert_eq!(p.as_value_bits(), None);
        assert_eq!(p.try_into_value_bits(), Err(NotValue));
    }
}

#[test]
fn formal_of_a_value_is_not_finite() {
    let p = Parameter::from_formal(FormalParameter::new_unchecked(5));
    assert!(!f32::from_bits(p.bits()).is_finite());
}

#[test]
fn formal_with_a_large_index_keeps_its_low_bits() {
    let p = Parameter::from_formal(FormalParameter::new_unchecked(0x0080_0003));
    assert!(p.is_formal());
    assert_eq!(p.as_formal().unwrap().id(), 3);
}

#[test]
fn parameter_from_formal_by_trait() {
    let p: Parameter = FormalParameter::new_unchecked(2).into();
    assert_eq!(p.as_formal().unwrap().id(), 2);
    let q = Parameter::from(FormalParameter::new_unchecked(4));
    assert_eq!(q.bits(), 4 | 0x7F80_0000);
}
