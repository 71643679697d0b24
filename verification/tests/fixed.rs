use neural_net::errors::usize_to_string;
use neural_net::fixed::{Fx, MAX_RAW, SCALE};

#[test]
fn raw_round_trip() {
    assert_eq!(0, Fx::zero().raw());
    assert_eq!(SCALE, Fx::one().raw());
    assert_eq!(123_456_789, Fx::from_raw(123_456_789).raw());
    assert_eq!(-123_456_789, Fx::from_raw(-123_456_789).raw());
}

#[test]
fn from_int_scales_exactly() {
    assert_eq!(2 * SCALE, Fx::from_int(2).raw());
    assert_eq!(-7 * SCALE, Fx::from_int(-7).raw());
    assert_eq!(0, Fx::from_int(0).raw());
}

#[test]
fn addition_and_subtraction_are_exact() {
    let a = Fx::from_raw(150_000_000);
    let b = Fx::from_raw(350_000_000);
    assert_eq!(500_000_000, a.add(b).raw());
    assert_eq!(-200_000_000, a.sub(b).raw());
}

#[test]
fn multiplication_rescales_and_truncates_toward_zero() {
    // 0.15 * 0.6 = 0.09
    assert_eq!(90_000_000, Fx::from_raw(150_000_000).mul(Fx::from_raw(600_000_000)).raw());
    // the product of two single units truncates to zero, from either sign
    assert_eq!(0, Fx::from_raw(1).mul(Fx::from_raw(1)).raw());
    assert_eq!(0, Fx::from_raw(-1).mul(Fx::from_raw(1)).raw());
}

#[test]
fn arithmetic_saturates_at_the_raw_bounds() {
    let top = Fx::from_raw(MAX_RAW);
    assert_eq!(MAX_RAW, top.add(Fx::one()).raw());
    assert_eq!(-MAX_RAW, top.sub(top).sub(top).sub(top).raw());
    assert_eq!(MAX_RAW, top.mul(top).raw());
}

#[test]
fn decimal_rendering_of_counts() {
    assert_eq!("0", usize_to_string(0));
    assert_eq!("7", usize_to_string(7));
    assert_eq!("10", usize_to_string(10));
    assert_eq!("907", usize_to_string(907));
    assert_eq!("123456", usize_to_string(123456));
}
