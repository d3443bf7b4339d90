use gda::math::{Decimal, MyError};

#[test]
fn new_and_denominator() {
    let d = Decimal::new(250, 2);
    assert_eq!(d.val, 250);
    assert_eq!(d.scale, 2);
    assert_eq!(d.denominator(), 100);
    assert_eq!(Decimal::new(7, 0).denominator(), 1);
}

#[test]
fn from_integer_is_scale_zero() {
    let d = Decimal::from_integer(42);
    assert_eq!(d.val, 42);
    assert_eq!(d.scale, 0);
    assert_eq!(d.to_u64(), 42);
    assert_eq!(d.to_u128(), 42);
}

#[test]
fn euler_constant() {
    let e = Decimal::euler_value();
    assert_eq!(e.val, 2718281828459045);
    assert_eq!(e.scale, 15);
}

#[test]
fn add_same_scale() {
    let a = Decimal::new(150, 2);
    let b = Decimal::new(25, 2);
    let r = a.add(b).unwrap();
    assert_eq!(r.val, 175);
    assert_eq!(r.scale, 2);
}

#[test]
fn add_different_scale_fails() {
    let a = Decimal::new(150, 2);
    let b = Decimal::new(25, 3);
    assert_eq!(a.add(b), Err(MyError::DifferentScale));
}

#[test]
fn add_overflow_fails() {
    let a = Decimal::new(u128::MAX, 0);
    let b = Decimal::new(1, 0);
    assert_eq!(a.add(b), Err(MyError::NumericalOverflow));
}

#[test]
fn sub_same_scale() {
    let a = Decimal::new(150, 2);
    let b = Decimal::new(25, 2);
    let r = a.sub(b).unwrap();
    assert_eq!(r.val, 125);
    assert_eq!(r.scale, 2);
}

#[test]
fn sub_different_scale_fails() {
    let a = Decimal::new(1, 0);
    let b = Decimal::new(1, 1);
    assert_eq!(a.sub(b), Err(MyError::DifferentScale));
}

#[test]
fn sub_underflow_fails() {
    let a = Decimal::new(1, 2);
    let b = Decimal::new(2, 2);
    assert_eq!(a.sub(b), Err(MyError::NumericalOverflow));
}

#[test]
fn mul_floors() {
    // 2.5 * 1.5 = 3.75, floored to 3.7 at scale 1
    let a = Decimal::new(25, 1);
    let b = Decimal::new(15, 1);
    let r = a.mul(b).unwrap();
    assert_eq!(r.val, 37);
    assert_eq!(r.scale, 1);
}

#[test]
fn mul_up_ceils() {
    let a = Decimal::new(25, 1);
    let b = Decimal::new(15, 1);
    let r = a.mul_up(b).unwrap();
    assert_eq!(r.val, 38);
    assert_eq!(r.scale, 1);
}

#[test]
fn mul_overflow_fails() {
    let a = Decimal::new(u128::MAX, 0);
    let b = Decimal::new(2, 0);
    assert_eq!(a.mul(b), Err(MyError::NumericalOverflow));
    assert_eq!(a.mul_up(b), Err(MyError::NumericalOverflow));
}

#[test]
fn mul_scalar_scales_magnitude() {
    let t = Decimal::from_integer(7);
    let r = t.mul_scalar(3).unwrap();
    assert_eq!(r.val, 21);
    assert_eq!(r.scale, 0);
    assert_eq!(
        Decimal::new(u128::MAX, 0).mul_scalar(2),
        Err(MyError::NumericalOverflow)
    );
}

#[test]
fn div_floors_div_up_ceils() {
    let a = Decimal::from_integer(10);
    let b = Decimal::from_integer(4);
    assert_eq!(a.div(b).unwrap().val, 2);
    assert_eq!(a.div_up(b).unwrap().val, 3);
}

#[test]
fn div_by_zero_fails() {
    let a = Decimal::from_integer(10);
    let z = Decimal::from_integer(0);
    assert_eq!(a.div(z), Err(MyError::NumericalOverflow));
    assert_eq!(a.div_up(z), Err(MyError::NumericalOverflow));
}

#[test]
fn to_scale_up_and_down() {
    let d = Decimal::new(1234, 2);
    let up = d.to_scale(4).unwrap();
    assert_eq!(up.val, 123400);
    assert_eq!(up.scale, 4);
    let down = d.to_scale(0).unwrap();
    assert_eq!(down.val, 12);
    assert_eq!(down.scale, 0);
}

#[test]
fn to_scale_overflow_fails() {
    let d = Decimal::new(u128::MAX, 0);
    assert_eq!(d.to_scale(1), Err(MyError::NumericalOverflow));
}

#[test]
fn to_scale_up_rounds_toward_seller() {
    // 12.34 brought to integer scale must become 13, never 12
    let d = Decimal::new(1234, 2);
    let r = d.to_scale_up(0).unwrap();
    assert_eq!(r.val, 13);
    assert_eq!(r.scale, 0);
    // growing the scale stays exact
    let g = d.to_scale_up(3).unwrap();
    assert_eq!(g.val, 12340);
    assert_eq!(g.scale, 3);
}

#[test]
fn rescale_round_trip_recovers_value() {
    // the floor-rounded path back from any coarser scale is exact
    let x = Decimal::new(987654321, 3);
    for s1 in 3..12u8 {
        let up = x.to_scale(s1).unwrap();
        let back = up.to_scale(x.scale).unwrap();
        assert_eq!(back, x);
    }
}

#[test]
fn div_to_scale_single_rounding_step() {
    let a = Decimal::from_integer(7);
    let b = Decimal::from_integer(2);
    let r = a.div_to_scale(b, 3).unwrap();
    assert_eq!(r.val, 3500);
    assert_eq!(r.scale, 3);
    assert_eq!(a.div_to_scale(Decimal::from_integer(0), 3), Err(MyError::NumericalOverflow));
}

#[test]
fn pow_zero_is_identity() {
    let x = Decimal::new(123456, 4);
    let r = x.pow_with_accuracy(0).unwrap();
    assert_eq!(r.val, 10000);
    assert_eq!(r.scale, 4);
    let y = Decimal::from_integer(999);
    let ry = y.pow_with_accuracy(0).unwrap();
    assert_eq!(ry.val, 1);
    assert_eq!(ry.scale, 0);
}

#[test]
fn pow_integer_exact() {
    let two = Decimal::from_integer(2);
    assert_eq!(two.pow_with_accuracy(10).unwrap().val, 1024);
    assert_eq!(two.pow_with_accuracy(1).unwrap().val, 2);
    let three = Decimal::from_integer(3);
    assert_eq!(three.pow_with_accuracy(5).unwrap().val, 243);
}

#[test]
fn pow_overflow_fails() {
    let big = Decimal::from_integer(u64::MAX);
    assert_eq!(big.pow_with_accuracy(3), Err(MyError::NumericalOverflow));
}

#[test]
fn pow_euler_grows() {
    let e = Decimal::euler_value();
    let e2 = e.pow_with_accuracy(2).unwrap();
    // e^2 = 7.389056..., at scale 15, floored square of the stored constant
    assert_eq!(e2.scale, 15);
    assert!(e2.val > 7_389_056_000_000_000 && e2.val < 7_389_057_000_000_000);
}
