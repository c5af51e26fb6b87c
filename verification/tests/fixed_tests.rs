use ternary_kalman::FixedPoint;

fn fx(v: f64) -> FixedPoint {
    FixedPoint::from_raw((v * FixedPoint::SCALE as f64) as i32)
}

fn val(x: FixedPoint) -> f64 {
    x.raw() as f64 / FixedPoint::SCALE as f64
}

#[test]
fn test_fixed_point_add() {
    let a = fx(1.5);
    let b = fx(2.5);
    let c = a.add(b);
    assert!((val(c) - 4.0).abs() < 0.01);
}

#[test]
fn test_fixed_point_mul() {
    let a = fx(3.0);
    let b = fx(2.0);
    let c = a.mul(b);
    assert!((val(c) - 6.0).abs() < 0.01);
}

#[test]
fn test_fixed_point_div() {
    let a = fx(6.0);
    let b = fx(3.0);
    let c = a.div(b);
    assert!((val(c) - 2.0).abs() < 0.01);
}

#[test]
fn test_fixed_point_sub() {
    let a = fx(5.0);
    let b = fx(3.0);
    let c = a.sub(b);
    assert!((val(c) - 2.0).abs() < 0.01);
}

#[test]
fn fixed_constants() {
    assert_eq!(FixedPoint::SCALE, 65536);
    assert_eq!(FixedPoint::zero().raw(), 0);
    assert_eq!(FixedPoint::one().raw(), 65536);
    assert_eq!(FixedPoint::default(), FixedPoint::zero());
    assert_eq!(FixedPoint::from_i32(-3).raw(), -196608);
    assert_eq!(FixedPoint::from_i32(32767).raw(), 32767 * 65536);
    assert_eq!(FixedPoint::from_raw(12345).raw(), 12345);
}

#[test]
fn fixed_add_sub_exact() {
    let a = FixedPoint::from_raw(100_000);
    let b = FixedPoint::from_raw(-30_001);
    assert_eq!(a.add(b).raw(), 69_999);
    assert_eq!(a.sub(b).raw(), 130_001);
    assert_eq!(a.add(b).sub(b), a);
    assert_eq!(a.add(FixedPoint::zero()), a);
}

#[test]
fn fixed_mul_rounds_toward_minus_infinity() {
    // 1.5 * 0.5 = 0.75 exactly
    assert_eq!(FixedPoint::from_raw(98304).mul(FixedPoint::from_raw(32768)).raw(), 49152);
    // raw 3 * raw 3 = 9 / 65536 -> 0
    assert_eq!(FixedPoint::from_raw(3).mul(FixedPoint::from_raw(3)).raw(), 0);
    // raw -3 * raw 3 = -9 / 65536 -> -1 (floor)
    assert_eq!(FixedPoint::from_raw(-3).mul(FixedPoint::from_raw(3)).raw(), -1);
    // -2.5 * 2 = -5
    assert_eq!(FixedPoint::from_raw(-163840).mul(FixedPoint::from_i32(2)).raw(), -327680);
}

#[test]
fn fixed_mul_wraps_to_i32() {
    // 200 * 200 = 40000 does not fit in Q16.16; the raw result wraps.
    let a = FixedPoint::from_i32(200);
    let exact: i64 = 40000 * 65536;
    assert_eq!(a.mul(a).raw(), exact as i32);
}

#[test]
fn fixed_mul_laws_on_values() {
    let a = FixedPoint::from_raw(-123_456);
    let b = FixedPoint::from_raw(7_890_123);
    assert_eq!(a.mul(b), b.mul(a));
    assert_eq!(a.mul(FixedPoint::one()), a);
    assert_eq!(FixedPoint::one().mul(a), a);
    assert_eq!(a.mul(FixedPoint::zero()), FixedPoint::zero());
    assert_eq!(FixedPoint::from_i32(7).mul(FixedPoint::from_i32(-9)), FixedPoint::from_i32(-63));
    assert_eq!(
        FixedPoint::from_i32(7).add(FixedPoint::from_i32(-9)),
        FixedPoint::from_i32(-2)
    );
    let p = a.mul(b).raw() as i64;
    let exact = (a.raw() as i64) * (b.raw() as i64);
    assert!(p * 65536 <= exact && exact < p * 65536 + 65536);
}

#[test]
fn fixed_div_rounds_toward_zero() {
    // 1 / 3 = 0.33333 -> raw 21845
    assert_eq!(FixedPoint::one().div(FixedPoint::from_i32(3)).raw(), 21845);
    // -1 / 3 -> raw -21845 (toward zero, not -21846)
    assert_eq!(FixedPoint::from_i32(-1).div(FixedPoint::from_i32(3)).raw(), -21845);
    // 1 / -3
    assert_eq!(FixedPoint::one().div(FixedPoint::from_i32(-3)).raw(), -21845);
    // -1 / -3
    assert_eq!(FixedPoint::from_i32(-1).div(FixedPoint::from_i32(-3)).raw(), 21845);
    // 12 / -4 = -3 exactly
    assert_eq!(FixedPoint::from_i32(12).div(FixedPoint::from_i32(-4)), FixedPoint::from_i32(-3));
    let a = FixedPoint::from_raw(-987_654);
    assert_eq!(a.div(FixedPoint::one()), a);
}

#[test]
fn fixed_div_wraps_to_i32() {
    // 30000 / raw 1 is far beyond the i32 range; the raw result wraps.
    let a = FixedPoint::from_i32(30000);
    let q: i64 = (30000i64 * 65536 * 65536) / 1;
    assert_eq!(a.div(FixedPoint::from_raw(1)).raw(), q as i32);
}
