use primitives2d::{Direction2d, InvalidDirectionError, Scalar, Vec2};

fn vec2(x: f32, y: f32) -> Vec2 {
    Vec2::from_bits(x.to_bits(), y.to_bits())
}

#[test]
fn significand_and_scale_of_one() {
    let one = Scalar::from_bits(1.0f32.to_bits());
    assert_eq!(one.significand_bits(), 0x80_0000);
    assert_eq!(one.scale_bits(), 126);
}

#[test]
fn significand_and_scale_of_edge_patterns() {
    let zero = Scalar::from_bits(0);
    assert_eq!(zero.significand_bits(), 0);
    assert_eq!(zero.scale_bits(), 0);
    let smallest = Scalar::from_bits(1);
    assert_eq!(smallest.significand_bits(), 1);
    assert_eq!(smallest.scale_bits(), 0);
    let largest_subnormal = Scalar::from_bits(0x007f_ffff);
    assert_eq!(largest_subnormal.significand_bits(), 0x7f_ffff);
    assert_eq!(largest_subnormal.scale_bits(), 0);
    let smallest_normal = Scalar::from_bits(0x0080_0000);
    assert_eq!(smallest_normal.significand_bits(), 0x80_0000);
    assert_eq!(smallest_normal.scale_bits(), 0);
    let next_binade = Scalar::from_bits(0x0100_0001);
    assert_eq!(next_binade.significand_bits(), 0x80_0001);
    assert_eq!(next_binade.scale_bits(), 1);
    let largest = Scalar::from_bits(f32::MAX.to_bits());
    assert_eq!(largest.significand_bits(), 0xff_ffff);
    assert_eq!(largest.scale_bits(), 253);
    let negative = Scalar::from_bits((-0.75f32).to_bits());
    assert_eq!(negative.significand_bits(), 0xc0_0000);
    assert_eq!(negative.scale_bits(), 125);
    let infinity = Scalar::from_bits(f32::INFINITY.to_bits());
    assert_eq!(infinity.scale_bits(), 254);
}

#[test]
fn axes_are_normalized() {
    assert!(vec2(1.0, 0.0).is_normalized());
    assert!(vec2(0.0, 1.0).is_normalized());
    assert!(vec2(-1.0, 0.0).is_normalized());
    assert!(vec2(0.0, -1.0).is_normalized());
    assert!(vec2(-0.0, 1.0).is_normalized());
}

#[test]
fn rounded_unit_vectors_are_normalized() {
    assert!(vec2(0.6, 0.8).is_normalized());
    assert!(vec2(-0.6, -0.8).is_normalized());
    assert!(vec2(0.8, -0.6).is_normalized());
    assert!(vec2(0.28, 0.96).is_normalized());
    assert!(vec2(0.70710677, 0.70710677).is_normalized());
    assert!(vec2(0.5, 0.8660254).is_normalized());
    assert!(vec2(0.0078125, 0.9999695).is_normalized());
}

#[test]
fn other_lengths_are_not_normalized() {
    assert!(!vec2(3.0, 4.0).is_normalized());
    assert!(!vec2(0.0, 0.0).is_normalized());
    assert!(!vec2(2.0, 0.0).is_normalized());
    assert!(!vec2(0.0, 2.0).is_normalized());
    assert!(!vec2(0.4, 0.4).is_normalized());
    assert!(!vec2(0.5, 0.5).is_normalized());
    assert!(!vec2(1.0, 1.0).is_normalized());
    assert!(!vec2(0.99999, 0.0).is_normalized());
    assert!(!vec2(1.00001, 0.0).is_normalized());
    assert!(!vec2(f32::MAX, 0.0).is_normalized());
    assert!(!vec2(f32::MAX, f32::MAX).is_normalized());
    assert!(!Vec2::from_bits(1, 1).is_normalized());
}

#[test]
fn vectors_that_are_not_finite_are_not_normalized() {
    assert!(!vec2(f32::NAN, 0.0).is_normalized());
    assert!(!vec2(1.0, f32::NAN).is_normalized());
    assert!(!vec2(f32::INFINITY, 0.0).is_normalized());
    assert!(!vec2(1.0, f32::NEG_INFINITY).is_normalized());
    assert!(!vec2(0.0, f32::INFINITY).is_normalized());
}

#[test]
fn tolerance_edges_on_an_axis() {
    // The squares of these two lengths lie just inside the tolerance.
    assert!(Vec2::from_bits(0x3f80_003f, 0).is_normalized());
    assert!(Vec2::from_bits(0x3f7f_ff80, 0).is_normalized());
    assert!(Vec2::from_bits(0, 0x3f80_003f).is_normalized());
    assert!(Vec2::from_bits(0, 0xbf7f_ff80).is_normalized());
    // Their neighbours lie just outside.
    assert!(!Vec2::from_bits(0x3f80_0040, 0).is_normalized());
    assert!(!Vec2::from_bits(0x3f7f_ff7f, 0).is_normalized());
    assert!(!Vec2::from_bits(0, 0xbf80_0040).is_normalized());
    assert!(!Vec2::from_bits(0, 0x3f7f_ff7f).is_normalized());
    assert!(!vec2(0.999992, 0.0).is_normalized());
    assert!(!vec2(1.000008, 0.0).is_normalized());
}

#[test]
fn small_coordinate_moves_the_length_across_the_edge() {
    assert!(Vec2::from_bits(0x3f7f_ff7f, 0x39b4_f976).is_normalized());
    assert!(!Vec2::from_bits(0x3f7f_ff7f, 0x39b4_f975).is_normalized());
    assert!(Vec2::from_bits(0x3f80_003f, 0x39ff_f83f).is_normalized());
    assert!(!Vec2::from_bits(0x3f80_003f, 0x39ff_f840).is_normalized());
    assert!(Vec2::from_bits(0x39b4_f976, 0xbf7f_ff7f).is_normalized());
    assert!(!Vec2::from_bits(0xb9b4_f975, 0x3f7f_ff7f).is_normalized());
    assert!(vec2(1.0, 0.0039).is_normalized());
    assert!(!vec2(1.0, 0.004).is_normalized());
    assert!(vec2(1.0, 0.001).is_normalized());
}

#[test]
fn tiny_coordinate_does_not_change_the_answer() {
    let one: u32 = 1.0f32.to_bits();
    let tiny: [u32; 12] = [
        0x3480_0000, 0x34ff_ffff, 0x3400_0000, 0x347f_ffff, 0x3380_0000, 0x33ff_ffff,
        0x3300_0000, 0x337f_ffff, 0x2180_0000, 0x21ff_ffff, 0x0080_0000, 0x00ff_ffff,
    ];
    for y in tiny {
        assert!(Vec2::from_bits(one, y).is_normalized());
        assert!(Vec2::from_bits(y, one).is_normalized());
        assert!(Vec2::from_bits(0x3f80_003f, y).is_normalized());
        assert!(!Vec2::from_bits(0x3f7f_ff7f, y).is_normalized());
        assert!(!Vec2::from_bits(0x3f80_0040, y).is_normalized());
    }
    assert!(vec2(1.0, 1e-40).is_normalized());
    assert!(vec2(1e-20, 1.0).is_normalized());
    assert!(Vec2::from_bits(one, 1).is_normalized());
}

#[test]
fn checked_constructor_takes_unit_vectors() {
    let v = vec2(0.6, 0.8);
    let d = Direction2d::try_from_normalized(v).unwrap();
    assert_eq!(d.vector(), v);
    assert_eq!(d.vector(), Direction2d::from_normalized(v).vector());
    let axis = vec2(0.0, -1.0);
    assert_eq!(Direction2d::try_from_normalized(axis).unwrap().vector(), axis);
}

#[test]
fn checked_constructor_refuses_what_is_not_finite() {
    let e = Direction2d::try_from_normalized(vec2(f32::NAN, 0.0)).unwrap_err();
    assert_eq!(e, InvalidDirectionError::NotFinite);
    let e = Direction2d::try_from_normalized(vec2(0.0, f32::INFINITY)).unwrap_err();
    assert_eq!(e, InvalidDirectionError::NotFinite);
    let e = Direction2d::try_from_normalized(vec2(f32::NEG_INFINITY, f32::NAN)).unwrap_err();
    assert_eq!(e, InvalidDirectionError::NotFinite);
}

#[test]
fn checked_constructor_refuses_the_zero_vector() {
    let e = Direction2d::try_from_normalized(vec2(0.0, 0.0)).unwrap_err();
    assert_eq!(e, InvalidDirectionError::Zero);
    let e = Direction2d::try_from_normalized(vec2(-0.0, 0.0)).unwrap_err();
    assert_eq!(e, InvalidDirectionError::Zero);
}

#[test]
fn checked_constructor_refuses_other_lengths() {
    let e = Direction2d::try_from_normalized(vec2(3.0, 4.0)).unwrap_err();
    assert_eq!(e, InvalidDirectionError::NotNormalized);
    let e = Direction2d::try_from_normalized(vec2(0.5, 0.5)).unwrap_err();
    assert_eq!(e, InvalidDirectionError::NotNormalized);
    let e = Direction2d::try_from_normalized(Vec2::from_bits(0x3f80_0040, 0)).unwrap_err();
    assert_eq!(e, InvalidDirectionError::NotNormalized);
    let e = Direction2d::try_from_normalized(Vec2::from_bits(1, 0)).unwrap_err();
    assert_eq!(e, InvalidDirectionError::NotNormalized);
}

#[test]
fn vec2_is_finite_needs_both_coordinates() {
    assert!(vec2(1.0, -2.0).is_finite());
    assert!(vec2(0.0, 0.0).is_finite());
    assert!(!vec2(f32::NAN, 0.0).is_finite());
    assert!(!vec2(0.0, f32::INFINITY).is_finite());
}
