use rust_ray_trace::vector::{in_unit_ball, near_zero, TINY};

fn float_near_zero(x: f32, y: f32, z: f32) -> bool {
    let min = 1e-8;
    x.abs() < min && y.abs() < min && z.abs() < min
}

#[test]
fn tiny_is_one_hundred_millionth() {
    assert_eq!(TINY, 1e-8f32.to_bits());
}

#[test]
fn zero_vector_is_near_zero() {
    assert!(near_zero(0.0f32.to_bits(), 0.0f32.to_bits(), 0.0f32.to_bits()));
    assert!(near_zero((-0.0f32).to_bits(), 0.0f32.to_bits(), (-0.0f32).to_bits()));
}

#[test]
fn one_large_component_is_enough_not_to_be_near_zero() {
    let small = 1.0e-9f32.to_bits();
    let large = 1.0e-7f32.to_bits();
    assert!(near_zero(small, small, small));
    assert!(!near_zero(large, small, small));
    assert!(!near_zero(small, large, small));
    assert!(!near_zero(small, small, large));
}

#[test]
fn threshold_itself_is_not_near_zero() {
    let zero = 0.0f32.to_bits();
    assert!(!near_zero(TINY, zero, zero));
    assert!(near_zero(TINY - 1, zero, zero));
    assert!(!near_zero(TINY + 0x8000_0000, zero, zero));
    assert!(near_zero(TINY - 1 + 0x8000_0000, zero, zero));
}

#[test]
fn near_zero_agrees_with_the_numbers() {
    let values = [
        0.0f32, -0.0, 1.0e-45, -1.0e-45, 0.9e-8, -0.9e-8, 1.0e-8, -1.0e-8, 1.1e-8, -1.1e-8, 1.0e-3,
        1.0, -1.0, f32::INFINITY, f32::NEG_INFINITY, f32::NAN,
    ];
    for x in values {
        for y in values {
            for z in values {
                assert_eq!(
                    near_zero(x.to_bits(), y.to_bits(), z.to_bits()),
                    float_near_zero(x, y, z),
                    "{} {} {}",
                    x,
                    y,
                    z
                );
            }
        }
    }
}

#[test]
fn unit_ball_holds_squared_lengths_below_one() {
    assert!(in_unit_ball(0.0f32.to_bits()));
    assert!(in_unit_ball(0.5f32.to_bits()));
    assert!(in_unit_ball(0.99999994f32.to_bits()));
    assert!(!in_unit_ball(1.0f32.to_bits()));
    assert!(!in_unit_ball(1.0000001f32.to_bits()));
    assert!(!in_unit_ball(3.0f32.to_bits()));
    assert!(!in_unit_ball(f32::NAN.to_bits()));
}

#[test]
fn unit_ball_agrees_with_the_numbers() {
    let values = [
        0.0f32, -0.0, 1.0e-45, 0.25, 0.99999994, 1.0, 1.0000001, 2.0, 3.0, f32::INFINITY, f32::NAN,
        -1.0,
    ];
    for x in values {
        assert_eq!(in_unit_ball(x.to_bits()), x < 1.0, "{}", x);
    }
}
