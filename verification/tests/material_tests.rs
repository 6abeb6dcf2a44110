use rust_ray_trace::integrator::Bounce;
use rust_ray_trace::material::{
    clamp_fuzz, dielectric_turn, reflectance_wins, scatter_outcome, total_internal_reflection,
    Surface, Turn,
};

fn samples() -> Vec<f32> {
    vec![
        f32::NEG_INFINITY, -2.0, -1.0, -0.5, -1.0e-45, -0.0, 0.0, 1.0e-45, 0.25, 0.5, 0.99999994,
        1.0, 1.0000001, 1.5, 2.0, f32::INFINITY, f32::NAN,
    ]
}

#[test]
fn total_internal_reflection_always_reflects() {
    assert_eq!(dielectric_turn(true, false), Turn::Reflect);
    assert_eq!(dielectric_turn(true, true), Turn::Reflect);
}

#[test]
fn reflectance_decides_when_refraction_is_possible() {
    assert_eq!(dielectric_turn(false, true), Turn::Reflect);
    assert_eq!(dielectric_turn(false, false), Turn::Refract);
}

#[test]
fn product_above_one_is_total_internal_reflection() {
    assert!(total_internal_reflection(1.0000001f32.to_bits()));
    assert!(total_internal_reflection(1.5f32.to_bits()));
    assert!(total_internal_reflection(f32::INFINITY.to_bits()));
    assert!(!total_internal_reflection(1.0f32.to_bits()));
    assert!(!total_internal_reflection(0.67f32.to_bits()));
    assert!(!total_internal_reflection(0.0f32.to_bits()));
    assert!(!total_internal_reflection(f32::NAN.to_bits()));
}

#[test]
fn glass_seen_at_a_grazing_angle_from_inside_reflects() {
    let refraction_ratio = 1.5f32;
    let sin_theta = 0.9f32;
    let product = refraction_ratio * sin_theta;
    assert!(product > 1.0);
    let total = total_internal_reflection(product.to_bits());
    for draw in samples() {
        let wins = reflectance_wins(0.04f32.to_bits(), draw.to_bits());
        assert_eq!(dielectric_turn(total, wins), Turn::Reflect);
    }
}

#[test]
fn total_internal_reflection_agrees_with_the_numbers() {
    for product in samples() {
        assert_eq!(total_internal_reflection(product.to_bits()), product > 1.0, "{}", product);
    }
}

#[test]
fn reflectance_wins_agrees_with_the_numbers() {
    for reflectance in samples() {
        for draw in samples() {
            assert_eq!(
                reflectance_wins(reflectance.to_bits(), draw.to_bits()),
                reflectance > draw,
                "{} {}",
                reflectance,
                draw
            );
        }
    }
}

#[test]
fn dielectric_decision_agrees_with_the_numbers() {
    for product in samples() {
        for reflectance in [0.0f32, 0.04, 0.5, 1.0] {
            for draw in [0.0f32, 0.03, 0.04, 0.05, 0.99999994] {
                let turn = dielectric_turn(
                    total_internal_reflection(product.to_bits()),
                    reflectance_wins(reflectance.to_bits(), draw.to_bits()),
                );
                let expected = if product > 1.0 || reflectance > draw {
                    Turn::Reflect
                } else {
                    Turn::Refract
                };
                assert_eq!(turn, expected, "{} {} {}", product, reflectance, draw);
            }
        }
    }
}

#[test]
fn lambertian_always_scatters() {
    for alignment in samples() {
        assert_eq!(scatter_outcome(Surface::Lambertian, alignment.to_bits()), Bounce::Scattered);
    }
}

#[test]
fn dielectric_always_scatters() {
    for alignment in samples() {
        assert_eq!(scatter_outcome(Surface::Dielectric, alignment.to_bits()), Bounce::Scattered);
    }
}

#[test]
fn metal_absorbs_a_ray_that_would_enter_the_surface() {
    assert_eq!(scatter_outcome(Surface::Metal, 0.3f32.to_bits()), Bounce::Scattered);
    assert_eq!(scatter_outcome(Surface::Metal, 1.0e-45f32.to_bits()), Bounce::Scattered);
    assert_eq!(scatter_outcome(Surface::Metal, 0.0f32.to_bits()), Bounce::Absorbed);
    assert_eq!(scatter_outcome(Surface::Metal, (-0.0f32).to_bits()), Bounce::Absorbed);
    assert_eq!(scatter_outcome(Surface::Metal, (-0.3f32).to_bits()), Bounce::Absorbed);
    assert_eq!(scatter_outcome(Surface::Metal, f32::NAN.to_bits()), Bounce::Absorbed);
}

#[test]
fn metal_agrees_with_the_numbers() {
    for alignment in samples() {
        let expected = if alignment > 0.0 { Bounce::Scattered } else { Bounce::Absorbed };
        assert_eq!(scatter_outcome(Surface::Metal, alignment.to_bits()), expected, "{}", alignment);
    }
}

#[test]
fn fuzz_is_held_at_one() {
    assert_eq!(clamp_fuzz(0.3f32.to_bits()), 0.3f32.to_bits());
    assert_eq!(clamp_fuzz(0.0f32.to_bits()), 0.0f32.to_bits());
    assert_eq!(clamp_fuzz(1.0f32.to_bits()), 1.0f32.to_bits());
    assert_eq!(clamp_fuzz(1.5f32.to_bits()), 1.0f32.to_bits());
    assert_eq!(clamp_fuzz(2.0f32.to_bits()), 1.0f32.to_bits());
    assert_eq!(clamp_fuzz(f32::INFINITY.to_bits()), 1.0f32.to_bits());
    assert_eq!(clamp_fuzz(f32::NAN.to_bits()), 1.0f32.to_bits());
}

#[test]
fn fuzz_below_zero_is_held_at_zero() {
    assert_eq!(clamp_fuzz((-0.5f32).to_bits()), 0.0f32.to_bits());
    assert_eq!(clamp_fuzz((-1.0e-45f32).to_bits()), 0.0f32.to_bits());
    assert_eq!(clamp_fuzz((-2.0f32).to_bits()), 0.0f32.to_bits());
    assert_eq!(clamp_fuzz(f32::NEG_INFINITY.to_bits()), 0.0f32.to_bits());
}

#[test]
fn fuzz_in_range_is_stored_unchanged() {
    for fuzz in [0.0f32, 1.0e-45, 0.25, 0.5, 0.99999994, 1.0] {
        assert_eq!(clamp_fuzz(fuzz.to_bits()), fuzz.to_bits(), "{}", fuzz);
    }
}

#[test]
fn fuzz_agrees_with_the_numbers() {
    for fuzz in samples() {
        let expected: f32 = if fuzz < 0.0 {
            0.0
        } else if fuzz < 1.0 {
            fuzz
        } else {
            1.0
        };
        assert_eq!(clamp_fuzz(fuzz.to_bits()), expected.to_bits(), "{}", fuzz);
        if !fuzz.is_nan() {
            assert_eq!(clamp_fuzz(fuzz.to_bits()), fuzz.clamp(0.0, 1.0).to_bits(), "{}", fuzz);
        }
    }
}
