use rust_ray_trace::bits::{at_most_one, below, below_zero, rank, INFINITY, ONE};

fn sample_numbers() -> Vec<f32> {
    vec![
        f32::NEG_INFINITY,
        f32::MIN,
        -1.0e9,
        -2.5,
        -1.0,
        -0.999,
        -1.0e-9,
        -f32::MIN_POSITIVE,
        -1.0e-45,
        -0.0,
        0.0,
        1.0e-45,
        f32::MIN_POSITIVE,
        1.0e-8,
        0.001,
        0.5,
        0.999,
        1.0,
        1.0000001,
        1.5,
        256.0,
        1.0e9,
        f32::MAX,
        f32::INFINITY,
    ]
}

fn rank_of(t: f32) -> i64 {
    rank(t.to_bits()).expect("a number")
}

#[test]
fn constants_are_the_bits_of_their_numbers() {
    assert_eq!(ONE, 1.0f32.to_bits());
    assert_eq!(INFINITY, f32::INFINITY.to_bits());
}

#[test]
fn ranks_are_ordered_as_the_numbers_are() {
    let values = sample_numbers();
    for x in &values {
        for y in &values {
            assert_eq!(rank_of(*x) < rank_of(*y), x < y, "{} {}", x, y);
            assert_eq!(rank_of(*x) == rank_of(*y), x == y, "{} {}", x, y);
        }
    }
}

#[test]
fn ranks_of_neighbours_are_neighbours() {
    let mut bits = 0u32;
    while bits < 0x7f80_0000 {
        let here = f32::from_bits(bits);
        let next = f32::from_bits(bits + 1);
        assert!(here < next);
        assert_eq!(rank(bits + 1), rank(bits).map(|r| r + 1));
        assert_eq!(rank(bits + 1 + 0x8000_0000), rank(bits + 0x8000_0000).map(|r| r - 1));
        bits += 0x0003_fff1;
    }
}

#[test]
fn both_zeros_have_rank_zero() {
    assert_eq!(rank(0.0f32.to_bits()), Some(0));
    assert_eq!(rank((-0.0f32).to_bits()), Some(0));
}

#[test]
fn rank_is_read_off_the_bits() {
    assert_eq!(rank(0x0000_0001), Some(1));
    assert_eq!(rank(0x8000_0001), Some(-1));
    assert_eq!(rank(0x3f80_0000), Some(0x3f80_0000));
    assert_eq!(rank(0xbf80_0000), Some(-0x3f80_0000));
    assert_eq!(rank(0x7f80_0000), Some(0x7f80_0000));
    assert_eq!(rank(0xff80_0000), Some(-0x7f80_0000));
}

#[test]
fn nan_has_no_rank() {
    assert_eq!(rank(f32::NAN.to_bits()), None);
    assert_eq!(rank((-f32::NAN).to_bits()), None);
    assert_eq!(rank(0x7f80_0001), None);
    assert_eq!(rank(0xff80_0001), None);
    assert_eq!(rank(0x7fff_ffff), None);
    assert_eq!(rank(0xffff_ffff), None);
    assert_eq!(rank((0.0f32 / 0.0).to_bits()), None);
}

#[test]
fn below_is_the_order_of_the_numbers() {
    let mut values = sample_numbers();
    values.push(f32::NAN);
    values.push(-f32::NAN);
    for x in &values {
        for y in &values {
            assert_eq!(below(x.to_bits(), y.to_bits()), x < y, "{} {}", x, y);
        }
    }
}

#[test]
fn nothing_is_below_nan_and_nan_is_below_nothing() {
    let nan = f32::NAN.to_bits();
    for x in sample_numbers() {
        assert!(!below(x.to_bits(), nan));
        assert!(!below(nan, x.to_bits()));
    }
    assert!(!below(nan, nan));
}

#[test]
fn below_zero_is_the_sign_of_the_number() {
    let mut values = sample_numbers();
    values.push(f32::NAN);
    values.push(-f32::NAN);
    for x in values {
        assert_eq!(below_zero(x.to_bits()), x < 0.0, "{}", x);
    }
}

#[test]
fn neither_zero_is_below_zero() {
    assert!(!below_zero(0.0f32.to_bits()));
    assert!(!below_zero((-0.0f32).to_bits()));
    assert!(below_zero((-1.0e-45f32).to_bits()));
    assert!(below_zero(f32::NEG_INFINITY.to_bits()));
    assert!(!below_zero(0xff80_0001));
}

#[test]
fn at_most_one_keeps_what_is_below_one() {
    assert_eq!(at_most_one(0.25f32.to_bits()), 0.25f32.to_bits());
    assert_eq!(at_most_one((-3.0f32).to_bits()), (-3.0f32).to_bits());
    assert_eq!(at_most_one((-0.0f32).to_bits()), (-0.0f32).to_bits());
    assert_eq!(at_most_one(f32::NEG_INFINITY.to_bits()), f32::NEG_INFINITY.to_bits());
}

#[test]
fn at_most_one_holds_the_rest_at_one() {
    assert_eq!(at_most_one(1.0f32.to_bits()), ONE);
    assert_eq!(at_most_one(1.0000001f32.to_bits()), ONE);
    assert_eq!(at_most_one(f32::INFINITY.to_bits()), ONE);
    assert_eq!(at_most_one(f32::NAN.to_bits()), ONE);
}

#[test]
fn at_most_one_is_the_smaller_of_the_number_and_one() {
    let mut values = sample_numbers();
    values.push(f32::NAN);
    for x in values {
        assert_eq!(at_most_one(x.to_bits()), x.min(1.0).to_bits(), "{}", x);
    }
}
