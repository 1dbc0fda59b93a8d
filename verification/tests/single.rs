use tauri_runtime_cef::single::{at_least_one, scaled_offset};

fn reference(x: f32, factor: i32) -> i32 {
    (x as f64 * factor as f64).round() as i32
}

fn check(bits: u32, factor: i32) {
    assert_eq!(
        scaled_offset(bits, factor),
        reference(f32::from_bits(bits), factor),
        "bits {bits:#x} factor {factor}"
    );
}

const FACTORS: [i32; 17] = [
    1,
    2,
    3,
    4,
    7,
    255,
    65_537,
    1 << 29,
    (1 << 29) + 1,
    (1 << 30) - 1,
    1_610_612_735,
    i32::MAX - 1,
    i32::MAX,
    0,
    -1,
    -3,
    i32::MIN,
];

#[test]
fn offset_of_known_points() {
    assert_eq!(scaled_offset(12.5f32.to_bits(), 1), 13);
    assert_eq!(scaled_offset(12.5f32.to_bits(), 2), 25);
    assert_eq!(scaled_offset((-12.5f32).to_bits(), 1), -13);
    assert_eq!(scaled_offset(12.49f32.to_bits(), 1), 12);
    assert_eq!(scaled_offset(0.0f32.to_bits(), 2), 0);
    assert_eq!(scaled_offset(32.0f32.to_bits(), 2), 64);
    assert_eq!(scaled_offset(f32::NAN.to_bits(), 2), 0);
    assert_eq!(scaled_offset(f32::INFINITY.to_bits(), 2), i32::MAX);
    assert_eq!(scaled_offset(f32::NEG_INFINITY.to_bits(), 2), i32::MIN);
    assert_eq!(scaled_offset(f32::INFINITY.to_bits(), 0), 0);
    assert_eq!(scaled_offset(3.0e9f32.to_bits(), 1), i32::MAX);
    assert_eq!(scaled_offset((-2147483648.0f32).to_bits(), 1), i32::MIN);
}

#[test]
fn offset_agrees_with_double_precision_on_every_exponent() {
    for sign in [0u32, 0x8000_0000] {
        for exponent in 0..=255u32 {
            for fraction in [0u32, 1, 2, 3, 0x2a_aaaa, 0x40_0000, 0x55_5555, 0x7f_fffe, 0x7f_ffff] {
                for factor in FACTORS {
                    check(sign | exponent << 23 | fraction, factor);
                }
            }
        }
    }
}

#[test]
fn offset_agrees_with_double_precision_on_many_patterns() {
    let mut bits: u32 = 0x1234_5678;
    for i in 0..200_000u32 {
        bits = bits.wrapping_mul(1_664_525).wrapping_add(1_013_904_223);
        // Keep most exponents where the result is a small integer.
        let near = bits & 0x807f_ffff | (100 + i % 60) << 23;
        check(bits, FACTORS[i as usize % FACTORS.len()]);
        check(near, FACTORS[i as usize % FACTORS.len()]);
        check(near, (i % 5) as i32 + 1);
        check(near, (bits >> 1) as i32 | 0x2000_0000);
    }
}

#[test]
fn offset_agrees_with_double_precision_on_halves() {
    for n in -2000..2000 {
        let x = n as f32 / 8.0;
        for factor in 1..=4 {
            check(x.to_bits(), factor);
        }
    }
}

#[test]
fn at_least_one_agrees_with_max() {
    let mut bits: u32 = 99;
    for _ in 0..100_000 {
        bits = bits.wrapping_mul(1_664_525).wrapping_add(1_013_904_223);
        let wanted = f32::from_bits(bits).max(1.0);
        assert_eq!(at_least_one(bits), wanted.to_bits());
    }
    for bits in [0x3f7f_ffff, 0x3f80_0000, 0x3f80_0001, 0x7f80_0000, 0x7f80_0001, 0x8000_0000] {
        assert_eq!(at_least_one(bits), f32::from_bits(bits).max(1.0).to_bits());
    }
}

#[test]
fn raising_to_one_twice_changes_nothing() {
    for x in [0.25f32, 1.0, 1.5, -4.0, f32::NAN, f32::INFINITY] {
        let once = at_least_one(x.to_bits());
        assert!(f32::from_bits(once) >= 1.0);
        assert_eq!(at_least_one(once), once);
    }
}
