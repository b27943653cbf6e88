use plotters_skia::alpha::{alpha_to_channel, ONE_BITS, SIGN_BIT};

fn by_floating_point(alpha: f64) -> u8 {
    (alpha * 255.0) as u8
}

#[test]
fn fully_opaque_is_255() {
    assert_eq!(alpha_to_channel(1.0f64.to_bits()), 255);
    assert_eq!(alpha_to_channel(ONE_BITS), 255);
}

#[test]
fn fully_transparent_is_0() {
    assert_eq!(alpha_to_channel(0.0f64.to_bits()), 0);
    assert_eq!(alpha_to_channel(0), 0);
}

#[test]
fn negative_zero_is_0() {
    assert_eq!(alpha_to_channel((-0.0f64).to_bits()), 0);
    assert_eq!(alpha_to_channel(SIGN_BIT), 0);
}

#[test]
fn one_is_the_bit_pattern_of_one() {
    assert_eq!(ONE_BITS, 1.0f64.to_bits());
}

#[test]
fn the_product_is_cut_off_not_rounded() {
    // 0.5 * 255 = 127.5
    assert_eq!(alpha_to_channel(0.5f64.to_bits()), 127);
    // 0.75 * 255 = 191.25
    assert_eq!(alpha_to_channel(0.75f64.to_bits()), 191);
    // 0.999 * 255 = 254.745
    assert_eq!(alpha_to_channel(0.999f64.to_bits()), 254);
    // 0.3 * 255 = 76.5 less a little
    assert_eq!(alpha_to_channel(0.3f64.to_bits()), 76);
}

#[test]
fn the_product_is_the_double_precision_one() {
    // The double nearest to 0.6 lies below 0.6, but its product with 255 is
    // nearest to the double 153.
    assert_eq!(alpha_to_channel(0.6f64.to_bits()), 153);
    assert_eq!(alpha_to_channel((1.0f64 / 255.0).to_bits()), 1);
    assert_eq!(alpha_to_channel(0.2f64.to_bits()), 51);
}

#[test]
fn just_below_one_is_254() {
    let below: f64 = f64::from_bits(ONE_BITS - 1);
    assert!(below < 1.0);
    assert_eq!(alpha_to_channel(below.to_bits()), 254);
}

#[test]
fn thousandths_agree_with_floating_point() {
    let mut i: u32 = 0;
    while i <= 1000 {
        let alpha: f64 = f64::from(i) / 1000.0;
        assert_eq!(alpha_to_channel(alpha.to_bits()), by_floating_point(alpha), "alpha {}", alpha);
        i += 1;
    }
}

#[test]
fn byte_fractions_agree_with_floating_point() {
    let mut i: u32 = 0;
    while i <= 255 {
        let alpha: f64 = f64::from(i) / 255.0;
        assert_eq!(alpha_to_channel(alpha.to_bits()), by_floating_point(alpha), "alpha {}", alpha);
        i += 1;
    }
}

#[test]
fn scattered_bit_patterns_agree_with_floating_point() {
    // A fixed linear congruential sequence over all bit patterns.
    let mut bits: u64 = 0x9E37_79B9_7F4A_7C15;
    let mut n: u32 = 0;
    while n < 200_000 {
        bits = bits.wrapping_mul(6364136223846793005).wrapping_add(1442695040888963407);
        let alpha: f64 = f64::from_bits(bits);
        assert_eq!(alpha_to_channel(bits), by_floating_point(alpha), "bits {:#x}", bits);
        n += 1;
    }
}

#[test]
fn scattered_unit_interval_agrees_with_floating_point() {
    let mut state: u64 = 0x0123_4567_89AB_CDEF;
    let mut n: u32 = 0;
    while n < 200_000 {
        state = state.wrapping_mul(6364136223846793005).wrapping_add(1442695040888963407);
        // Bit patterns from that of 0.0 up to that of 1.0.
        let bits: u64 = state % (ONE_BITS + 1);
        let alpha: f64 = f64::from_bits(bits);
        assert!((0.0..=1.0).contains(&alpha));
        assert_eq!(alpha_to_channel(bits), by_floating_point(alpha), "bits {:#x}", bits);
        n += 1;
    }
}

#[test]
fn near_one_agrees_with_floating_point() {
    // The bit patterns around those of 0.5, 1.0 and 2.0 and of k / 255.
    let mut k: u32 = 0;
    while k <= 510 {
        let centre: u64 = (f64::from(k) / 255.0).to_bits();
        let mut d: u64 = 0;
        while d <= 64 {
            let up: u64 = centre + d;
            assert_eq!(alpha_to_channel(up), by_floating_point(f64::from_bits(up)), "bits {:#x}", up);
            if centre >= d {
                let down: u64 = centre - d;
                assert_eq!(
                    alpha_to_channel(down),
                    by_floating_point(f64::from_bits(down)),
                    "bits {:#x}",
                    down
                );
            }
            d += 1;
        }
        k += 1;
    }
}

#[test]
fn not_a_number_is_0() {
    assert_eq!(alpha_to_channel(f64::NAN.to_bits()), 0);
    assert_eq!(alpha_to_channel(0x7FF0_0000_0000_0001), 0);
    assert_eq!(alpha_to_channel(0x7FFF_FFFF_FFFF_FFFF), 0);
    assert_eq!(alpha_to_channel(0xFFF8_0000_0000_0000), 0);
}

#[test]
fn infinities_are_held_to_a_byte() {
    assert_eq!(alpha_to_channel(f64::INFINITY.to_bits()), 255);
    assert_eq!(alpha_to_channel(f64::NEG_INFINITY.to_bits()), 0);
}

#[test]
fn out_of_range_is_held_to_a_byte() {
    assert_eq!(alpha_to_channel(1.5f64.to_bits()), 255);
    assert_eq!(alpha_to_channel(2.0f64.to_bits()), 255);
    assert_eq!(alpha_to_channel(1.0e300f64.to_bits()), 255);
    assert_eq!(alpha_to_channel(f64::MAX.to_bits()), 255);
    assert_eq!(alpha_to_channel((-0.5f64).to_bits()), 0);
    assert_eq!(alpha_to_channel((-1.0e300f64).to_bits()), 0);
}

#[test]
fn tiny_numbers_are_0() {
    assert_eq!(alpha_to_channel(f64::MIN_POSITIVE.to_bits()), 0);
    assert_eq!(alpha_to_channel(1), 0);
    assert_eq!(alpha_to_channel(0x000F_FFFF_FFFF_FFFF), 0);
    assert_eq!(alpha_to_channel(1.0e-300f64.to_bits()), 0);
    // 1 / 256 * 255 is just below 1.
    assert_eq!(alpha_to_channel((1.0f64 / 256.0).to_bits()), 0);
}

/// The integer part of 255 times the number, in exact integer arithmetic, for
/// a bit pattern from that of 0.0 up to that of 1.0.
fn exact_floor(bits: u64) -> u128 {
    let exponent: u64 = (bits >> 52) & 0x7FF;
    let fraction: u64 = bits & 0x000F_FFFF_FFFF_FFFF;
    let significand: u128 = if exponent == 0 {
        u128::from(fraction)
    } else {
        u128::from(fraction) + (1u128 << 52)
    };
    let shift: u64 = if exponent == 0 { 1074 } else { 1075 - exponent };
    if shift >= 128 {
        0
    } else {
        (255 * significand) >> shift
    }
}

#[test]
fn channel_is_the_exact_floor_or_one_more() {
    let mut state: u64 = 0xFEDC_BA98_7654_3210;
    let mut above: u32 = 0;
    let mut n: u32 = 0;
    while n < 200_000 {
        state = state.wrapping_mul(6364136223846793005).wrapping_add(1442695040888963407);
        let bits: u64 = state % (ONE_BITS + 1);
        let channel: u128 = u128::from(alpha_to_channel(bits));
        let exact: u128 = exact_floor(bits);
        assert!(channel == exact || channel == exact + 1, "bits {:#x}", bits);
        if channel != exact {
            above += 1;
        }
        n += 1;
    }
    // Rounding up to the next integer is rare.
    assert!(above < 10);
}

#[test]
fn short_products_are_exact() {
    // Numbers of few significant bits: k / 2^20.
    let mut k: u32 = 0;
    while k <= (1 << 20) {
        let alpha: f64 = f64::from(k) / 1048576.0;
        let bits: u64 = alpha.to_bits();
        assert_eq!(u128::from(alpha_to_channel(bits)), exact_floor(bits));
        assert_eq!(u32::from(alpha_to_channel(bits)), 255 * k / (1 << 20));
        k += 997;
    }
}

#[test]
fn rounded_product_can_be_one_above_the_exact_floor() {
    // The double nearest to 0.6 is a little less than 0.6.
    let bits: u64 = 0.6f64.to_bits();
    assert_eq!(exact_floor(bits), 152);
    assert_eq!(alpha_to_channel(bits), 153);
}
