//! Scaling an opacity to an 8-bit channel.
//!
//! The opacity is a double-precision number, carried as its IEEE-754 bit
//! pattern. Its channel is the integer part of the double-precision product of
//! the number and 255. Everything here is integer arithmetic: the exact
//! product, rounded to the 53 bits of a double's significand as the
//! floating-point multiplication rounds it, then cut off towards zero.

use vstd::prelude::*;
use vstd::arithmetic::div_mod::{
    lemma_basic_div, lemma_div_is_ordered, lemma_div_is_ordered_by_denominator,
    lemma_div_multiples_vanish, lemma_div_multiples_vanish_quotient, lemma_fundamental_div_mod,
    lemma_mod_bound, lemma_multiply_divide_lt,
};
use vstd::arithmetic::power2::{
    lemma2_to64, lemma2_to64_rest, lemma_pow2_adds, lemma_pow2_pos, lemma_pow2_strictly_increases,
    lemma_pow2_unfold, pow2,
};
use vstd::bits::lemma_u64_shr_is_div;

verus! {

/// The sign bit of a double's bit pattern.
pub const SIGN_BIT: u64 = 0x8000_0000_0000_0000;

/// Two to the power 52: the weight of a normal number's implicit leading bit.
pub const HIDDEN_BIT: u64 = 0x0010_0000_0000_0000;

/// Two to the power 53: the first integer too long for a double's significand.
pub const PRECISION_LIMIT: u64 = 0x0020_0000_0000_0000;

/// The exponent field that marks infinities and NaNs.
pub const EXPONENT_SPECIAL: u64 = 0x7FF;

/// The bit pattern of the double 1.0.
pub const ONE_BITS: u64 = 0x3FF0_0000_0000_0000;

/// The eleven exponent bits of a double's bit pattern.
pub open spec fn exponent_field(bits: u64) -> nat {
    (bits as nat / HIDDEN_BIT as nat) % 0x800
}

/// The fifty-two fraction bits of a double's bit pattern.
pub open spec fn fraction_field(bits: u64) -> nat {
    bits as nat % HIDDEN_BIT as nat
}

/// Whether the sign bit is set (true of -0.0 and of negative NaNs too).
pub open spec fn sign_is_set(bits: u64) -> bool {
    bits >= SIGN_BIT
}

/// Whether the bit pattern is a NaN.
pub open spec fn is_nan(bits: u64) -> bool {
    exponent_field(bits) == EXPONENT_SPECIAL && fraction_field(bits) != 0
}

/// Whether the bit pattern is an infinity.
pub open spec fn is_infinite(bits: u64) -> bool {
    exponent_field(bits) == EXPONENT_SPECIAL && fraction_field(bits) == 0
}

/// The integer `m` in the magnitude `m * 2^e` of a finite double.
pub open spec fn significand(bits: u64) -> nat {
    if exponent_field(bits) == 0 {
        fraction_field(bits)
    } else {
        fraction_field(bits) + HIDDEN_BIT as nat
    }
}

/// The power `e` in the magnitude `m * 2^e` of a finite double.
pub open spec fn binary_exponent(bits: u64) -> int {
    if exponent_field(bits) == 0 {
        -1074
    } else {
        exponent_field(bits) - 1075
    }
}

/// Whether the bit pattern denotes a number in the closed interval from 0 to 1
/// (-0.0 counts as 0).
pub open spec fn in_unit_interval(bits: u64) -> bool {
    &&& exponent_field(bits) != EXPONENT_SPECIAL
    &&& significand(bits) == 0 || {
        &&& !sign_is_set(bits)
        &&& binary_exponent(bits) < 0
        &&& significand(bits) <= pow2((-binary_exponent(bits)) as nat)
    }
}

/// How many bits `p` has beyond the 53 of a double's significand.
pub open spec fn excess_bits(p: nat) -> nat
    decreases p,
{
    if p < PRECISION_LIMIT {
        0
    } else {
        1 + excess_bits(p / 2)
    }
}

/// `p` rounded to a multiple of `2^s`: to the nearest one, and of two equally
/// near to the even multiple.
pub open spec fn round_half_even(p: nat, s: nat) -> nat {
    let unit = pow2(s);
    let q = p / unit;
    let r = p % unit;
    if 2 * r > unit || (2 * r == unit && q % 2 == 1) {
        (q + 1) * unit
    } else {
        q * unit
    }
}

/// The integer that a double holds in place of `p`: `p` rounded to 53
/// significant bits.
pub open spec fn to_double_precision(p: nat) -> nat {
    round_half_even(p, excess_bits(p))
}

/// The integer part of `n * 2^e`.
pub open spec fn scaled_floor(n: nat, e: int) -> nat {
    if e >= 0 {
        n * pow2(e as nat)
    } else {
        n / pow2((-e) as nat)
    }
}

/// The product of a finite double's magnitude and 255 as the floating-point
/// multiplication gives it, cut off to an integer.
pub open spec fn product_floor(bits: u64) -> nat {
    scaled_floor(to_double_precision(255 * significand(bits)), binary_exponent(bits))
}

/// The 8-bit channel of an opacity: the double-precision product of the number
/// and 255, cut off towards zero and held to the range of a byte; 0 for a NaN.
pub open spec fn alpha_channel(bits: u64) -> u8 {
    if is_nan(bits) || sign_is_set(bits) {
        0
    } else if is_infinite(bits) {
        255
    } else if product_floor(bits) >= 255 {
        255
    } else {
        product_floor(bits) as u8
    }
}

/// `excess_bits(p)` is the one `s` for which `p` has exactly `53 + s` bits, or
/// fewer where `s` is 0.
pub proof fn lemma_excess_bits_is(p: nat, s: nat)
    requires
        p < PRECISION_LIMIT * pow2(s),
        s > 0 ==> p >= PRECISION_LIMIT * pow2((s - 1) as nat),
    ensures
        excess_bits(p) == s,
    decreases s,
{
    lemma2_to64();
    if s > 0 {
        let below = (s - 1) as nat;
        lemma_pow2_pos(below);
        lemma_pow2_unfold(s);
        assert(p >= 0x0020_0000_0000_0000) by (nonlinear_arith)
            requires
                p >= 0x0020_0000_0000_0000 * pow2(below),
                pow2(below) >= 1,
        ;
        if below > 0 {
            lemma_pow2_unfold(below);
        }
        lemma_excess_bits_is(p / 2, below);
    }
}

/// `p` lies below `2^(53 + excess_bits(p))`, and not below half of that where
/// it has excess bits at all.
pub proof fn lemma_excess_bits_bounds(p: nat)
    ensures
        p < PRECISION_LIMIT * pow2(excess_bits(p)),
        excess_bits(p) > 0 ==> p >= PRECISION_LIMIT * pow2((excess_bits(p) - 1) as nat),
    decreases p,
{
    lemma2_to64();
    if p >= 0x0020_0000_0000_0000 {
        let inner = excess_bits(p / 2);
        lemma_excess_bits_bounds(p / 2);
        lemma_pow2_unfold(inner + 1);
        if inner > 0 {
            lemma_pow2_unfold(inner);
        }
    }
}

/// Rounding to a multiple of `2^s` never crosses a multiple of `2^s`.
pub proof fn lemma_round_between_multiples(p: nat, s: nat, c: nat)
    ensures
        c * pow2(s) <= p ==> c * pow2(s) <= round_half_even(p, s),
        p <= c * pow2(s) ==> round_half_even(p, s) <= c * pow2(s),
{
    let unit = pow2(s);
    lemma_pow2_pos(s);
    let q = p / unit;
    let r = p % unit;
    lemma_fundamental_div_mod(p as int, unit as int);
    lemma_mod_bound(p as int, unit as int);
    if c * unit <= p {
        assert(c <= q) by (nonlinear_arith)
            requires
                c * unit <= p,
                p == unit * q + r,
                0 <= r < unit,
        ;
        assert(c * unit <= q * unit) by (nonlinear_arith)
            requires
                c <= q,
                unit > 0,
        ;
        assert(q * unit <= (q + 1) * unit) by (nonlinear_arith)
            requires
                unit > 0,
        ;
    }
    if p <= c * unit {
        assert(q <= c) by (nonlinear_arith)
            requires
                p <= c * unit,
                p == unit * q + r,
                0 <= r < unit,
        ;
        if q == c {
            assert(r == 0) by (nonlinear_arith)
                requires
                    p <= c * unit,
                    p == unit * q + r,
                    q == c,
                    0 <= r,
            ;
        } else {
            assert((q + 1) * unit <= c * unit) by (nonlinear_arith)
                requires
                    q + 1 <= c,
                    unit > 0,
            ;
            assert(q * unit <= (q + 1) * unit) by (nonlinear_arith)
                requires
                    unit > 0,
            ;
        }
    }
}

/// The rounded value is a multiple of `2^s` at most half of `2^s` away.
pub proof fn lemma_round_is_nearest(p: nat, s: nat)
    ensures
        round_half_even(p, s) % pow2(s) == 0,
        2 * (round_half_even(p, s) - p) <= pow2(s),
        2 * (p - round_half_even(p, s)) <= pow2(s),
{
    let unit = pow2(s);
    lemma_pow2_pos(s);
    let q = p / unit;
    let r = p % unit;
    lemma_fundamental_div_mod(p as int, unit as int);
    lemma_mod_bound(p as int, unit as int);
    vstd::arithmetic::div_mod::lemma_mod_multiples_basic(q as int, unit as int);
    vstd::arithmetic::div_mod::lemma_mod_multiples_basic((q + 1) as int, unit as int);
    assert((q + 1) * unit == unit * q + unit) by (nonlinear_arith);
    assert(q * unit == unit * q) by (nonlinear_arith);
}

/// An integer of at most 53 bits is held exactly.
pub proof fn lemma_short_is_exact(p: nat)
    requires
        p < PRECISION_LIMIT,
    ensures
        to_double_precision(p) == p,
{
    lemma2_to64();
    assert(p / 1 == p && p % 1 == 0);
    assert(p * 1 == p);
}

/// The numbers in [0, 1] are the bit patterns up to that of 1.0, and -0.0.
pub proof fn lemma_unit_interval_bits(bits: u64)
    ensures
        in_unit_interval(bits) <==> bits <= ONE_BITS || bits == SIGN_BIT,
{
    lemma2_to64();
    lemma2_to64_rest();
    let x = exponent_field(bits);
    let f = fraction_field(bits);
    if !sign_is_set(bits) && x != 0x7FF {
        assert(bits == x * 0x0010_0000_0000_0000 + f);
        if x == 0 {
            lemma_pow2_strictly_increases(52, 1074);
        } else if x <= 1022 {
            if x < 1022 {
                lemma_pow2_strictly_increases(53, (1075 - x) as nat);
            }
        } else if 1024 <= x <= 1074 {
            if x > 1024 {
                lemma_pow2_strictly_increases((1075 - x) as nat, 51);
            }
        }
    }
}

/// A significand's product with 255 has at most eight excess bits.
proof fn lemma_product_excess(m: nat)
    requires
        m < PRECISION_LIMIT,
    ensures
        excess_bits(255 * m) <= 8,
{
    let p = 255 * m;
    let s = excess_bits(p);
    lemma2_to64();
    lemma_excess_bits_bounds(p);
    if s > 8 {
        if s > 9 {
            lemma_pow2_strictly_increases(8, (s - 1) as nat);
        }
        assert(0x0020_0000_0000_0000 * pow2((s - 1) as nat) >= 0x0020_0000_0000_0000 * 0x100)
            by (nonlinear_arith)
            requires
                pow2((s - 1) as nat) >= 0x100,
        ;
    }
}

/// For a number in [0, 1] the channel is the integer part of the
/// double-precision product of the number and 255. That is the integer part of
/// 255 times the number itself, or one more where the product is rounded up to
/// the next integer; it is the former wherever the product has at most 53
/// bits, so that no rounding takes place. The channel of 1.0 is 255 and that
/// of 0.0 is 0.
pub proof fn lemma_alpha_channel_of_unit_interval(bits: u64)
    ensures
        in_unit_interval(bits) ==> alpha_channel(bits) == to_double_precision(
            255 * significand(bits),
        ) / pow2((-binary_exponent(bits)) as nat),
        in_unit_interval(bits) ==> (255 * significand(bits)) / pow2(
            (-binary_exponent(bits)) as nat,
        ) <= alpha_channel(bits) <= (255 * significand(bits)) / pow2(
            (-binary_exponent(bits)) as nat,
        ) + 1,
        in_unit_interval(bits) && 255 * significand(bits) < PRECISION_LIMIT
            ==> alpha_channel(bits) == (255 * significand(bits)) / pow2(
            (-binary_exponent(bits)) as nat,
        ),
        alpha_channel(ONE_BITS) == 255,
        alpha_channel(0) == 0,
{
    lemma2_to64();
    lemma2_to64_rest();
    assert(alpha_channel(0) == 0) by {
        lemma_pow2_pos(1074);
        lemma_short_is_exact(0);
    }
    assert(alpha_channel(ONE_BITS) == 255) by {
        let p: nat = 255 * 0x0010_0000_0000_0000;
        lemma_excess_bits_is(p, 7);
        lemma_round_between_multiples(p, 7, 255 * 0x0000_2000_0000_0000);
        assert(to_double_precision(p) == p);
        lemma_div_multiples_vanish(255, 0x0010_0000_0000_0000);
    }
    if in_unit_interval(bits) {
        let m = significand(bits);
        let k = (-binary_exponent(bits)) as nat;
        let p = 255 * m;
        let s = excess_bits(p);
        lemma_pow2_pos(k);
        if 255 * m < 0x0020_0000_0000_0000 {
            lemma_short_is_exact(p);
        }
        if m == 0 {
            lemma_short_is_exact(0);
        } else {
            // The product is at most 255 * 2^k, a multiple of 2^s, so the
            // rounded product is too, and the channel needs no cutting down.
            lemma_product_excess(m);
            let rest = (k - s) as nat;
            lemma_pow2_adds(rest, s);
            let c = 255 * pow2(rest);
            assert(c * pow2(s) == 255 * pow2(k)) by (nonlinear_arith)
                requires
                    c == 255 * pow2(rest),
                    pow2(k) == pow2(rest) * pow2(s),
            ;
            assert(p <= 255 * pow2(k)) by (nonlinear_arith)
                requires
                    p == 255 * m,
                    m <= pow2(k),
            ;
            lemma_round_between_multiples(p, s, c);
            lemma_div_is_ordered(
                to_double_precision(p) as int,
                255 * pow2(k) as int,
                pow2(k) as int,
            );
            lemma_div_multiples_vanish(255, pow2(k) as int);
            // The exact quotient and its successor, times 2^k, are multiples
            // of 2^s on either side of the product.
            let exact = p / pow2(k);
            let rounded = to_double_precision(p);
            lemma_fundamental_div_mod(p as int, pow2(k) as int);
            lemma_mod_bound(p as int, pow2(k) as int);
            let low = exact * pow2(rest);
            let high = (exact + 1) * pow2(rest);
            assert(low * pow2(s) == exact * pow2(k) && high * pow2(s) == (exact + 1) * pow2(k))
                by (nonlinear_arith)
                requires
                    low == exact * pow2(rest),
                    high == (exact + 1) * pow2(rest),
                    pow2(k) == pow2(rest) * pow2(s),
            ;
            assert(exact * pow2(k) <= p <= (exact + 1) * pow2(k)) by (nonlinear_arith)
                requires
                    p == pow2(k) * exact + p % pow2(k),
                    0 <= p % pow2(k) < pow2(k),
            ;
            lemma_round_between_multiples(p, s, low);
            lemma_round_between_multiples(p, s, high);
            lemma_div_is_ordered(exact * pow2(k) as int, rounded as int, pow2(k) as int);
            lemma_div_is_ordered(rounded as int, (exact + 1) * pow2(k) as int, pow2(k) as int);
            lemma_div_multiples_vanish(exact as int, pow2(k) as int);
            lemma_div_multiples_vanish((exact + 1) as int, pow2(k) as int);
            assert(exact * pow2(k) == pow2(k) * exact && (exact + 1) * pow2(k) == pow2(k) * (exact
                + 1)) by (nonlinear_arith);
        }
    }
}

/// A finite number from 1.0 up has the channel 255.
pub proof fn lemma_alpha_channel_from_one(bits: u64)
    requires
        !sign_is_set(bits),
        1023 <= exponent_field(bits) < EXPONENT_SPECIAL,
    ensures
        alpha_channel(bits) == 255,
{
    lemma2_to64();
    lemma2_to64_rest();
    let m = significand(bits);
    let e = binary_exponent(bits);
    let p = 255 * m;
    let s = excess_bits(p);
    lemma_product_excess(m);
    // 255 * 2^52 is a multiple of 2^s that the product does not lie below.
    let rest = (52 - s) as nat;
    lemma_pow2_adds(rest, s);
    let c = 255 * pow2(rest);
    assert(c * pow2(s) == 255 * pow2(52)) by (nonlinear_arith)
        requires
            c == 255 * pow2(rest),
            pow2(52) == pow2(rest) * pow2(s),
    ;
    lemma_round_between_multiples(p, s, c);
    let rounded = to_double_precision(p);
    assert(rounded >= 255 * 0x0010_0000_0000_0000);
    if e >= 0 {
        lemma_pow2_pos(e as nat);
        assert(rounded * pow2(e as nat) >= 255) by (nonlinear_arith)
            requires
                rounded >= 255,
                pow2(e as nat) >= 1,
        ;
    } else {
        let k = (-e) as nat;
        lemma_pow2_pos(k);
        if k < 52 {
            lemma_pow2_strictly_increases(k, 52);
        }
        lemma_div_is_ordered_by_denominator(rounded as int, pow2(k) as int, pow2(52) as int);
        lemma_div_is_ordered(
            255 * 0x0010_0000_0000_0000int,
            rounded as int,
            0x0010_0000_0000_0000,
        );
        lemma_div_multiples_vanish(255, 0x0010_0000_0000_0000);
    }
}

/// Scales an opacity, given as the bit pattern of a double, to an 8-bit channel.
///
/// For a number in [0, 1] the result is the integer part of the
/// double-precision product of the number and 255.
pub fn alpha_to_channel(bits: u64) -> (a: u8)
    ensures
        a == alpha_channel(bits),
        in_unit_interval(bits) ==> a == to_double_precision(255 * significand(bits)) / pow2(
            (-binary_exponent(bits)) as nat,
        ),
        bits == ONE_BITS ==> a == 255,
        bits == 0 ==> a == 0,
{
    let exponent: u64 = (bits >> 52) & 0x7FF;
    let fraction: u64 = bits & 0x000F_FFFF_FFFF_FFFF;
    proof {
        assert(bits >> 52 == bits / 0x0010_0000_0000_0000) by (bit_vector);
        assert((bits >> 52) & 0x7FF == (bits >> 52) % 0x800) by (bit_vector);
        assert(bits & 0x000F_FFFF_FFFF_FFFF == bits % 0x0010_0000_0000_0000) by (bit_vector);
        assert(exponent == exponent_field(bits));
        assert(fraction == fraction_field(bits));
        lemma_alpha_channel_of_unit_interval(bits);
        lemma2_to64();
        lemma2_to64_rest();
    }
    if bits >= SIGN_BIT {
        return 0;
    }
    if exponent == EXPONENT_SPECIAL {
        return if fraction == 0 {
            255
        } else {
            0
        };
    }
    if exponent >= 1023 {
        proof {
            lemma_alpha_channel_from_one(bits);
        }
        return 255;
    }
    let m: u64 = if exponent == 0 {
        fraction
    } else {
        fraction + HIDDEN_BIT
    };
    let k: u64 = if exponent == 0 {
        1074
    } else {
        1075 - exponent
    };
    let p: u64 = 255 * m;
    // The excess bits of the product, and the unit that it is rounded to.
    let mut s: u64 = 0;
    let mut unit: u64 = 1;
    while p >= PRECISION_LIMIT * unit
        invariant
            p < 0x2000_0000_0000_0000,
            s <= 8,
            unit == pow2(s as nat),
            unit <= 0x100,
            s > 0 ==> p >= 0x0020_0000_0000_0000 * pow2((s - 1) as nat),
        decreases 8 - s,
    {
        proof {
            lemma2_to64();
            lemma_pow2_unfold((s + 1) as nat);
            if s + 1 < 8 {
                lemma_pow2_strictly_increases((s + 1) as nat, 8);
            }
        }
        unit = unit * 2;
        s = s + 1;
    }
    let q: u64 = p / unit;
    let r: u64 = p % unit;
    let rounded: u64 = if 2 * r > unit || (2 * r == unit && q % 2 == 1) {
        q + 1
    } else {
        q
    };
    let shift: u64 = k - s;
    proof {
        lemma_excess_bits_is(p as nat, s as nat);
        lemma_multiply_divide_lt(p as int, unit as int, 0x0020_0000_0000_0000);
        assert(to_double_precision(p as nat) == rounded * unit);
        // Dividing the rounded product by 2^k is dividing `rounded` by 2^shift.
        lemma_pow2_adds(s as nat, shift as nat);
        lemma_pow2_pos(shift as nat);
        lemma_div_multiples_vanish_quotient(
            unit as int,
            rounded as int,
            pow2(shift as nat) as int,
        );
        assert(rounded * unit == unit * rounded) by (nonlinear_arith);
        assert(product_floor(bits) == rounded as nat / pow2(shift as nat));
    }
    if shift >= 64 {
        proof {
            if shift > 64 {
                lemma_pow2_strictly_increases(64, shift as nat);
            }
            lemma_basic_div(rounded as int, pow2(shift as nat) as int);
        }
        return 0;
    }
    let scaled: u64 = rounded >> shift;
    proof {
        lemma_u64_shr_is_div(rounded, shift);
    }
    if scaled >= 255 {
        255
    } else {
        scaled as u8
    }
}

} // verus!
