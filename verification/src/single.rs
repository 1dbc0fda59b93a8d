//! Arithmetic on single-precision numbers held as their bit patterns.

use vstd::arithmetic::power2;
use vstd::prelude::*;

verus! {

/// Bit pattern of the number `1.0`.
pub const ONE_BITS: u32 = 0x3f80_0000;

/// Bit pattern of positive infinity.
pub const INFINITY_BITS: u32 = 0x7f80_0000;

/// Whether the sign bit is set.
pub open spec fn is_negative(bits: u32) -> bool {
    bits >= 0x8000_0000
}

/// The eight exponent bits.
pub open spec fn exponent_field(bits: u32) -> int {
    (bits as int / 0x80_0000) % 0x100
}

/// The 23 fraction bits.
pub open spec fn fraction_field(bits: u32) -> int {
    bits as int % 0x80_0000
}

/// The integer which, times two to the power `exponent(bits)`, is the magnitude
/// of a finite number.
pub open spec fn significand(bits: u32) -> int {
    if exponent_field(bits) == 0 {
        fraction_field(bits)
    } else {
        0x80_0000 + fraction_field(bits)
    }
}

/// The power of two that the significand of a finite number counts.
pub open spec fn exponent(bits: u32) -> int {
    (if exponent_field(bits) == 0 {
        1
    } else {
        exponent_field(bits)
    }) - 150
}

/// The multiple of `unit` nearest to `n`, the one with the even quotient on a tie.
pub open spec fn nearest_multiple(n: int, unit: int) -> int {
    let quotient = n / unit;
    let rest = n % unit;
    if 2 * rest < unit || (2 * rest == unit && quotient % 2 == 0) {
        quotient * unit
    } else {
        (quotient + 1) * unit
    }
}

/// A natural number below two to the 55th as a double-precision number holds it:
/// its 53 leading bits, rounded.
pub open spec fn as_double(n: int) -> int {
    if n < 0x20_0000_0000_0000 {
        n
    } else if n < 0x40_0000_0000_0000 {
        nearest_multiple(n, 2)
    } else {
        nearest_multiple(n, 4)
    }
}

/// `n` times two to the power `power`, rounded to an integer, halves upwards.
pub open spec fn rounded(n: int, power: int) -> int {
    if power >= 0 {
        n * power2::pow2(power as nat)
    } else {
        (2 * n + power2::pow2((-power) as nat)) / (2 * power2::pow2((-power) as nat)) as int
    }
}

/// The value of type `i32` closest to `n`.
pub open spec fn held_in_i32(n: int) -> int {
    if n < i32::MIN {
        i32::MIN as int
    } else if n > i32::MAX {
        i32::MAX as int
    } else {
        n
    }
}

/// The magnitude of an integer.
pub open spec fn magnitude(n: int) -> int {
    if n < 0 {
        -n
    } else {
        n
    }
}

/// The number `x` with pattern `bits`, times `factor` in double precision,
/// rounded half away from zero and held in the range of `i32`; zero where the
/// product is not a number.
pub open spec fn scaled_offset_spec(bits: u32, factor: int) -> int {
    let negative = is_negative(bits) != (factor < 0);
    if exponent_field(bits) == 0xff {
        if fraction_field(bits) != 0 || factor == 0 {
            0
        } else if negative {
            i32::MIN as int
        } else {
            i32::MAX as int
        }
    } else {
        let size = rounded(as_double(significand(bits) * magnitude(factor)), exponent(bits));
        held_in_i32(
            if negative {
                -size
            } else {
                size
            },
        )
    }
}

/// The pattern is that of a number greater than one: infinity, or a significand
/// and a power of two whose product is greater.
pub open spec fn above_one(bits: u32) -> bool {
    &&& !is_negative(bits)
    &&& if exponent_field(bits) == 0xff {
        fraction_field(bits) == 0
    } else if exponent(bits) >= 0 {
        significand(bits) * power2::pow2(exponent(bits) as nat) > 1
    } else {
        significand(bits) > power2::pow2((-exponent(bits)) as nat)
    }
}

/// The bit pattern of `x.max(1.0)` for the number `x` with pattern `bits`.
pub open spec fn at_least_one_spec(bits: u32) -> u32 {
    if above_one(bits) {
        bits
    } else {
        ONE_BITS
    }
}

/// Patterns of positive numbers are ordered as the numbers are, infinity being
/// the last; everything beyond it is not a number or negative.
proof fn lemma_above_one(bits: u32)
    ensures
        above_one(bits) <==> ONE_BITS < bits <= INFINITY_BITS,
{
    let field = exponent_field(bits);
    let power = exponent(bits);
    assert(power2::pow2(22) == 0x40_0000 && power2::pow2(23) == 0x80_0000 && power2::pow2(24)
        == 0x100_0000) by {
        power2::lemma2_to64();
    }
    if power < -24 {
        power2::lemma_pow2_strictly_increases(24, (-power) as nat);
    } else if -22 < power < 0 {
        power2::lemma_pow2_strictly_increases((-power) as nat, 22);
    } else if power >= 0 && field < 0xff {
        power2::lemma_pow2_pos(power as nat);
        let whole = significand(bits);
        let times = power2::pow2(power as nat) as int;
        assert(whole * times > 1) by (nonlinear_arith)
            requires
                whole >= 0x80_0000,
                times >= 1,
        ;
    }
}

/// The bit pattern of the number with pattern `bits`, raised to `1.0` where it is
/// below that or not a number.
pub fn at_least_one(bits: u32) -> (r: u32)
    ensures
        r == at_least_one_spec(bits),
{
    proof {
        lemma_above_one(bits);
    }
    if ONE_BITS < bits && bits <= INFINITY_BITS {
        bits
    } else {
        ONE_BITS
    }
}

fn power_of_two(e: u32) -> (r: u64)
    requires
        e <= 62,
    ensures
        r == power2::pow2(e as nat),
{
    let mut r: u64 = 1;
    let mut i: u32 = 0;
    proof {
        power2::lemma2_to64();
    }
    while i < e
        invariant
            i <= e <= 62,
            r == power2::pow2(i as nat),
        decreases e - i,
    {
        proof {
            power2::lemma_pow2_unfold((i + 1) as nat);
            power2::lemma2_to64();
            if i + 1 < 62 {
                power2::lemma_pow2_strictly_increases((i + 1) as nat, 62);
            }
            assert(power2::pow2(62) == 0x4000_0000_0000_0000) by {
                power2::lemma2_to64_rest();
            }
        }
        r = 2 * r;
        i += 1;
    }
    r
}

fn nearest_in_units(n: u64, unit: u64) -> (r: u64)
    requires
        0 < unit <= 4,
        n < 0x80_0000_0000_0000,
    ensures
        r == nearest_multiple(n as int, unit as int),
        r <= n + unit,
{
    let quotient = n / unit;
    let rest = n % unit;
    proof {
        vstd::arithmetic::div_mod::lemma_fundamental_div_mod(n as int, unit as int);
        assert(quotient * unit == unit * quotient) by (nonlinear_arith);
        assert((quotient + 1) * unit == quotient * unit + unit) by (nonlinear_arith);
    }
    if 2 * rest < unit || (2 * rest == unit && quotient % 2 == 0) {
        quotient * unit
    } else {
        (quotient + 1) * unit
    }
}

fn rounded_to_double(n: u64) -> (r: u64)
    requires
        n < 0x80_0000_0000_0000,
    ensures
        r == as_double(n as int),
        r <= n + 4,
{
    if n < 0x20_0000_0000_0000 {
        n
    } else if n < 0x40_0000_0000_0000 {
        nearest_in_units(n, 2)
    } else {
        nearest_in_units(n, 4)
    }
}

/// `n` times two to the power `power`, rounded, but for results beyond the range
/// of `i32`, for which anything beyond that range may come.
fn rounded_or_beyond(n: u64, power: i32) -> (r: u64)
    requires
        n <= 0x80_0000_0000_0010,
        -149 <= power <= 104,
    ensures
        r == rounded(n as int, power as int) || (r > i32::MAX as int + 1 && rounded(
            n as int,
            power as int,
        ) > i32::MAX as int + 1),
        r <= 0x7fff_ffff_ffff_ffff,
{
    proof {
        power2::lemma2_to64();
        power2::lemma2_to64_rest();
    }
    if power >= 0 {
        proof {
            power2::lemma_pow2_pos(power as nat);
        }
        let ghost exact = n * power2::pow2(power as nat);
        if n == 0 {
            assert(exact == 0) by (nonlinear_arith)
                requires
                    n == 0,
                    exact == n * power2::pow2(power as nat),
            ;
            return 0;
        }
        if power > 32 {
            proof {
                power2::lemma_pow2_strictly_increases(32, power as nat);
            }
            assert(exact > 0x1_0000_0000) by (nonlinear_arith)
                requires
                    n >= 1,
                    exact == n * power2::pow2(power as nat),
                    power2::pow2(power as nat) > 0x1_0000_0000,
            ;
            return 0x1_0000_0000;
        }
        let unit = power_of_two(power as u32);
        if n > 0x8000_0000 {
            assert(exact > 0x8000_0000) by (nonlinear_arith)
                requires
                    n > 0x8000_0000,
                    exact == n * unit,
                    unit >= 1,
            ;
            return 0x1_0000_0000;
        }
        assert(n * unit <= 0x8000_0000 * 0x1_0000_0000) by (nonlinear_arith)
            requires
                n <= 0x8000_0000,
                unit <= 0x1_0000_0000,
        ;
        assert(unit <= 0x1_0000_0000) by {
            if power < 32 {
                power2::lemma_pow2_strictly_increases(power as nat, 32);
            }
        }
        if n * unit > 0x8000_0000 {
            return 0x1_0000_0000;
        }
        n * unit
    } else {
        let shift = (-power) as u32;
        if shift > 57 {
            proof {
                power2::lemma_pow2_strictly_increases(57, shift as nat);
                let unit = power2::pow2(shift as nat) as int;
                vstd::arithmetic::div_mod::lemma_fundamental_div_mod_converse(
                    2 * n + unit,
                    2 * unit,
                    0,
                    2 * n + unit,
                );
            }
            return 0;
        }
        let unit = power_of_two(shift);
        proof {
            power2::lemma_pow2_pos(shift as nat);
            if shift < 57 {
                power2::lemma_pow2_strictly_increases(shift as nat, 57);
            }
        }
        (2 * n + unit) / (2 * unit)
    }
}

/// Scales a single-precision number by a whole factor and rounds it to an
/// integer, as the double-precision product would be.
pub fn scaled_offset(bits: u32, factor: i32) -> (r: i32)
    ensures
        r == scaled_offset_spec(bits, factor as int),
{
    let negative = (bits >= 0x8000_0000) != (factor < 0);
    let field = (bits / 0x80_0000) % 0x100;
    let fraction = bits % 0x80_0000;
    if field == 0xff {
        return if fraction != 0 || factor == 0 {
            0
        } else if negative {
            i32::MIN
        } else {
            i32::MAX
        };
    }
    let whole: u64 = if field == 0 {
        fraction as u64
    } else {
        0x80_0000 + fraction as u64
    };
    let power: i32 = (if field == 0 {
        1
    } else {
        field as i32
    }) - 150;
    let times: u64 = if factor < 0 {
        (-(factor as i64)) as u64
    } else {
        factor as u64
    };
    assert(whole * times <= 0xff_ffff * 0x8000_0000) by (nonlinear_arith)
        requires
            whole <= 0xff_ffff,
            times <= 0x8000_0000,
    ;
    let product = rounded_to_double(whole * times);
    let size = rounded_or_beyond(product, power);
    if negative {
        if size > 0x8000_0000 {
            i32::MIN
        } else {
            (-(size as i64)) as i32
        }
    } else if size > 0x7fff_ffff {
        i32::MAX
    } else {
        size as i32
    }
}

/// What is raised to one is one or a number above it, and stays what it is when
/// raised again; its pattern is none below that of one or beyond that of infinity.
pub proof fn raised_numbers_are_from_one_up(bits: u32)
    ensures
        at_least_one_spec(bits) == ONE_BITS || above_one(at_least_one_spec(bits)),
        ONE_BITS <= at_least_one_spec(bits) <= INFINITY_BITS,
        at_least_one_spec(at_least_one_spec(bits)) == at_least_one_spec(bits),
{
    lemma_above_one(bits);
}

/// With a factor of up to two to the 29th the product is rounded only once, to an
/// integer: double precision holds it exactly.
pub proof fn ordinary_factors_scale_exactly(bits: u32, factor: int)
    requires
        magnitude(factor) <= 0x2000_0000,
    ensures
        as_double(significand(bits) * magnitude(factor)) == significand(bits) * magnitude(factor),
{
    let times = magnitude(factor);
    let whole = significand(bits);
    assert(0 <= whole * times <= 0xff_ffff * 0x2000_0000) by (nonlinear_arith)
        requires
            0 <= whole <= 0xff_ffff,
            0 <= times <= 0x2000_0000,
    ;
}

/// The pattern is that of the whole number `n`, which is its significant bits
/// times a power of two; both zeros stand for zero.
pub open spec fn stands_for_whole(bits: u32, n: int) -> bool {
    let unsigned = bits as int % 0x8000_0000;
    let field = unsigned / 0x80_0000;
    let whole = 0x80_0000 + unsigned % 0x80_0000;
    if unsigned == 0 {
        n == 0
    } else {
        &&& n < 0 <==> bits >= 0x8000_0000
        &&& 127 <= field < 0xff
        &&& field < 150 ==> whole == magnitude(n) * power2::pow2((150 - field) as nat)
        &&& field >= 150 ==> magnitude(n) == whole * power2::pow2((field - 150) as nat)
    }
}

/// Rounding a whole number of units gives that number.
proof fn lemma_integers_round_to_themselves(n: int, power: nat)
    requires
        0 <= n,
    ensures
        (2 * (n * power2::pow2(power)) + power2::pow2(power)) / (2 * power2::pow2(power)) as int
            == n,
{
    let unit = power2::pow2(power) as int;
    power2::lemma_pow2_pos(power);
    assert(2 * (n * unit) == n * (2 * unit)) by (nonlinear_arith);
    vstd::arithmetic::div_mod::lemma_fundamental_div_mod_converse(
        2 * (n * unit) + unit,
        2 * unit,
        n,
        unit,
    );
}

/// A whole number is scaled exactly: the offset is the number times the factor,
/// whatever the factor, as long as the product is within `i32`.
pub proof fn whole_numbers_are_scaled_exactly(bits: u32, n: int, factor: i32)
    requires
        stands_for_whole(bits, n),
        i32::MIN <= n * factor <= i32::MAX,
    ensures
        scaled_offset_spec(bits, factor as int) == n * factor,
{
    let unsigned = bits as int % 0x8000_0000;
    let field = unsigned / 0x80_0000;
    let whole = 0x80_0000 + unsigned % 0x80_0000;
    let times = magnitude(factor as int);
    let size = magnitude(n) * times;
    assert(field == exponent_field(bits) && unsigned % 0x80_0000 == fraction_field(bits));
    assert(size == magnitude(n * factor)) by (nonlinear_arith)
        requires
            size == magnitude(n) * magnitude(factor as int),
    ;
    assert(n == 0 || factor == 0 ==> n * factor == 0) by (nonlinear_arith);
    assert(n > 0 && factor > 0 || n < 0 && factor < 0 ==> n * factor > 0) by (nonlinear_arith);
    assert(n > 0 && factor < 0 || n < 0 && factor > 0 ==> n * factor < 0) by (nonlinear_arith);
    if unsigned == 0 {
        assert(0 * times == 0);
        lemma_integers_round_to_themselves(0, 149);
        assert(rounded(0, -149) == 0) by {
            assert(0 * power2::pow2(149) == 0);
        }
    } else if field < 150 {
        let power = (150 - field) as nat;
        let unit = power2::pow2(power) as int;
        power2::lemma2_to64();
        power2::lemma_pow2_pos(power);
        let product = whole * times;
        assert(product == size * unit) by (nonlinear_arith)
            requires
                product == whole * times,
                whole == magnitude(n) * unit,
                size == magnitude(n) * times,
        ;
        assert(as_double(product) == product) by {
            if power < 22 {
                power2::lemma_pow2_strictly_increases(power, 22);
                assert(size * unit < 0x20_0000_0000_0000) by (nonlinear_arith)
                    requires
                        0 <= size <= 0x8000_0000,
                        0 < unit < 0x40_0000,
                ;
            } else {
                assert(power == 22 || power == 23);
                assert(unit == 0x40_0000 || unit == 0x80_0000);
                assert(product == size * 0x40_0000 || product == size * 0x80_0000);
            }
        }
        lemma_integers_round_to_themselves(size, power);
        assert(rounded(product, -power) == size);
    } else {
        let power = (field - 150) as nat;
        let unit = power2::pow2(power) as int;
        power2::lemma_pow2_pos(power);
        let product = whole * times;
        assert(product * unit == size) by (nonlinear_arith)
            requires
                product == whole * times,
                magnitude(n) == whole * unit,
                size == magnitude(n) * times,
        ;
        assert(0 <= product <= size) by (nonlinear_arith)
            requires
                product * unit == size,
                product == whole * times,
                whole > 0,
                times >= 0,
                unit >= 1,
        ;
        assert(as_double(product) == product);
    }
}

/// Of every ordinary number the offset is the product with the factor, taken in
/// double precision, to the nearest integer, halves away from zero; beyond the
/// range of `i32` it is the last integer of the range. It has the sign that the
/// two signs make.
pub proof fn offsets_are_rounded_half_away_from_zero(bits: u32, factor: i32)
    requires
        0x80_0000 <= bits % 0x8000_0000 < 0x7f80_0000,
    ensures
        ({
            let field = bits as int % 0x8000_0000 / 0x80_0000;
            let product = as_double(
                (0x80_0000 + bits as int % 0x80_0000) * magnitude(factor as int),
            );
            let negative = (bits >= 0x8000_0000) != (factor < 0);
            let offset = scaled_offset_spec(bits, factor as int);
            let away = if negative {
                -offset
            } else {
                offset
            };
            let most: int = if negative {
                0x8000_0000
            } else {
                0x7fff_ffff
            };
            &&& 0 <= away <= most
            &&& field < 150 ==> {
                let unit = power2::pow2((150 - field) as nat);
                &&& (2 * away - 1) * unit <= 2 * product
                &&& away < most ==> 2 * product < (2 * away + 1) * unit
            }
            &&& field >= 150 ==> {
                let exact = product * power2::pow2((field - 150) as nat);
                &&& away <= exact
                &&& away < most ==> away == exact
            }
        }),
{
    let field = bits as int % 0x8000_0000 / 0x80_0000;
    assert(field == exponent_field(bits));
    let times = magnitude(factor as int);
    let whole = 0x80_0000 + bits as int % 0x80_0000;
    assert(0 <= whole * times <= 0xff_ffff * 0x8000_0000) by (nonlinear_arith)
        requires
            0 <= whole <= 0xff_ffff,
            0 <= times <= 0x8000_0000,
    ;
    let product = as_double(whole * times);
    doubles_are_nearest(whole * times);
    let size = rounded(product, exponent(bits));
    if field < 150 {
        let unit = power2::pow2((150 - field) as nat) as int;
        power2::lemma_pow2_pos((150 - field) as nat);
        vstd::arithmetic::div_mod::lemma_fundamental_div_mod(2 * product + unit, 2 * unit);
        assert(2 * unit * size == (2 * size) * unit) by (nonlinear_arith);
        assert((2 * size - 1) * unit == (2 * size) * unit - unit && (2 * size + 1) * unit == (2
            * size) * unit + unit) by (nonlinear_arith);
        assert(size >= 0) by (nonlinear_arith)
            requires
                2 * product + unit >= 0,
                unit > 0,
                size == (2 * product + unit) / (2 * unit),
        ;
        assert(forall|away: int|
            0 <= away <= size ==> #[trigger] ((2 * away - 1) * unit) <= (2 * size - 1) * unit)
            by (nonlinear_arith)
            requires
                unit > 0,
        ;
    } else {
        let unit = power2::pow2((field - 150) as nat) as int;
        power2::lemma_pow2_pos((field - 150) as nat);
        assert(product * unit >= 0) by (nonlinear_arith)
            requires
                product >= 0,
                unit > 0,
        ;
    }
}

/// A double-precision number is exact below two to the 53rd, and above that the
/// nearest multiple of the step there, the even one of two that are as near.
pub proof fn doubles_are_nearest(n: int)
    requires
        0 <= n < 0x80_0000_0000_0000,
    ensures
        n < 0x20_0000_0000_0000 ==> as_double(n) == n,
        0x20_0000_0000_0000 <= n < 0x40_0000_0000_0000 ==> as_double(n) % 2 == 0 && -1 <= as_double(
            n,
        ) - n <= 1 && (as_double(n) != n ==> as_double(n) % 4 == 0),
        0x40_0000_0000_0000 <= n ==> as_double(n) % 4 == 0 && -2 <= as_double(n) - n <= 2 && (
        as_double(n) - n == 2 || as_double(n) - n == -2 ==> as_double(n) % 8 == 0),
        as_double(n) >= 0,
{
}

/// What is no ordinary number has an offset too: zero for numbers too small to have
/// an exponent of their own and for what is not a number, and the end of the range
/// for infinity, unless nothing is taken of it.
pub proof fn extraordinary_numbers_have_offsets(bits: u32, factor: i32)
    ensures
        bits % 0x8000_0000 < 0x80_0000 ==> scaled_offset_spec(bits, factor as int) == 0,
        bits % 0x8000_0000 > 0x7f80_0000 ==> scaled_offset_spec(bits, factor as int) == 0,
        factor == 0 ==> scaled_offset_spec(bits, factor as int) == 0,
        bits == 0x7f80_0000 && factor > 0 || bits == 0xff80_0000 && factor < 0
            ==> scaled_offset_spec(bits, factor as int) == i32::MAX,
        bits == 0x7f80_0000 && factor < 0 || bits == 0xff80_0000 && factor > 0
            ==> scaled_offset_spec(bits, factor as int) == i32::MIN,
{
    let times = magnitude(factor as int);
    if bits % 0x8000_0000 < 0x80_0000 {
        let whole = significand(bits);
        assert(exponent_field(bits) == 0);
        assert(0 <= whole * times <= 0x7f_ffff * 0x8000_0000) by (nonlinear_arith)
            requires
                0 <= whole <= 0x7f_ffff,
                0 <= times <= 0x8000_0000,
        ;
        doubles_are_nearest(whole * times);
        let product = as_double(whole * times);
        power2::lemma2_to64_rest();
        power2::lemma_pow2_strictly_increases(63, 149);
        let unit = power2::pow2(149) as int;
        vstd::arithmetic::div_mod::lemma_fundamental_div_mod_converse(
            2 * product + unit,
            2 * unit,
            0,
            2 * product + unit,
        );
        assert(rounded(product, -149) == 0);
    } else if factor == 0 && exponent_field(bits) != 0xff {
        let whole = significand(bits);
        assert(whole * times == 0) by (nonlinear_arith)
            requires
                times == 0,
        ;
        if exponent(bits) >= 0 {
            assert(0 * power2::pow2(exponent(bits) as nat) == 0);
        } else {
            lemma_integers_round_to_themselves(0, (-exponent(bits)) as nat);
            assert(0 * power2::pow2((-exponent(bits)) as nat) == 0);
        }
        assert(rounded(0, exponent(bits)) == 0);
    }
}

/// A number above one and infinity are left as they are when raised to one, and
/// everything else becomes one: what is smaller, negative or not a number.
pub proof fn only_what_is_not_above_one_is_raised(bits: u32)
    ensures
        0x3f80_0000 <= bits <= 0x7f80_0000 ==> at_least_one_spec(bits) == bits,
        bits < 0x3f80_0000 || bits > 0x7f80_0000 ==> at_least_one_spec(bits) == 0x3f80_0000,
{
    lemma_above_one(bits);
}

} // verus!
