//! The brightness that fits an ambient light.
//!
//! The light sensor reports lux as a binary32 floating-point number, and the
//! threads pass it on by its bit pattern. The pattern is enough to compare it
//! with a threshold: a sign bit, eight bits of exponent and twenty-three bits of
//! fraction, where the pattern of a larger magnitude is the larger integer.
use vstd::arithmetic::power2::{lemma_pow2_adds, lemma_pow2_pos, lemma_pow2_unfold, pow2};
use vstd::prelude::*;

verus! {

/// The brightness above the last threshold, and for what is not a number.
pub const FULL_BRIGHTNESS: u32 = 4095;

/// The pattern of 200 lux, which stands in until the sensor reports.
pub const INITIAL_LUX_BITS: u32 = 0x4348_0000;

/// How many patterns there are from one power of two to the next.
pub const BINADE: u32 = 0x80_0000;

/// The patterns from here on have their sign bit set.
pub const SIGN: u32 = 0x8000_0000;

/// The pattern of infinity; the patterns between it and the sign bit are no
/// numbers.
pub const INFINITY: u32 = 0x7f80_0000;

/// The pattern without its sign bit.
pub open spec fn magnitude(bits: u32) -> nat {
    if bits >= SIGN {
        (bits - SIGN) as nat
    } else {
        bits as nat
    }
}

/// Is this the pattern of something that is not a number?
pub open spec fn is_nan(bits: u32) -> bool {
    magnitude(bits) > INFINITY
}

/// The absolute value of what a pattern without its sign bit stands for, in
/// units of two to the power of -149, of which every binary32 number is a
/// multiple. Infinity counts as two to the power of 128, which is above all
/// numbers of the format.
pub open spec fn units(m: nat) -> nat {
    let exponent = m / BINADE as nat;
    let fraction = m % BINADE as nat;
    if exponent == 0 {
        fraction
    } else {
        (BINADE as nat + fraction) * pow2((exponent - 1) as nat)
    }
}

/// The number that a pattern stands for, in the same units.
pub open spec fn lux_units(bits: u32) -> int {
    if bits >= SIGN {
        -(units(magnitude(bits)) as int)
    } else {
        units(magnitude(bits)) as int
    }
}

/// Is the light below `lux`? What is not a number is below nothing.
pub open spec fn is_below(bits: u32, lux: nat) -> bool {
    !is_nan(bits) && lux_units(bits) < lux * pow2(149)
}

/// The thresholds in lux, each with the brightness for a light below it. The
/// last threshold is the largest number of the format.
pub open spec fn lux_map() -> Seq<(nat, u32)> {
    seq![
        (1, 50),
        (10, 200),
        (50, 350),
        (200, 550),
        (500, 1023),
        (1000, 2047),
        (3000, 3095),
        (6000, FULL_BRIGHTNESS),
        (340282346638528859811704183484516925440, FULL_BRIGHTNESS),
    ]
}

/// The brightness of the first row, from `row` on, whose threshold the light is
/// below.
pub open spec fn brightness_from(bits: u32, row: int) -> u32
    decreases lux_map().len() - row,
{
    if row < 0 || row >= lux_map().len() {
        FULL_BRIGHTNESS
    } else if is_below(bits, lux_map()[row].0) {
        lux_map()[row].1
    } else {
        brightness_from(bits, row + 1)
    }
}

/// The brightness for a light.
pub open spec fn brightness_for(bits: u32) -> u32 {
    brightness_from(bits, 0)
}

/// A larger pattern stands for a larger absolute value.
pub proof fn lemma_units_increase(a: nat, b: nat)
    requires
        a < b,
    ensures
        units(a) < units(b),
{
    let binade = BINADE as nat;
    let (ea, fa) = (a / binade, a % binade);
    let (eb, fb) = (b / binade, b % binade);
    if ea == eb {
        assert(fa < fb);
        if ea > 0 {
            let scale = pow2((ea - 1) as nat);
            lemma_pow2_pos((ea - 1) as nat);
            assert((binade + fa) * scale < (binade + fb) * scale) by (nonlinear_arith)
                requires
                    fa < fb,
                    scale > 0,
            ;
        }
    } else {
        assert(ea < eb);
        let high = pow2((eb - 1) as nat);
        lemma_pow2_pos((eb - 1) as nat);
        assert((binade + fb) * high >= binade * high) by (nonlinear_arith)
            requires
                high > 0,
        ;
        if ea == 0 {
            assert(binade * high >= binade) by (nonlinear_arith)
                requires
                    high > 0,
            ;
        } else {
            let low = pow2((ea - 1) as nat);
            let gap = pow2((eb - ea) as nat);
            lemma_pow2_pos((ea - 1) as nat);
            lemma_pow2_adds((ea - 1) as nat, (eb - ea) as nat);
            assert(gap >= 2) by {
                lemma_pow2_unfold((eb - ea) as nat);
                lemma_pow2_pos((eb - ea - 1) as nat);
            }
            assert(high == low * gap);
            assert((binade + fa) * low < binade * high) by (nonlinear_arith)
                requires
                    fa < binade,
                    low > 0,
                    gap >= 2,
                    high == low * gap,
            ;
        }
    }
}

/// A pattern stands for `lux` where its fraction and its exponent make it up.
proof fn lemma_threshold(pattern: nat, lux: nat, shift: nat)
    requires
        pattern / BINADE as nat > 0,
        BINADE as nat + pattern % BINADE as nat == lux * pow2(shift),
        (pattern / BINADE as nat - 1) + shift == 149,
    ensures
        units(pattern) == lux * pow2(149),
{
    let scale = (pattern / BINADE as nat - 1) as nat;
    lemma_pow2_adds(shift, scale);
    assert(lux * pow2(shift) * pow2(scale) == lux * (pow2(shift) * pow2(scale)))
        by (nonlinear_arith);
}

/// Comparing patterns is comparing the numbers that they stand for.
proof fn lemma_below(bits: u32, pattern: u32, lux: nat)
    requires
        pattern < INFINITY,
        units(pattern as nat) == lux * pow2(149),
        lux > 0,
    ensures
        is_below(bits, lux) == (!is_nan(bits) && (bits >= SIGN || bits < pattern)),
{
    lemma_pow2_pos(149);
    assert(lux * pow2(149) > 0) by (nonlinear_arith)
        requires
            lux > 0,
            pow2(149) > 0,
    ;
    let m = magnitude(bits);
    if m < pattern {
        lemma_units_increase(m, pattern as nat);
    } else if pattern < m {
        lemma_units_increase(pattern as nat, m);
    }
}

/// The patterns that are compared with stand for the thresholds up to the last
/// one that makes a difference.
pub proof fn lemma_table(bits: u32)
    ensures
        is_below(bits, 1) == (!is_nan(bits) && (bits >= SIGN || bits < 0x3f80_0000)),
        is_below(bits, 10) == (!is_nan(bits) && (bits >= SIGN || bits < 0x4120_0000)),
        is_below(bits, 50) == (!is_nan(bits) && (bits >= SIGN || bits < 0x4248_0000)),
        is_below(bits, 200) == (!is_nan(bits) && (bits >= SIGN || bits < 0x4348_0000)),
        is_below(bits, 500) == (!is_nan(bits) && (bits >= SIGN || bits < 0x43fa_0000)),
        is_below(bits, 1000) == (!is_nan(bits) && (bits >= SIGN || bits < 0x447a_0000)),
        is_below(bits, 3000) == (!is_nan(bits) && (bits >= SIGN || bits < 0x453b_8000)),
{
    vstd::arithmetic::power2::lemma2_to64();
    lemma_threshold(0x3f80_0000, 1, 23);
    lemma_threshold(0x4120_0000, 10, 20);
    lemma_threshold(0x4248_0000, 50, 18);
    lemma_threshold(0x4348_0000, 200, 16);
    lemma_threshold(0x43fa_0000, 500, 15);
    lemma_threshold(0x447a_0000, 1000, 14);
    lemma_threshold(0x453b_8000, 3000, 12);
    lemma_below(bits, 0x3f80_0000, 1);
    lemma_below(bits, 0x4120_0000, 10);
    lemma_below(bits, 0x4248_0000, 50);
    lemma_below(bits, 0x4348_0000, 200);
    lemma_below(bits, 0x43fa_0000, 500);
    lemma_below(bits, 0x447a_0000, 1000);
    lemma_below(bits, 0x453b_8000, 3000);
}

/// The brightness for a light, given by its pattern.
pub fn lux_to_brightness(lux_bits: u32) -> (brightness: u32)
    ensures
        brightness == brightness_for(lux_bits),
{
    proof {
        lemma_table(lux_bits);
        reveal_with_fuel(brightness_from, 10);
    }
    let m: u32 = if lux_bits >= SIGN {
        lux_bits - SIGN
    } else {
        lux_bits
    };
    if m > INFINITY {
        FULL_BRIGHTNESS
    } else if lux_bits >= SIGN || lux_bits < 0x3f80_0000 {
        50
    } else if lux_bits < 0x4120_0000 {
        200
    } else if lux_bits < 0x4248_0000 {
        350
    } else if lux_bits < 0x4348_0000 {
        550
    } else if lux_bits < 0x43fa_0000 {
        1023
    } else if lux_bits < 0x447a_0000 {
        2047
    } else if lux_bits < 0x453b_8000 {
        3095
    } else {
        FULL_BRIGHTNESS
    }
}

/// More light never asks for less brightness.
pub proof fn law_brightness_grows_with_light(a: u32, b: u32)
    requires
        !is_nan(a),
        !is_nan(b),
        lux_units(a) <= lux_units(b),
    ensures
        brightness_for(a) <= brightness_for(b),
{
    reveal_with_fuel(brightness_from, 10);
}

/// The brightness is never zero, and never above full.
pub proof fn law_brightness_in_range(bits: u32)
    ensures
        50 <= brightness_for(bits) <= FULL_BRIGHTNESS,
{
    reveal_with_fuel(brightness_from, 10);
}

/// The last threshold of the table is the largest number of the format: only
/// infinity is above it.
pub proof fn law_last_threshold_is_largest(bits: u32)
    requires
        !is_nan(bits),
    ensures
        lux_units(bits) <= lux_map().last().0 * pow2(149) <==> bits != INFINITY,
{
    let largest: u32 = 0x7f7f_ffff;
    vstd::arithmetic::power2::lemma2_to64();
    lemma_pow2_adds(64, 32);
    lemma_pow2_adds(96, 8);
    assert(pow2(104) == 0x1_0000_0000_0000_0000 * 0x1_0000_0000 * 0x100);
    lemma_pow2_adds(104, 149);
    assert(0xff_ffff * pow2(104) == lux_map().last().0);
    assert(units(largest as nat) == 0xff_ffff * pow2(253));
    assert(0xff_ffff * (pow2(104) * pow2(149)) == 0xff_ffff * pow2(104) * pow2(149))
        by (nonlinear_arith);
    let m = magnitude(bits);
    if m < largest {
        lemma_units_increase(m, largest as nat);
    } else if largest < m {
        lemma_units_increase(largest as nat, m);
    }
}

/// The brightness for a light goes up in eight steps, at 1, 10, 50, 200, 500, 1000 and
/// 3000 lux, and the step that starts at a threshold includes it. What is not a number
/// has the last one.
pub proof fn law_brightness_steps(bits: u32)
    ensures
        ({
            let lux = lux_units(bits);
            let one = pow2(149) as int;
            let b = brightness_for(bits);
            if is_nan(bits) {
                b == 4095
            } else {
                &&& lux < one <==> b == 50
                &&& one <= lux < 10 * one <==> b == 200
                &&& 10 * one <= lux < 50 * one <==> b == 350
                &&& 50 * one <= lux < 200 * one <==> b == 550
                &&& 200 * one <= lux < 500 * one <==> b == 1023
                &&& 500 * one <= lux < 1000 * one <==> b == 2047
                &&& 1000 * one <= lux < 3000 * one <==> b == 3095
                &&& 3000 * one <= lux <==> b == 4095
            }
        }),
{
    reveal_with_fuel(brightness_from, 10);
    lemma_pow2_pos(149);
    if !is_nan(bits) {
        assert(is_below(bits, 1) == (lux_units(bits) < pow2(149)));
        assert(is_below(bits, 10) == (lux_units(bits) < 10 * pow2(149)));
        assert(is_below(bits, 50) == (lux_units(bits) < 50 * pow2(149)));
        assert(is_below(bits, 200) == (lux_units(bits) < 200 * pow2(149)));
        assert(is_below(bits, 500) == (lux_units(bits) < 500 * pow2(149)));
        assert(is_below(bits, 1000) == (lux_units(bits) < 1000 * pow2(149)));
        assert(is_below(bits, 3000) == (lux_units(bits) < 3000 * pow2(149)));
    }
}

/// The same steps by the pattern of the light: every negative light, and minus zero,
/// has the first one, and what is not a number, of either sign, has the last one.
pub proof fn law_brightness_by_pattern(bits: u32)
    ensures
        brightness_for(bits) == if bits > 0xff80_0000 {
            4095u32
        } else if bits >= 0x8000_0000 || bits < 0x3f80_0000 {
            50u32
        } else if bits < 0x4120_0000 {
            200u32
        } else if bits < 0x4248_0000 {
            350u32
        } else if bits < 0x4348_0000 {
            550u32
        } else if bits < 0x43fa_0000 {
            1023u32
        } else if bits < 0x447a_0000 {
            2047u32
        } else if bits < 0x453b_8000 {
            3095u32
        } else {
            4095u32
        },
{
    reveal_with_fuel(brightness_from, 10);
    lemma_table(bits);
}

/// What a pattern stands for: the patterns up to twice the first power of two count
/// up one by one, and from there on the pattern one exponent further stands for twice
/// as much. The sign bit turns the sign around. What is not a number lies beyond
/// infinity, on either side.
pub proof fn law_patterns_double_by_exponent(bits: u32)
    ensures
        bits < 0x100_0000 ==> lux_units(bits) == bits,
        0x80_0000 <= bits < 0x7f80_0000 ==> lux_units((bits + 0x80_0000) as u32) == 2 * lux_units(
            bits,
        ),
        bits < 0x8000_0000 ==> lux_units((bits + 0x8000_0000) as u32) == -lux_units(bits),
        is_nan(bits) <==> 0x7f80_0000 < bits < 0x8000_0000 || 0xff80_0000 < bits,
{
    vstd::arithmetic::power2::lemma2_to64();
    let binade = 0x80_0000int;
    if bits < 0x100_0000 {
        if bits >= 0x80_0000 {
            assert(bits as int / binade == 1 && bits as int % binade == bits - binade);
        } else {
            assert(bits as int / binade == 0 && bits as int % binade == bits);
        }
    }
    if 0x80_0000 <= bits < 0x7f80_0000 {
        let m = bits as int;
        let e = m / binade;
        let f = m % binade;
        assert((m + binade) / binade == e + 1 && (m + binade) % binade == f);
        assert(e >= 1);
        lemma_pow2_unfold(e as nat);
        let scale = pow2((e - 1) as nat);
        assert(pow2(e as nat) == 2 * scale);
        assert((binade + f) * (2 * scale) == 2 * ((binade + f) * scale)) by (nonlinear_arith);
    }
}

/// Until the sensor reports, the light counts as 200 lux.
pub proof fn law_initial_light_is_200_lux()
    ensures
        !is_nan(INITIAL_LUX_BITS),
        lux_units(INITIAL_LUX_BITS) == 200 * pow2(149),
{
    vstd::arithmetic::power2::lemma2_to64();
    lemma_threshold(0x4348_0000, 200, 16);
}

} // verus!
