//! Widening the numbers of a device file, which come in a dozen wire types,
//! to the one fixed-point type of the model: whole thousandths in `i64`.
//!
//! Floating-point values are taken by their bits, in the formats of IEEE
//! 754, and turned into thousandths exactly, rounding towards zero. A value
//! that does not fit is refused, never cut short.

use vstd::prelude::*;

verus! {

/// Two to the power `n`.
pub open spec fn pow2(n: nat) -> nat
    decreases n,
{
    if n == 0 {
        1
    } else {
        2 * pow2((n - 1) as nat)
    }
}

/// The thousandths in the magnitude `mantissa * 2^exponent`, rounded down,
/// where they fit in `i64`.
pub open spec fn scaled_thousandths(mantissa: nat, exponent: int) -> Option<nat> {
    let magnitude = if exponent >= 0 {
        mantissa * 1000 * pow2(exponent as nat)
    } else {
        (mantissa * 1000) / pow2((-exponent) as nat)
    };
    if magnitude <= i64::MAX {
        Some(magnitude)
    } else {
        None
    }
}

/// `magnitude` with the sign that `negative` tells.
pub open spec fn signed(negative: bool, magnitude: Option<nat>) -> Option<i64> {
    match magnitude {
        Some(m) => Some(
            if negative {
                (-m) as i64
            } else {
                m as i64
            },
        ),
        None => None,
    }
}

/// The thousandths, rounded towards zero, in the double-precision number
/// with the given bits: a sign, eleven bits of exponent and fifty-two of
/// fraction. An infinity, a value that is not a number and a value beyond
/// `i64` have none.
pub open spec fn float64_thousandths(bits: u64) -> Option<i64> {
    let negative = bits >= 0x8000_0000_0000_0000;
    let exponent = (bits / 0x10_0000_0000_0000) % 2048;
    let fraction = bits % 0x10_0000_0000_0000;
    if exponent == 2047 {
        None
    } else if exponent == 0 {
        signed(negative, scaled_thousandths(fraction as nat, -1074))
    } else {
        signed(
            negative,
            scaled_thousandths((fraction + 0x10_0000_0000_0000) as nat, exponent - 1075),
        )
    }
}

/// The thousandths, rounded towards zero, in the single-precision number
/// with the given bits: a sign, eight bits of exponent and twenty-three of
/// fraction.
pub open spec fn float32_thousandths(bits: u32) -> Option<i64> {
    let negative = bits >= 0x8000_0000;
    let exponent = (bits / 0x80_0000) % 256;
    let fraction = bits % 0x80_0000;
    if exponent == 255 {
        None
    } else if exponent == 0 {
        signed(negative, scaled_thousandths(fraction as nat, -149))
    } else {
        signed(negative, scaled_thousandths((fraction + 0x80_0000) as nat, exponent - 150))
    }
}

/// The thousandths in a whole number, where they fit in `i64`.
pub open spec fn integer_thousandths(v: int) -> Option<i64> {
    if i64::MIN <= v * 1000 <= i64::MAX {
        Some((v * 1000) as i64)
    } else {
        None
    }
}

/// Powers of two grow.
pub proof fn lemma_pow2_grows(a: nat, b: nat)
    requires
        a <= b,
    ensures
        1 <= pow2(a) <= pow2(b),
    decreases b,
{
    if b == 0 {
    } else if a == b {
        lemma_pow2_grows((a - 1) as nat, (b - 1) as nat);
    } else {
        lemma_pow2_grows(a, (b - 1) as nat);
    }
}

/// Two to the power 64.
pub proof fn lemma_pow2_64()
    ensures
        pow2(64) == 0x1_0000_0000_0000_0000,
{
    reveal_with_fuel(pow2, 65);
}

/// Two to the power `n`, for `n` up to 64.
fn power_of_two(n: u32) -> (p: u128)
    requires
        n <= 64,
    ensures
        p == pow2(n as nat),
        1 <= p <= 0x1_0000_0000_0000_0000,
{
    let mut p: u128 = 1;
    let mut i: u32 = 0;
    while i < n
        invariant
            i <= n <= 64,
            p == pow2(i as nat),
            p <= 0x1_0000_0000_0000_0000,
        decreases n - i,
    {
        proof {
            lemma_pow2_grows((i + 1) as nat, 64);
            lemma_pow2_64();
        }
        p = p * 2;
        i += 1;
    }
    proof {
        lemma_pow2_grows(n as nat, 64);
        lemma_pow2_64();
    }
    p
}

/// The thousandths in `mantissa * 2^exponent`, where they fit in `i64`.
fn scale(mantissa: u64, exponent: i32) -> (t: Option<u64>)
    requires
        mantissa < 0x20_0000_0000_0000,
        -1074 <= exponent <= 971,
    ensures
        t matches Some(v) ==> scaled_thousandths(mantissa as nat, exponent as int) == Some(
            v as nat,
        ),
        t is None ==> scaled_thousandths(mantissa as nat, exponent as int) is None,
{
    let product: u128 = (mantissa as u128) * 1000;
    if exponent >= 0 {
        if mantissa == 0 {
            proof {
                assert(0 * 1000 * pow2(exponent as nat) == 0) by (nonlinear_arith);
            }
            return Some(0);
        }
        if exponent > 63 {
            proof {
                lemma_pow2_grows(64, exponent as nat);
                lemma_pow2_64();
                let p = pow2(exponent as nat);
                assert(mantissa * 1000 * p >= p) by (nonlinear_arith)
                    requires
                        mantissa >= 1,
                        p >= 0,
                ;
            }
            return None;
        }
        let factor: u128 = power_of_two(exponent as u32);
        proof {
            assert(product * factor <= 0x7D00_0000_0000_0000 * 0x1_0000_0000_0000_0000)
                by (nonlinear_arith)
                requires
                    product <= 0x7D00_0000_0000_0000,
                    factor <= 0x1_0000_0000_0000_0000,
            ;
        }
        let magnitude: u128 = product * factor;
        if magnitude <= i64::MAX as u128 {
            Some(magnitude as u64)
        } else {
            None
        }
    } else {
        let shift: u32 = (-exponent) as u32;
        if shift > 64 {
            proof {
                lemma_pow2_grows(64, shift as nat);
                lemma_pow2_64();
                let p = pow2(shift as nat) as int;
                let q = product as int;
                assert(q / p == 0) by (nonlinear_arith)
                    requires
                        0 <= q < p,
                ;
            }
            return Some(0);
        }
        let divisor: u128 = power_of_two(shift);
        let magnitude: u128 = product / divisor;
        proof {
            let p = divisor as int;
            let q = product as int;
            assert(q / p <= q) by (nonlinear_arith)
                requires
                    0 <= q,
                    1 <= p,
            ;
        }
        Some(magnitude as u64)
    }
}

/// A magnitude with its sign.
fn with_sign(negative: bool, magnitude: Option<u64>) -> (v: Option<i64>)
    requires
        magnitude matches Some(m) ==> m <= i64::MAX,
    ensures
        v == signed(
            negative,
            match magnitude {
                Some(m) => Some(m as nat),
                None => None,
            },
        ),
{
    match magnitude {
        Some(m) => Some(
            if negative {
                -(m as i64)
            } else {
                m as i64
            },
        ),
        None => None,
    }
}

/// Widens a double-precision number, given by its bits, to thousandths.
pub fn thousandths_of_float64(bits: u64) -> (v: Option<i64>)
    ensures
        v == float64_thousandths(bits),
{
    let negative: bool = bits >= 0x8000_0000_0000_0000;
    let exponent: u64 = (bits / 0x10_0000_0000_0000) % 2048;
    let fraction: u64 = bits % 0x10_0000_0000_0000;
    if exponent == 2047 {
        None
    } else if exponent == 0 {
        with_sign(negative, scale(fraction, -1074))
    } else {
        with_sign(negative, scale(fraction + 0x10_0000_0000_0000, exponent as i32 - 1075))
    }
}

/// Widens a single-precision number, given by its bits, to thousandths.
pub fn thousandths_of_float32(bits: u32) -> (v: Option<i64>)
    ensures
        v == float32_thousandths(bits),
{
    let negative: bool = bits >= 0x8000_0000;
    let exponent: u32 = (bits / 0x80_0000) % 256;
    let fraction: u32 = bits % 0x80_0000;
    if exponent == 255 {
        None
    } else if exponent == 0 {
        with_sign(negative, scale(fraction as u64, -149))
    } else {
        with_sign(negative, scale((fraction + 0x80_0000) as u64, exponent as i32 - 150))
    }
}

/// Widens a whole number to thousandths.
pub fn thousandths_of_integer(v: i64) -> (t: Option<i64>)
    ensures
        t == integer_thousandths(v as int),
{
    v.checked_mul(1000)
}

/// Widens an unsigned whole number to thousandths.
pub fn thousandths_of_unsigned(v: u64) -> (t: Option<i64>)
    ensures
        t == integer_thousandths(v as int),
{
    if v > 9_223_372_036_854_775 {
        None
    } else {
        Some((v * 1000) as i64)
    }
}

} // verus!
