//! Frame rates that were measured in double precision, by their bits.
//!
//! The 64 bits of a double are a sign, eleven bits of exponent and 52 bits of
//! fraction, by IEEE 754.

use vstd::arithmetic::power2::{
    lemma_pow2_adds, lemma_pow2_pos, lemma_pow2_strictly_increases, lemma_pow2_unfold, pow2,
};
use vstd::prelude::*;

verus! {

/// The exponent of a double, as it is stored.
pub open spec fn stored_exponent(bits: u64) -> int {
    bits as int / 0x10_0000_0000_0000 % 0x800
}

/// The fraction of a double, as it is stored.
pub open spec fn stored_fraction(bits: u64) -> int {
    bits as int % 0x10_0000_0000_0000
}

/// The double is negative.
pub open spec fn is_negative(bits: u64) -> bool {
    bits >= 0x8000_0000_0000_0000
}

/// The whole number that a finite double multiplies a power of two by.
pub open spec fn significand(bits: u64) -> int {
    if stored_exponent(bits) == 0 {
        stored_fraction(bits)
    } else {
        0x10_0000_0000_0000 + stored_fraction(bits)
    }
}

/// The exponent of that power of two, counted from the least double on.
pub open spec fn magnitude(bits: u64) -> nat {
    if stored_exponent(bits) == 0 {
        0
    } else {
        (stored_exponent(bits) - 1) as nat
    }
}

/// A finite double in units of the least one, 2 to the power of -1074.
pub open spec fn in_least_units(bits: u64) -> int {
    let v = significand(bits) * pow2(magnitude(bits));
    if is_negative(bits) {
        -v
    } else {
        v
    }
}

/// The distance of two numbers.
pub open spec fn distance(a: int, b: int) -> int {
    if a > b {
        a - b
    } else {
        b - a
    }
}

/// A measured rate is off by more than 2, by a subtraction in double precision:
/// there a distance up to 2 and the 52nd power of one half is no more than 2. No
/// number is off from nothing, and an infinite one from everything.
pub open spec fn is_rate_off(bits: u64, expected: nat) -> bool {
    if stored_exponent(bits) == 0x7ff {
        stored_fraction(bits) == 0
    } else {
        distance(in_least_units(bits), expected as int * pow2(1074)) > 2 * pow2(1074) + pow2(1022)
    }
}

fn power_of_two(e: u32) -> (r: i128)
    requires
        e <= 100,
    ensures
        r == pow2(e as nat),
        0 < r <= 0x20_0000_0000_0000_0000_0000_0000,
{
    let mut r: i128 = 1;
    let mut i: u32 = 0;
    proof {
        vstd::arithmetic::power2::lemma2_to64();
        assert(pow2(100) == 0x10_0000_0000_0000_0000_0000_0000) by {
            lemma_pow2_adds(32, 4);
            lemma_pow2_adds(64, 36);
        }
    }
    while i < e
        invariant
            i <= e <= 100,
            r == pow2(i as nat),
            pow2(100) == 0x10_0000_0000_0000_0000_0000_0000,
            0 < r <= 0x10_0000_0000_0000_0000_0000_0000,
        decreases e - i,
    {
        proof {
            lemma_pow2_unfold((i + 1) as nat);
            if i + 1 < 100 {
                lemma_pow2_strictly_increases((i + 1) as nat, 100);
            }
        }
        r = 2 * r;
        i = i + 1;
    }
    r
}

/// Whether a measured rate is off by more than 2.
pub fn rate_is_off(bits: u64, expected: u32) -> (r: bool)
    ensures
        r == is_rate_off(bits, expected as nat),
{
    let fraction: u64 = bits % 0x10_0000_0000_0000;
    let exponent: u64 = bits / 0x10_0000_0000_0000 % 0x800;
    if exponent == 0x7ff {
        return fraction == 0;
    }
    let m: u64 = if exponent == 0 {
        fraction
    } else {
        0x10_0000_0000_0000 + fraction
    };
    let k: u32 = if exponent == 0 {
        0
    } else {
        (exponent - 1) as u32
    };
    let negative = bits >= 0x8000_0000_0000_0000;
    if k >= 1074 {
        proof {
            lemma_great(bits, expected as nat);
        }
        return true;
    }
    let j: u32 = 1074 - k;
    if j <= 90 {
        let one: i128 = power_of_two(j);
        let slack: i128 = if j >= 52 {
            power_of_two(j - 52)
        } else {
            0
        };
        proof {
            lemma_near(bits, expected as nat, j as nat);
            assert(0 <= expected * one <= 0xffff_ffff * one) by (nonlinear_arith)
                requires
                    0 <= expected <= 0xffff_ffff,
                    one > 0,
            ;
            if j < 90 {
                lemma_pow2_strictly_increases(j as nat, 90);
            }
            assert(pow2(90) == 0x400_0000_0000_0000_0000_0000) by {
                vstd::arithmetic::power2::lemma2_to64();
                lemma_pow2_adds(64, 26);
            }
            if j > 52 {
                lemma_pow2_strictly_increases((j - 52) as nat, j as nat);
            }
        }
        let want: i128 = expected as i128 * one;
        let got: i128 = if negative {
            -(m as i128)
        } else {
            m as i128
        };
        let gap: i128 = if got > want {
            got - want
        } else {
            want - got
        };
        gap > 2 * one + slack
    } else {
        let more: bool = if j < 105 {
            m as i128 > power_of_two(j - 52)
        } else {
            false
        };
        proof {
            lemma_tiny(bits, expected as nat, j as nat);
        }
        expected >= 3 || (negative && expected == 2 && more)
    }
}

/// A double from 2 to the power of 52 on is off from every 32-bit number.
proof fn lemma_great(bits: u64, expected: nat)
    requires
        stored_exponent(bits) != 0x7ff,
        magnitude(bits) >= 1074,
        expected <= u32::MAX,
    ensures
        is_rate_off(bits, expected),
{
    let one = pow2(1074) as int;
    let k = magnitude(bits);
    let v = significand(bits) * pow2(k);
    lemma_pow2_pos(1074);
    lemma_pow2_strictly_increases(1022, 1074);
    if k > 1074 {
        lemma_pow2_strictly_increases(1074, k);
    }
    assert(v >= 0x10_0000_0000_0000 * one) by (nonlinear_arith)
        requires
            v == significand(bits) * pow2(k),
            significand(bits) >= 0x10_0000_0000_0000,
            pow2(k) >= one,
            one > 0,
    ;
    assert(0 <= expected * one <= 0xffff_ffff * one) by (nonlinear_arith)
        requires
            0 <= expected <= 0xffff_ffff,
            one > 0,
    ;
}

/// Between, the comparison is one of whole numbers.
proof fn lemma_near(bits: u64, expected: nat, j: nat)
    requires
        stored_exponent(bits) != 0x7ff,
        1 <= j <= 1074,
        magnitude(bits) + j == 1074,
    ensures
        ({
            let got = if is_negative(bits) {
                -significand(bits)
            } else {
                significand(bits)
            };
            let slack = if j >= 52 {
                pow2((j - 52) as nat) as int
            } else {
                0
            };
            is_rate_off(bits, expected) <==> distance(got, expected as int * pow2(j)) > 2 * pow2(j) + slack
        }),
{
    let k = magnitude(bits);
    let unit = pow2(k) as int;
    let one = pow2(j) as int;
    let m = significand(bits);
    let got = if is_negative(bits) {
        -m
    } else {
        m
    };
    let gap = distance(got, expected * one);
    let slack = if j >= 52 {
        pow2((j - 52) as nat) as int
    } else {
        0
    };
    lemma_pow2_pos(k);
    lemma_pow2_adds(j, k);
    assert(pow2(1074) == one * unit);
    assert(in_least_units(bits) == got * unit) by (nonlinear_arith)
        requires
            in_least_units(bits) == (if is_negative(bits) {
                -(m * unit)
            } else {
                m * unit
            }),
            got == (if is_negative(bits) {
                -m
            } else {
                m
            }),
    ;
    assert(expected * (one * unit) == (expected * one) * unit) by (nonlinear_arith);
    assert(distance(got * unit, (expected * one) * unit) == gap * unit) by (nonlinear_arith)
        requires
            unit > 0,
            gap == distance(got, expected * one),
            distance(got, expected * one) == (if got > expected * one {
                got - expected * one
            } else {
                expected * one - got
            }),
            distance(got * unit, (expected * one) * unit) == (if got * unit > (expected * one)
                * unit {
                got * unit - (expected * one) * unit
            } else {
                (expected * one) * unit - got * unit
            }),
    ;
    if j >= 52 {
        lemma_pow2_adds((j - 52) as nat, k);
        assert(pow2(1022) == slack * unit);
        assert((gap * unit > 2 * (one * unit) + slack * unit) <==> gap > 2 * one + slack)
            by (nonlinear_arith)
            requires
                unit > 0,
        ;
    } else {
        let part = pow2(1022) as int;
        lemma_pow2_pos(1022);
        lemma_pow2_strictly_increases(1022, k);
        assert((gap * unit > 2 * (one * unit) + part) <==> gap > 2 * one) by (nonlinear_arith)
            requires
                0 < part < unit,
        ;
    }
}

/// A double next to nothing is off from 3 on, and from 2 where it is negative
/// and more than the slack of the subtraction.
proof fn lemma_tiny(bits: u64, expected: nat, j: nat)
    requires
        stored_exponent(bits) != 0x7ff,
        90 < j <= 1074,
        magnitude(bits) + j == 1074,
    ensures
        is_rate_off(bits, expected) <==> expected >= 3 || (is_negative(bits) && expected == 2 && j
            < 105 && significand(bits) > pow2((j - 52) as nat)),
{
    lemma_near(bits, expected, j);
    let one = pow2(j) as int;
    let slack = pow2((j - 52) as nat) as int;
    let m = significand(bits);
    vstd::arithmetic::power2::lemma2_to64();
    lemma_pow2_strictly_increases(53, (j - 1) as nat);
    lemma_pow2_strictly_increases((j - 52) as nat, (j - 1) as nat);
    lemma_pow2_unfold(j);
    lemma_pow2_pos((j - 52) as nat);
    assert(pow2(53) == 0x20_0000_0000_0000) by {
        lemma_pow2_adds(32, 21);
    }
    assert(0 <= m < 0x20_0000_0000_0000);
    assert(2 * m < one && 2 * slack < one);
    if j >= 105 {
        if j > 105 {
            lemma_pow2_strictly_increases(53, (j - 52) as nat);
        }
        assert(m < slack);
    }
    if expected >= 3 {
        assert(expected * one >= 3 * one) by (nonlinear_arith)
            requires
                expected >= 3,
                one > 0,
        ;
    } else if expected == 2 {
        assert(2 * one == expected * one) by (nonlinear_arith)
            requires
                expected == 2,
        ;
    } else if expected == 1 {
        assert(1 * one == expected * one) by (nonlinear_arith)
            requires
                expected == 1,
        ;
    } else {
        assert(0 * one == expected * one) by (nonlinear_arith)
            requires
                expected == 0,
        ;
    }
}

} // verus!
