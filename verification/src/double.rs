//! The little arithmetic on IEEE 754 doubles that the sources ask for, in whole numbers.
//!
//! A source reports lengths and cue times in seconds, as a number with a fraction, and wants
//! lengths back in whole seconds. Both are defined by what a double multiplies, divides and
//! rounds to, so that is what is stated here: a double is given by its bit pattern.

use vstd::arithmetic::power2::{
    lemma2_to64, lemma2_to64_rest, lemma_pow2_adds, lemma_pow2_pos, lemma_pow2_strictly_increases,
    lemma_pow2_unfold, pow2,
};
use vstd::prelude::*;

verus! {

// ------------------------------------------------------------------------ rounding

/// How many binary digits a number has beyond the 53 that a double keeps.
pub open spec fn excess_bits(n: nat) -> nat
    decreases n,
{
    if n < 0x20_0000_0000_0000 {
        0
    } else {
        1 + excess_bits(n / 2)
    }
}

/// The whole number nearest to `n / d`. Halfway between two, the even one.
pub open spec fn nearest_even(n: nat, d: nat) -> nat {
    let low = n / d;
    let rest = n % d;
    if 2 * rest < d || (2 * rest == d && low % 2 == 0) {
        low
    } else {
        low + 1
    }
}

/// A magnitude, `digits * 2^exponent`.
pub ghost struct Magnitude {
    pub digits: nat,
    pub exponent: int,
}

/// The double nearest to a whole number.
pub open spec fn nearest_double(n: nat) -> Magnitude {
    let k = excess_bits(n);
    Magnitude { digits: nearest_even(n, pow2(k)), exponent: k as int }
}

/// The magnitude without its fraction.
pub open spec fn truncated(m: Magnitude) -> nat {
    if m.exponent >= 0 {
        m.digits * pow2(m.exponent as nat)
    } else {
        m.digits / pow2((-m.exponent) as nat)
    }
}

/// The whole number nearest to the magnitude. Halfway between two, the larger one.
pub open spec fn rounded(m: Magnitude) -> nat {
    if m.exponent >= 0 {
        m.digits * pow2(m.exponent as nat)
    } else {
        (m.digits + pow2((-m.exponent - 1) as nat)) / pow2((-m.exponent) as nat)
    }
}

/// A number with its sign, or the end of the `i64` range that it is beyond.
pub open spec fn saturated(negative: bool, n: nat) -> i64 {
    if negative {
        if n <= 0x8000_0000_0000_0000 {
            (-(n as int)) as i64
        } else {
            i64::MIN
        }
    } else if n <= 0x7fff_ffff_ffff_ffff {
        n as i64
    } else {
        i64::MAX
    }
}

// --------------------------------------------------------------------- bit patterns

pub open spec fn is_negative(bits: u64) -> bool {
    bits >= 0x8000_0000_0000_0000
}

/// The exponent field: 2047 for an infinity or no number at all.
pub open spec fn exponent_field(bits: u64) -> int {
    (bits as int / 0x10_0000_0000_0000) % 2048
}

pub open spec fn fraction_field(bits: u64) -> int {
    bits as int % 0x10_0000_0000_0000
}

/// The magnitude of a finite double.
pub open spec fn magnitude(bits: u64) -> Magnitude {
    if exponent_field(bits) == 0 {
        Magnitude { digits: fraction_field(bits) as nat, exponent: -1074 }
    } else {
        Magnitude {
            digits: (fraction_field(bits) + 0x10_0000_0000_0000) as nat,
            exponent: exponent_field(bits) - 1075,
        }
    }
}

/// A thousand times a finite double, as a double. Below the normal range a double keeps
/// fewer digits than this says; such a product is far below one and rounds to zero either
/// way.
pub open spec fn thousandfold(bits: u64) -> Magnitude {
    let product = nearest_double(magnitude(bits).digits * 1000);
    Magnitude { digits: product.digits, exponent: product.exponent + magnitude(bits).exponent }
}

/// The milliseconds in a number of seconds given as a double, `whole` being how the product
/// becomes a whole number. What is no number counts as zero.
pub open spec fn millis(bits: u64, whole: spec_fn(Magnitude) -> nat) -> i64 {
    if exponent_field(bits) < 2047 {
        saturated(is_negative(bits), whole(thousandfold(bits)))
    } else if fraction_field(bits) != 0 {
        0
    } else if is_negative(bits) {
        i64::MIN
    } else {
        i64::MAX
    }
}

/// The milliseconds in a number of seconds, without the fraction.
pub open spec fn truncated_millis(bits: u64) -> i64 {
    millis(bits, |m: Magnitude| truncated(m))
}

/// The milliseconds in a number of seconds, to the nearest one.
pub open spec fn rounded_millis(bits: u64) -> i64 {
    millis(bits, |m: Magnitude| rounded(m))
}

// -------------------------------------------------------------------- executable code

fn power_of_two(n: u32) -> (p: u128)
    requires
        n <= 120,
    ensures
        p == pow2(n as nat),
        p > 0,
{
    let mut p: u128 = 1;
    let mut i: u32 = 0;
    proof {
        lemma2_to64();
    }
    while i < n
        invariant
            i <= n <= 120,
            p == pow2(i as nat),
            p > 0,
        decreases n - i,
    {
        proof {
            lemma_pow2_unfold((i + 1) as nat);
            lemma_pow2_strictly_increases((i + 1) as nat, 127);
            lemma_pow2_adds(63, 64);
            lemma2_to64();
            lemma2_to64_rest();
            assert(pow2(127) == 0x8000_0000_0000_0000 * 0x1_0000_0000_0000_0000);
        }
        p = p * 2;
        i += 1;
    }
    p
}

/// A number below a power of two has no more binary digits than that, and what is left of it once
/// the excess is dropped fits a double.
pub proof fn excess_bits_bound(n: nat, limit: nat)
    requires
        n < pow2(limit),
        limit >= 53,
    ensures
        excess_bits(n) <= limit - 53,
        n / pow2(excess_bits(n)) < 0x20_0000_0000_0000,
    decreases n,
{
    lemma2_to64_rest();
    if n < 0x20_0000_0000_0000 {
        lemma2_to64();
        assert(n / 1 == n);
    } else {
        if limit == 53 {
            assert(false);
        }
        lemma_pow2_unfold(limit);
        excess_bits_bound(n / 2, (limit - 1) as nat);
        let k = excess_bits(n / 2);
        lemma_pow2_unfold(k + 1);
        lemma_pow2_pos(k);
        assert(n / (2 * pow2(k)) == (n / 2) / pow2(k)) by {
            vstd::arithmetic::div_mod::lemma_div_denominator(n as int, 2, pow2(k) as int);
        }
    }
}

fn count_excess_bits(n: u128) -> (k: u32)
    requires
        n < pow2(120),
    ensures
        k == excess_bits(n as nat),
        k <= 67,
        n as nat / pow2(k as nat) < 0x20_0000_0000_0000,
{
    let mut w: u128 = n;
    let mut k: u32 = 0;
    proof {
        excess_bits_bound(n as nat, 120);
    }
    while w >= 0x20_0000_0000_0000
        invariant
            excess_bits(n as nat) == k + excess_bits(w as nat),
            excess_bits(n as nat) <= 67,
        decreases w,
    {
        w = w / 2;
        k += 1;
    }
    k
}

fn divide_nearest_even(n: u128, d: u128) -> (q: u128)
    requires
        d > 0,
    ensures
        q == nearest_even(n as nat, d as nat),
        q <= n as nat / d as nat + 1,
{
    let low = n / d;
    let rest = n % d;
    if rest < d - rest || (rest == d - rest && low % 2 == 0) {
        low
    } else {
        assert(low < u128::MAX) by {
            if d == 1 {
                assert(rest == 0);
            } else {
                assert(low <= n / 2) by (nonlinear_arith)
                    requires
                        d >= 2,
                        low == n / d,
                ;
            }
        }
        low + 1
    }
}

/// The double nearest to a whole number, as digits and an exponent.
fn to_double(n: u128) -> (m: (u128, u32))
    requires
        n < pow2(120),
    ensures
        m.0 == nearest_double(n as nat).digits,
        m.1 == nearest_double(n as nat).exponent,
        m.0 <= 0x20_0000_0000_0000,
        m.1 <= 67,
        m.1 == excess_bits(n as nat),
{
    let k = count_excess_bits(n);
    let d = power_of_two(k);
    (divide_nearest_even(n, d), k)
}

fn saturate(negative: bool, n: u128) -> (r: i64)
    ensures
        r == saturated(negative, n as nat),
{
    if negative {
        if n < 0x8000_0000_0000_0000 {
            -(n as i64)
        } else {
            i64::MIN
        }
    } else if n <= 0x7fff_ffff_ffff_ffff {
        n as i64
    } else {
        i64::MAX
    }
}

proof fn large_powers(n: nat)
    requires
        n >= 63,
    ensures
        pow2(n) >= 0x8000_0000_0000_0000,
{
    lemma2_to64_rest();
    if n > 63 {
        lemma_pow2_strictly_increases(63, n);
    }
}

/// A magnitude as a whole number with its sign, cut off or rounded.
fn whole_of(negative: bool, digits: u128, exponent: i32, round: bool) -> (r: i64)
    requires
        digits <= 0x20_0000_0000_0000,
        -2000 <= exponent <= 2000,
    ensures
        r == saturated(
            negative,
            if round {
                rounded(Magnitude { digits: digits as nat, exponent: exponent as int })
            } else {
                truncated(Magnitude { digits: digits as nat, exponent: exponent as int })
            },
        ),
{
    if exponent >= 0 {
        if digits == 0 {
            assert(0nat * pow2(exponent as nat) == 0) by (nonlinear_arith);
            return saturate(negative, 0);
        }
        if exponent >= 64 {
            proof {
                lemma2_to64_rest();
                if exponent > 64 {
                    lemma_pow2_strictly_increases(64, exponent as nat);
                }
                let p = pow2(exponent as nat);
                assert(p >= 0x1_0000_0000_0000_0000);
                assert(digits * p >= 0x1_0000_0000_0000_0000) by (nonlinear_arith)
                    requires
                        digits >= 1,
                        p >= 0x1_0000_0000_0000_0000,
                ;
            }
            return saturate(negative, 0x1_0000_0000_0000_0000);
        }
        let p = power_of_two(exponent as u32);
        proof {
            lemma2_to64_rest();
            if exponent < 64 {
                lemma_pow2_strictly_increases(exponent as nat, 64);
            }
            assert(digits * p <= 0x20_0000_0000_0000 * 0x1_0000_0000_0000_0000) by (nonlinear_arith)
                requires
                    digits <= 0x20_0000_0000_0000,
                    p <= 0x1_0000_0000_0000_0000,
            ;
        }
        saturate(negative, digits * p)
    } else if exponent <= -64 {
        proof {
            let n = (-exponent) as nat;
            large_powers(n);
            large_powers((n - 1) as nat);
            lemma_pow2_unfold(n);
            let d = digits as nat;
            vstd::arithmetic::div_mod::lemma_basic_div(d as int, pow2(n) as int);
            vstd::arithmetic::div_mod::lemma_basic_div(
                (d + pow2((n - 1) as nat)) as int,
                pow2(n) as int,
            );
        }
        saturate(negative, 0)
    } else {
        let n = (-exponent) as u32;
        let p = power_of_two(n);
        if round {
            let half = power_of_two(n - 1);
            proof {
                lemma2_to64_rest();
                lemma_pow2_strictly_increases((n - 1) as nat, 64);
            }
            saturate(negative, (digits + half) / p)
        } else {
            saturate(negative, digits / p)
        }
    }
}

fn to_millis(bits: u64, round: bool) -> (r: i64)
    ensures
        r == (if round {
            rounded_millis(bits)
        } else {
            truncated_millis(bits)
        }),
{
    let negative = bits >= 0x8000_0000_0000_0000;
    let exponent = (bits / 0x10_0000_0000_0000) % 2048;
    let fraction = bits % 0x10_0000_0000_0000;
    if exponent == 2047 {
        if fraction != 0 {
            return 0;
        }
        return if negative {
            i64::MIN
        } else {
            i64::MAX
        };
    }
    let (digits, scale): (u128, i32) = if exponent == 0 {
        (fraction as u128, -1074)
    } else {
        ((fraction + 0x10_0000_0000_0000) as u128, exponent as i32 - 1075)
    };
    proof {
        lemma2_to64_rest();
        lemma_pow2_strictly_increases(64, 120);
    }
    let (product, k) = to_double(digits * 1000);
    whole_of(negative, product, scale + k as i32, round)
}

/// The milliseconds in a number of seconds, given by its bit pattern, without the fraction.
pub fn millis_cut_off(bits: u64) -> (r: i64)
    ensures
        r == truncated_millis(bits),
{
    to_millis(bits, false)
}

/// The milliseconds in a number of seconds, given by its bit pattern, to the nearest one.
pub fn millis_rounded(bits: u64) -> (r: i64)
    ensures
        r == rounded_millis(bits),
{
    to_millis(bits, true)
}

// ------------------------------------------------------------------- whole seconds

/// The double nearest to a thousandth of a whole number, as a multiple of `2^-62`.
pub open spec fn thousandth(n: nat) -> nat {
    let scaled = n * pow2(62);
    let k = excess_bits(scaled / 1000);
    nearest_even(scaled, 1000 * pow2(k)) * pow2(k)
}

/// The whole seconds nearest to a number of milliseconds, as doubles compute them: the
/// milliseconds become a double, which is divided by 1000 and rounded, halves away from zero.
pub open spec fn whole_seconds(ms: i64) -> int {
    let n = if ms < 0 {
        -(ms as int)
    } else {
        ms as int
    };
    let seconds = (thousandth(truncated(nearest_double(n as nat))) + pow2(61)) / pow2(62);
    if ms < 0 {
        -(seconds as int)
    } else {
        seconds as int
    }
}

/// The whole seconds nearest to a number of milliseconds.
pub fn seconds_rounded(ms: i64) -> (seconds: i64)
    ensures
        seconds == whole_seconds(ms),
{
    let n: u128 = if ms < 0 {
        -(ms as i128) as u128
    } else {
        ms as u128
    };
    proof {
        lemma2_to64();
        lemma2_to64_rest();
        lemma_pow2_strictly_increases(64, 120);
    }
    let (digits, k) = to_double(n);
    proof {
        excess_bits_bound(n as nat, 64);
    }
    let p = power_of_two(k);
    proof {
        lemma_pow2_unfold(12);
        if k < 11 {
            lemma_pow2_strictly_increases(k as nat, 11);
        }
        assert(p <= 2048);
        assert(digits * p <= 0x20_0000_0000_0000 * 2048) by (nonlinear_arith)
            requires
                digits <= 0x20_0000_0000_0000,
                p <= 2048,
        ;
    }
    let n1 = digits * p;
    let unit = power_of_two(62);
    let half = power_of_two(61);
    proof {
        assert(n1 <= 0x1_0000_0000_0000_0000);
        assert(n1 * unit <= 0x1_0000_0000_0000_0000 * 0x4000_0000_0000_0000) by (nonlinear_arith)
            requires
                n1 <= 0x1_0000_0000_0000_0000,
                unit <= 0x4000_0000_0000_0000,
        ;
    }
    let scaled = n1 * unit;
    let w = scaled / 1000;
    proof {
        lemma_pow2_adds(60, 60);
    }
    let k2 = count_excess_bits(w);
    let p2 = power_of_two(k2);
    proof {
        if k2 < 67 {
            lemma_pow2_strictly_increases(k2 as nat, 67);
        }
        lemma_pow2_adds(3, 64);
        assert(pow2(3) == 8);
        assert(p2 <= 0x8_0000_0000_0000_0000);
    }
    let q = divide_nearest_even(scaled, 1000 * p2);
    proof {
        vstd::arithmetic::div_mod::lemma_div_denominator(scaled as int, 1000, p2 as int);
        assert(q <= 0x20_0000_0000_0000);
        assert(q * p2 <= 0x20_0000_0000_0000 * 0x8_0000_0000_0000_0000) by (nonlinear_arith)
            requires
                q <= 0x20_0000_0000_0000,
                p2 <= 0x8_0000_0000_0000_0000,
        ;
    }
    let seconds = (q * p2 + half) / unit;
    proof {
        assert(seconds <= i64::MAX) by {
            assert(seconds * unit <= q * p2 + half) by {
                vstd::arithmetic::div_mod::lemma_fundamental_div_mod(
                    (q * p2 + half) as int,
                    unit as int,
                );
                assert(unit * seconds == seconds * unit) by (nonlinear_arith);
            }
            assert(seconds < 0x7fff_ffff_ffff_ffff) by (nonlinear_arith)
                requires
                    seconds * unit <= 0x20_0000_0000_0000 * 0x8_0000_0000_0000_0000
                        + 0x2000_0000_0000_0000,
                    unit == 0x4000_0000_0000_0000,
            ;
        }
    }
    if ms < 0 {
        -(seconds as i64)
    } else {
        seconds as i64
    }
}

} // verus!
