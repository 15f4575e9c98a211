//! How seconds and milliseconds become one another.

use vstd::arithmetic::div_mod::{
    lemma_fundamental_div_mod, lemma_fundamental_div_mod_converse, lemma_mod_multiples_basic,
};
use vstd::arithmetic::power2::{
    lemma2_to64, lemma2_to64_rest, lemma_pow2_adds, lemma_pow2_pos, lemma_pow2_strictly_increases,
    pow2,
};
use vstd::prelude::*;

use crate::double::{
    excess_bits, excess_bits_bound, exponent_field, fraction_field, is_negative, magnitude,
    nearest_double, nearest_even, rounded, rounded_millis, saturated, thousandfold, thousandth,
    truncated, truncated_millis, whole_seconds, Magnitude,
};

verus! {

/// The nearest whole number is no further than half of one away, and the quotient itself where it
/// is whole.
pub proof fn the_nearest_is_near(n: nat, d: nat)
    requires
        d > 0,
    ensures
        -(d as int) <= 2 * (nearest_even(n, d) * d - n) <= d,
        n % d == 0 ==> nearest_even(n, d) * d == n,
{
    let low = n / d;
    let rest = n % d;
    lemma_fundamental_div_mod(n as int, d as int);
    assert(low * d + rest == n) by (nonlinear_arith)
        requires
            n == d * low + rest,
    ;
    assert((low + 1) * d == low * d + d) by (nonlinear_arith);
}

/// A length of less than a million million milliseconds is the nearest number of whole seconds,
/// half a second counting as one. Lengths before zero mirror those behind it.
pub proof fn a_length_is_the_nearest_whole_second(ms: i64)
    requires
        ms < 1_000_000_000_000,
    ensures
        0 <= ms ==> whole_seconds(ms) == (ms + 500) / 1000,
        0 < ms ==> whole_seconds((-ms) as i64) == -whole_seconds(ms),
{
    if ms >= 0 {
        lemma2_to64();
        lemma2_to64_rest();
        let n = ms as nat;
        assert(nearest_even(n, 1) == n);
        assert(truncated(nearest_double(n)) == n) by {
            assert(n * 1 == n);
        }
        let unit = pow2(62);
        let scaled = n * unit;
        let k = excess_bits(scaled / 1000);
        lemma_pow2_adds(40, 62);
        assert(scaled < pow2(102)) by (nonlinear_arith)
            requires
                n < 0x100_0000_0000,
                pow2(40) == 0x100_0000_0000,
                unit > 0,
                scaled == n * unit,
                pow2(102) == pow2(40) * unit,
        ;
        excess_bits_bound(scaled / 1000, 102);
        assert(k <= 49);
        if k < 49 {
            lemma_pow2_strictly_increases(k, 49);
        }
        let p = pow2(k);
        lemma_pow2_pos(k);
        let d = 1000 * p;
        let q = nearest_even(scaled, d);
        let t = q * p;
        the_nearest_is_near(scaled, d);
        assert(q * d == 1000 * t) by (nonlinear_arith)
            requires
                d == 1000 * p,
                t == q * p,
        ;
        assert(p <= 0x2_0000_0000_0000);
        let a = n as int / 1000;
        let r = n as int % 1000;
        assert(unit == 0x4000_0000_0000_0000);
        assert(scaled == 1000 * (a * unit) + r * unit) by (nonlinear_arith)
            requires
                scaled == n * unit,
                n == 1000 * a + r,
        ;
        let s = t - a * unit;
        assert(t == a * unit + s);
        if r == 500 {
            lemma_pow2_adds(k, (61 - k) as nat);
            let rest = pow2((61 - k) as nat);
            let times = (2 * a + 1) * rest;
            assert(scaled == d * times) by (nonlinear_arith)
                requires
                    scaled == 1000 * (a * unit) + r * unit,
                    r == 500,
                    unit == 2 * (p * rest),
                    d == 1000 * p,
                    times == (2 * a + 1) * rest,
            ;
            assert(times >= 0) by (nonlinear_arith)
                requires
                    times == (2 * a + 1) * rest,
                    a >= 0,
                    rest >= 0,
            ;
            lemma_mod_multiples_basic(times, d as int);
            assert(times * d == d * times) by (nonlinear_arith);
            assert(scaled % d == 0);
        }
        let whole = if r < 500 {
            a
        } else {
            a + 1
        };
        let left = if r < 500 {
            s + pow2(61)
        } else {
            s + pow2(61) - unit
        };
        assert((a + 1) * unit == a * unit + unit) by (nonlinear_arith);
        assert(t + pow2(61) == whole * unit + left);
        assert(0 <= left < unit);
        lemma_fundamental_div_mod_converse(
            (t + pow2(61)) as int,
            unit as int,
            whole,
            left,
        );
        assert(thousandth(n) == t);
    }
}

/// A number of whole seconds, held as a double, is a thousand times as many milliseconds, cut off
/// or rounded.
pub proof fn whole_seconds_are_a_thousand_milliseconds(bits: u64, j: nat, seconds: nat)
    requires
        exponent_field(bits) < 2047,
        magnitude(bits).exponent == -j,
        11 <= j,
        magnitude(bits).digits == seconds * pow2(j),
    ensures
        !is_negative(bits) ==> truncated_millis(bits) == 1000 * seconds && rounded_millis(bits)
            == 1000 * seconds,
        is_negative(bits) ==> truncated_millis(bits) == -(1000 * seconds) && rounded_millis(bits)
            == -(1000 * seconds),
{
    let m = magnitude(bits);
    let product = m.digits * 1000;
    let k = a_product_keeps_its_digits(bits);
    let d = nearest_even(product, pow2(k));
    let step = pow2((j - k) as nat);
    lemma_pow2_adds(k, (j - k) as nat);
    lemma_pow2_pos(k);
    lemma_pow2_pos((j - k) as nat);
    let times = 1000 * seconds * step;
    assert(product == pow2(k) * times) by (nonlinear_arith)
        requires
            product == seconds * pow2(j) * 1000,
            pow2(j) == pow2(k) * step,
            times == 1000 * seconds * step,
    ;
    lemma_mod_multiples_basic(times as int, pow2(k) as int);
    assert(times * pow2(k) == pow2(k) * times) by (nonlinear_arith);
    the_nearest_is_near(product, pow2(k));
    assert(d == times) by (nonlinear_arith)
        requires
            d * pow2(k) == times * pow2(k),
            pow2(k) > 0,
    ;
    let half = pow2((j - k - 1) as nat);
    lemma_pow2_pos((j - k - 1) as nat);
    lemma_pow2_adds((j - k - 1) as nat, 1);
    lemma2_to64();
    assert(half < step);
    assert(d == (1000 * seconds) * step) by (nonlinear_arith)
        requires
            d == times,
            times == 1000 * seconds * step,
    ;
    lemma_fundamental_div_mod_converse(d as int, step as int, (1000 * seconds) as int, 0);
    lemma_fundamental_div_mod_converse(
        (d + half) as int,
        step as int,
        (1000 * seconds) as int,
        half as int,
    );
    assert(thousandfold(bits) == (Magnitude { digits: d, exponent: k - j }));
    assert(truncated(thousandfold(bits)) == 1000 * seconds);
    assert(rounded(thousandfold(bits)) == 1000 * seconds);
    few_seconds_fit(m.digits, j, seconds);
}

proof fn few_seconds_fit(digits: nat, j: nat, seconds: nat)
    requires
        digits == seconds * pow2(j),
        digits < 0x20_0000_0000_0000,
        11 <= j,
    ensures
        1000 * seconds < 0x7fff_ffff_ffff_ffff,
{
    lemma_pow2_pos(j);
    assert(seconds <= digits) by (nonlinear_arith)
        requires
            digits == seconds * pow2(j),
            pow2(j) >= 1,
    ;
}

proof fn a_product_keeps_its_digits(bits: u64) -> (k: nat)
    requires
        exponent_field(bits) < 2047,
    ensures
        k == excess_bits(magnitude(bits).digits * 1000),
        k <= 10,
        magnitude(bits).digits < 0x20_0000_0000_0000,
{
    lemma2_to64_rest();
    let product = magnitude(bits).digits * 1000;
    assert(magnitude(bits).digits < 0x20_0000_0000_0000);
    assert(product < pow2(63));
    excess_bits_bound(product, 63);
    excess_bits(product)
}

/// A number of seconds with a fraction, held as a double, is a thousand times as many
/// milliseconds: less than one is cut off, and no more than half of one is rounded, but for what
/// the double itself cannot hold.
pub proof fn seconds_are_a_thousand_milliseconds(bits: u64, j: nat)
    requires
        !is_negative(bits),
        exponent_field(bits) < 2047,
        magnitude(bits).exponent == -j,
        11 <= j,
    ensures
        ({
            let exact = 1000 * magnitude(bits).digits;
            let cut = truncated_millis(bits) as int;
            let near = rounded_millis(bits) as int;
            &&& cut * pow2(j) <= exact + 512
            &&& exact - 512 < (cut + 1) * pow2(j)
            &&& 2 * (near * pow2(j)) <= 2 * exact + pow2(j) + 1024
            &&& 2 * exact - 1024 < 2 * (near * pow2(j)) + pow2(j)
        }),
{
    let m = magnitude(bits);
    let product = m.digits * 1000;
    let k = a_product_keeps_its_digits(bits);
    let p = pow2(k);
    let d = nearest_even(product, p);
    let step = pow2((j - k) as nat);
    lemma2_to64();
    lemma_pow2_adds(k, (j - k) as nat);
    lemma_pow2_pos(k);
    lemma_pow2_pos((j - k) as nat);
    if k < 10 {
        lemma_pow2_strictly_increases(k, 10);
    }
    the_nearest_is_near(product, p);
    let half = pow2((j - k - 1) as nat);
    lemma_pow2_pos((j - k - 1) as nat);
    lemma_pow2_adds((j - k - 1) as nat, 1);
    let cut = d as int / step as int;
    let near = (d + half) as int / step as int;
    lemma_fundamental_div_mod(d as int, step as int);
    lemma_fundamental_div_mod((d + half) as int, step as int);
    let e = d * p;
    assert(pow2(j) == p * step);
    assert(cut * pow2(j) <= e && e < (cut + 1) * pow2(j)) by (nonlinear_arith)
        requires
            d == step * cut + d as int % step as int,
            0 <= d as int % step as int,
            d as int % (step as int) < step,
            pow2(j) == p * step,
            e == d * p,
            p > 0,
    ;
    assert(2 * (near * pow2(j)) <= 2 * e + pow2(j) && 2 * e + pow2(j) < 2 * ((near + 1) * pow2(
        j,
    ))) by (nonlinear_arith)
        requires
            d + half == step * near + (d + half) as int % step as int,
            0 <= (d + half) as int % step as int,
            (d + half) as int % (step as int) < step,
            step == 2 * half,
            pow2(j) == p * step,
            e == d * p,
            p > 0,
    ;
    assert((near + 1) * pow2(j) == near * pow2(j) + pow2(j)) by (nonlinear_arith);
    assert(thousandfold(bits) == (Magnitude { digits: d, exponent: k - j }));
    assert(truncated(thousandfold(bits)) == cut);
    assert(rounded(thousandfold(bits)) == near);
    assert(d <= product + 1024) by (nonlinear_arith)
        requires
            2 * (d * p - product) <= p,
            p <= 1024,
            p >= 1,
    ;
    assert(half <= step);
    assert(cut <= d) by (nonlinear_arith)
        requires
            d == step * cut + d as int % step as int,
            0 <= d as int % step as int,
            step >= 1,
            d >= 0,
    ;
    assert(near <= d + 1) by (nonlinear_arith)
        requires
            d + half == step * near + (d + half) as int % step as int,
            0 <= (d + half) as int % step as int,
            step == 2 * half,
            half >= 1,
            d >= 0,
    ;
    assert(cut >= 0 && near >= 0) by {
        vstd::arithmetic::div_mod::lemma_div_pos_is_pos(d as int, step as int);
        vstd::arithmetic::div_mod::lemma_div_pos_is_pos((d + half) as int, step as int);
    }
}

/// What is beyond the range of an `i64` is held at its end, and what is no number is zero.
pub proof fn what_does_not_fit_is_held(bits: u64)
    ensures
        exponent_field(bits) == 2047 && fraction_field(bits) != 0 ==> truncated_millis(bits) == 0
            && rounded_millis(bits) == 0,
        exponent_field(bits) == 2047 && fraction_field(bits) == 0 && is_negative(bits)
            ==> truncated_millis(bits) == i64::MIN && rounded_millis(bits) == i64::MIN,
        exponent_field(bits) == 2047 && fraction_field(bits) == 0 && !is_negative(bits)
            ==> truncated_millis(bits) == i64::MAX && rounded_millis(bits) == i64::MAX,
        forall|n: nat| n <= i64::MAX ==> #[trigger] saturated(false, n) == n,
        forall|n: nat| n > i64::MAX ==> #[trigger] saturated(false, n) == i64::MAX,
        forall|n: nat| n <= -i64::MIN ==> #[trigger] saturated(true, n) == -(n as int),
        forall|n: nat| n > -i64::MIN ==> #[trigger] saturated(true, n) == i64::MIN,
{
}

} // verus!
