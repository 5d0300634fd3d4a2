//! IEEE-754 numbers as their bit patterns: conversions between widths and to
//! and from integers, comparison, and fixed-point text. Nothing here does
//! arithmetic on the numbers.

use crate::text;
use vstd::arithmetic::div_mod::lemma_div_denominator;
use vstd::prelude::*;

verus! {

/// 2 to the power of `n`.
pub open spec fn two_to(n: nat) -> nat
    decreases n,
{
    if n == 0 {
        1
    } else {
        2 * two_to((n - 1) as nat)
    }
}

pub proof fn lemma_two_to_positive(n: nat)
    ensures
        two_to(n) > 0,
    decreases n,
{
    if n > 0 {
        lemma_two_to_positive((n - 1) as nat);
    }
}

pub proof fn lemma_two_to_monotone(a: nat, b: nat)
    requires
        a <= b,
    ensures
        two_to(a) <= two_to(b),
    decreases b,
{
    if a < b {
        lemma_two_to_monotone(a, (b - 1) as nat);
    }
}

#[verifier::rlimit(40)]
proof fn lemma_two_to_values()
    ensures
        two_to(22) == 0x40_0000,
        two_to(23) == 0x80_0000,
        two_to(29) == 0x2000_0000,
        two_to(52) == 0x10_0000_0000_0000,
        two_to(53) == 0x20_0000_0000_0000,
        two_to(54) == 0x40_0000_0000_0000,
        two_to(64) == 0x1_0000_0000_0000_0000,
        two_to(74) == 0x400_0000_0000_0000_0000,
        two_to(75) == 0x800_0000_0000_0000_0000,
        two_to(127) == 0x8000_0000_0000_0000_0000_0000_0000_0000,
{
    reveal_with_fuel(two_to, 23);
    assert(two_to(22) == 0x40_0000);
    assert(two_to(44) == 0x40_0000 * two_to(22)) by {
        reveal_with_fuel(two_to, 23);
    }
    reveal_with_fuel(two_to, 32);
    assert(two_to(75) == 0x8000_0000 * two_to(44));
    assert(two_to(105) == 0x4000_0000 * two_to(75));
    assert(two_to(127) == 0x40_0000 * two_to(105));
}

/// Whether the sign bit of a double is set.
pub open spec fn negative64(b: u64) -> bool {
    b >= 0x8000_0000_0000_0000
}

/// The biased exponent of a double.
pub open spec fn exp64(b: u64) -> nat {
    b as nat / 0x10_0000_0000_0000 % 0x800
}

/// The fraction field of a double.
pub open spec fn frac64(b: u64) -> nat {
    b as nat % 0x10_0000_0000_0000
}

/// Whether a double is not a number.
pub open spec fn is_nan64(b: u64) -> bool {
    exp64(b) == 0x7ff && frac64(b) != 0
}

/// Whether a double is infinite.
pub open spec fn is_inf64(b: u64) -> bool {
    exp64(b) == 0x7ff && frac64(b) == 0
}

/// The integer that, scaled by `2^(scale64 - 1075)`, is the magnitude of a
/// finite double.
pub open spec fn mantissa64(b: u64) -> nat {
    if exp64(b) == 0 {
        frac64(b)
    } else {
        frac64(b) + 0x10_0000_0000_0000
    }
}

/// The exponent that scales the mantissa of a finite double.
pub open spec fn scale64(b: u64) -> nat {
    if exp64(b) == 0 {
        1
    } else {
        exp64(b)
    }
}

/// The magnitude of a finite double without its fractional part.
pub open spec fn whole64(b: u64) -> nat {
    if scale64(b) >= 1075 {
        mantissa64(b) * two_to((scale64(b) - 1075) as nat)
    } else {
        mantissa64(b) / two_to((1075 - scale64(b)) as nat)
    }
}

/// `v` if it lies between `min` and `max`, else the nearer of the two.
pub open spec fn clamped(v: int, min: int, max: int) -> int {
    if v < min {
        min
    } else if v > max {
        max
    } else {
        v
    }
}

/// A double converted to an integer between `min` and `max`: its fractional
/// part is cut off, what lies outside becomes the nearer bound, and what is
/// not a number becomes zero.
pub open spec fn to_int64(b: u64, min: int, max: int) -> int {
    if is_nan64(b) {
        0
    } else if is_inf64(b) {
        if negative64(b) {
            min
        } else {
            max
        }
    } else if negative64(b) {
        clamped(-(whole64(b) as int), min, max)
    } else {
        clamped(whole64(b) as int, min, max)
    }
}

proof fn lemma_half_of_quotient(m: nat, i: nat)
    ensures
        m / two_to(i) / 2 == m / two_to(i + 1),
{
    lemma_two_to_positive(i);
    lemma_div_denominator(m as int, two_to(i) as int, 2);
    assert(two_to(i) * 2 == two_to(i + 1));
}

/// `m` divided by `2^k`, rounded down.
fn shift_down(m: u128, k: u32) -> (r: u128)
    ensures
        r == m as nat / two_to(k as nat),
{
    let mut acc: u128 = m;
    let mut i: u32 = 0;
    assert(two_to(0) == 1);
    while i < k
        invariant
            i <= k,
            acc == m as nat / two_to(i as nat),
        decreases k - i,
    {
        proof {
            lemma_half_of_quotient(m as nat, i as nat);
        }
        acc = acc / 2;
        i = i + 1;
    }
    acc
}

/// `m` times `2^k`.
fn shift_up(m: u128, k: u32) -> (r: u128)
    requires
        m as nat * two_to(k as nat) <= u128::MAX,
    ensures
        r == m as nat * two_to(k as nat),
{
    let mut acc: u128 = m;
    let mut i: u32 = 0;
    assert(m as nat * two_to(0) == m as nat) by {
        assert(two_to(0) == 1);
    }
    while i < k
        invariant
            i <= k,
            acc == m as nat * two_to(i as nat),
            m as nat * two_to(k as nat) <= u128::MAX,
        decreases k - i,
    {
        proof {
            lemma_two_to_monotone((i + 1) as nat, k as nat);
            let p = two_to(i as nat);
            let q = two_to((i + 1) as nat);
            let t = two_to(k as nat);
            assert(m as nat * q <= m as nat * t) by (nonlinear_arith)
                requires
                    q <= t,
            ;
            assert(m as nat * (2 * p) == 2 * (m as nat * p)) by (nonlinear_arith);
        }
        acc = acc * 2;
        i = i + 1;
    }
    acc
}

fn exponent_of(b: u64) -> (r: u32)
    ensures
        r == exp64(b),
{
    (b / 0x10_0000_0000_0000 % 0x800) as u32
}

fn fraction_of(b: u64) -> (r: u64)
    ensures
        r == frac64(b),
{
    b % 0x10_0000_0000_0000
}

fn mantissa_of(b: u64) -> (r: u64)
    ensures
        r == mantissa64(b),
        r < 0x20_0000_0000_0000,
{
    if exponent_of(b) == 0 {
        fraction_of(b)
    } else {
        fraction_of(b) + 0x10_0000_0000_0000
    }
}

/// Whether a double is not a number.
pub fn is_nan(b: u64) -> (r: bool)
    ensures
        r == is_nan64(b),
{
    exponent_of(b) == 0x7ff && fraction_of(b) != 0
}

/// The magnitude of a finite double without its fractional part, or `2^127`
/// where that is less.
fn whole_capped(b: u64) -> (r: u128)
    requires
        exp64(b) < 0x7ff,
    ensures
        whole64(b) < two_to(127) ==> r == whole64(b),
        whole64(b) >= two_to(127) ==> r == two_to(127),
{
    let e: u32 = exponent_of(b);
    let m: u64 = mantissa_of(b);
    let scale: u32 = if e == 0 {
        1
    } else {
        e
    };
    proof {
        lemma_two_to_values();
    }
    if scale < 1075 {
        let k: u32 = 1075 - scale;
        proof {
            lemma_two_to_positive(k as nat);
            let d = two_to(k as nat);
            assert(m as nat / d <= m as nat) by (nonlinear_arith)
                requires
                    d > 0,
            ;
        }
        return shift_down(m as u128, k);
    }
    let k: u32 = scale - 1075;
    if k <= 74 {
        proof {
            lemma_two_to_monotone(k as nat, 74);
            let p = two_to(k as nat);
            let mm = m as nat;
            assert(mm * p < 0x20_0000_0000_0000 * 0x400_0000_0000_0000_0000) by (nonlinear_arith)
                requires
                    mm < 0x20_0000_0000_0000,
                    p <= 0x400_0000_0000_0000_0000,
                    p >= 0,
            ;
        }
        return shift_up(m as u128, k);
    }
    proof {
        lemma_two_to_monotone(75, k as nat);
        let p = two_to(k as nat);
        let mm = m as nat;
        assert(mm * p >= 0x10_0000_0000_0000 * 0x800_0000_0000_0000_0000) by (nonlinear_arith)
            requires
                mm >= 0x10_0000_0000_0000,
                p >= 0x800_0000_0000_0000_0000,
        ;
    }
    0x8000_0000_0000_0000_0000_0000_0000_0000
}

/// A double converted to a 128-bit integer.
pub fn to_i128(b: u64) -> (r: i128)
    ensures
        r == to_int64(b, i128::MIN as int, i128::MAX as int),
{
    proof {
        lemma_two_to_values();
    }
    if exponent_of(b) == 0x7ff {
        if fraction_of(b) != 0 {
            return 0;
        }
        return if b >= 0x8000_0000_0000_0000 {
            i128::MIN
        } else {
            i128::MAX
        };
    }
    let w: u128 = whole_capped(b);
    if w >= 0x8000_0000_0000_0000_0000_0000_0000_0000 {
        if b >= 0x8000_0000_0000_0000 {
            i128::MIN
        } else {
            i128::MAX
        }
    } else if b >= 0x8000_0000_0000_0000 {
        -(w as i128)
    } else {
        w as i128
    }
}

/// A double converted to an integer between `min` and `max`.
pub fn to_int(b: u64, min: i64, max: i64) -> (r: i64)
    requires
        min <= max,
    ensures
        r == to_int64(b, min as int, max as int),
{
    let v: i128 = to_i128(b);
    if is_nan(b) {
        return 0;
    }
    if v < min as i128 {
        min
    } else if v > max as i128 {
        max
    } else {
        v as i64
    }
}

/// A double converted to an unsigned 32-bit integer.
pub fn to_u32(b: u64) -> (r: u32)
    ensures
        r == to_int64(b, 0, u32::MAX as int),
{
    to_int(b, 0, 0xffff_ffff) as u32
}

/// A double converted to an unsigned 64-bit integer.
pub fn to_u64(b: u64) -> (r: u64)
    ensures
        r == to_int64(b, 0, u64::MAX as int),
{
    let v: i128 = to_i128(b);
    if v < 0 || is_nan(b) {
        0
    } else if v > 0xffff_ffff_ffff_ffff {
        u64::MAX
    } else {
        v as u64
    }
}

/// The double 1000 is the whole number 1000.
pub proof fn lemma_thousand_is_whole()
    ensures
        to_int64(0x408f_4000_0000_0000, 0, u64::MAX as int) == 1000,
{
    let b: u64 = 0x408f_4000_0000_0000;
    assert(exp64(b) == 0x408);
    assert(frac64(b) == 0xf_4000_0000_0000);
    lemma_two_to_values();
    assert(two_to(43) == 0x800_0000_0000) by {
        assert(two_to(52) == 0x200 * two_to(43)) by {
            reveal_with_fuel(two_to, 10);
        }
    }
    assert(mantissa64(b) == 0x1f_4000_0000_0000);
    assert(scale64(b) == 1032);
    assert((1075 - scale64(b)) as nat == 43);
    assert(0x1f_4000_0000_0000nat / 0x800_0000_0000nat == 1000);
    assert(whole64(b) == 1000);
}

/// The place of a double in the order of all doubles that are numbers. Both
/// zeros have the same place.
pub open spec fn order64(b: u64) -> int {
    if negative64(b) {
        -(b - 0x8000_0000_0000_0000)
    } else {
        b as int
    }
}

/// Whether `a` is at most `b`; false where one is not a number.
pub open spec fn at_most(a: u64, b: u64) -> bool {
    !is_nan64(a) && !is_nan64(b) && order64(a) <= order64(b)
}

/// Whether `a` is at most `b`.
pub fn le(a: u64, b: u64) -> (r: bool)
    ensures
        r == at_most(a, b),
{
    if is_nan(a) || is_nan(b) {
        return false;
    }
    place(a) <= place(b)
}

/// Whether `b` is a number below zero.
pub fn is_below_zero(b: u64) -> (r: bool)
    ensures
        r == (!is_nan64(b) && order64(b) < 0),
{
    !is_nan(b) && place(b) < 0
}

fn place(b: u64) -> (r: i64)
    ensures
        r == order64(b),
{
    if b >= 0x8000_0000_0000_0000 {
        -((b - 0x8000_0000_0000_0000) as i64)
    } else {
        b as i64
    }
}

/// Truncation keeps the order of the numbers it is given.
pub proof fn law_truncation_is_monotone(a: u64, b: u64, min: int, max: int)
    requires
        at_most(a, b),
        min <= 0 <= max,
    ensures
        to_int64(a, min, max) <= to_int64(b, min, max),
{
    if exp64(a) < 0x7ff && exp64(b) < 0x7ff {
        if !negative64(a) && !negative64(b) {
            lemma_whole_monotone(a, b);
        } else if negative64(a) && negative64(b) {
            lemma_whole_monotone(b, a);
        } else if negative64(b) {
            lemma_zero_is_whole(a);
            lemma_zero_is_whole(b);
        }
    } else if exp64(a) == 0x7ff && !negative64(a) {
        assert(a == 0x7ff0_0000_0000_0000);
        assert(b >= a && !negative64(b));
        assert(exp64(b) == 0x7ff);
    } else if exp64(b) == 0x7ff && negative64(b) {
        assert(b == 0xfff0_0000_0000_0000);
        assert(negative64(a) && a >= b);
        assert(exp64(a) == 0x7ff);
    }
}

proof fn lemma_zero_is_whole(b: u64)
    requires
        order64(b) == 0,
    ensures
        whole64(b) == 0,
{
    lemma_two_to_positive(1074);
    vstd::arithmetic::div_mod::lemma_div_basics_1(two_to(1074) as int);
}

proof fn lemma_whole_monotone(a: u64, b: u64)
    requires
        a as nat % 0x8000_0000_0000_0000 <= b as nat % 0x8000_0000_0000_0000,
        exp64(a) < 0x7ff,
        exp64(b) < 0x7ff,
    ensures
        whole64(a) <= whole64(b),
{
    let ma = mantissa64(a);
    let mb = mantissa64(b);
    let sa = scale64(a);
    let sb = scale64(b);
    assert(exp64(a) <= exp64(b));
    if sa == sb {
        assert(ma <= mb);
        if sa >= 1075 {
            let p = two_to((sa - 1075) as nat);
            assert(ma * p <= mb * p) by (nonlinear_arith)
                requires
                    ma <= mb,
            ;
        } else {
            let p = two_to((1075 - sa) as nat);
            lemma_two_to_positive((1075 - sa) as nat);
            vstd::arithmetic::div_mod::lemma_div_is_ordered(ma as int, mb as int, p as int);
        }
    } else {
        assert(sa < sb);
        // One step up in the exponent at least doubles the magnitude, and the
        // larger mantissa is at least half of the smaller number's next power.
        assert(mb >= 0x10_0000_0000_0000);
        assert(ma < 0x20_0000_0000_0000);
        assert(ma < 2 * mb);
        let d = (sb - sa) as nat;
        if sa >= 1075 {
            let p = two_to((sa - 1075) as nat);
            let q = two_to((sb - 1075) as nat);
            lemma_two_to_monotone((sa - 1075 + 1) as nat, (sb - 1075) as nat);
            assert(q >= 2 * p);
            assert(ma * p <= mb * q) by (nonlinear_arith)
                requires
                    ma < 2 * mb,
                    q >= 2 * p,
                    p >= 0,
                    mb >= 0,
            ;
        } else if sb < 1075 {
            let p = two_to((1075 - sa) as nat);
            let q = two_to((1075 - sb) as nat);
            lemma_two_to_monotone((1075 - sb + 1) as nat, (1075 - sa) as nat);
            lemma_two_to_positive((1075 - sb) as nat);
            assert(p >= 2 * q);
            vstd::arithmetic::div_mod::lemma_div_is_ordered(ma as int, (2 * mb) as int, p as int);
            vstd::arithmetic::div_mod::lemma_div_is_ordered_by_denominator(
                (2 * mb) as int,
                (2 * q) as int,
                p as int,
            );
            lemma_div_denominator((2 * mb) as int, 2, q as int);
        } else {
            let p = two_to((1075 - sa) as nat);
            let q = two_to((sb - 1075) as nat);
            lemma_two_to_positive((sb - 1075) as nat);
            lemma_two_to_monotone(1, (1075 - sa) as nat);
            reveal_with_fuel(two_to, 2);
            assert(p >= 2);
            vstd::arithmetic::div_mod::lemma_div_is_ordered(ma as int, (2 * mb) as int, p as int);
            vstd::arithmetic::div_mod::lemma_div_is_ordered_by_denominator(
                (2 * mb) as int,
                2,
                p as int,
            );
            assert(mb * q >= mb) by (nonlinear_arith)
                requires
                    q >= 1,
            ;
        }
    }
}

/// The largest `k` with `2^k <= v`, for a positive `v`.
pub open spec fn log2(v: nat) -> nat
    decreases v,
{
    if v < 2 {
        0
    } else {
        1 + log2(v / 2)
    }
}

/// `m` divided by `2^s`, rounded to the nearest integer, and to the even one
/// where two are equally near.
pub open spec fn rounded(m: nat, s: nat) -> nat {
    let d = two_to(s);
    let q = m / d;
    let r = m % d;
    if 2 * r > d || (2 * r == d && q % 2 == 1) {
        q + 1
    } else {
        q
    }
}

/// The bits of the double nearest to `v`.
pub open spec fn double_of_nat(v: nat) -> nat {
    if v == 0 {
        0
    } else {
        let k = log2(v);
        let m = if k <= 52 {
            v * two_to((52 - k) as nat)
        } else {
            rounded(v, (k - 52) as nat)
        };
        (k + 1023) * 0x10_0000_0000_0000 + (m - 0x10_0000_0000_0000) as nat
    }
}

/// The bits of the double nearest to `v`.
pub open spec fn double_of_int(v: int) -> nat {
    if v < 0 {
        0x8000_0000_0000_0000 + double_of_nat((-v) as nat)
    } else {
        double_of_nat(v as nat)
    }
}

proof fn lemma_log2(v: nat)
    requires
        v > 0,
    ensures
        two_to(log2(v)) <= v < 2 * two_to(log2(v)),
    decreases v,
{
    if v >= 2 {
        lemma_log2(v / 2);
    } else {
        reveal_with_fuel(two_to, 2);
    }
}

proof fn lemma_log2_bound(v: nat, k: nat)
    requires
        0 < v < two_to(k),
    ensures
        log2(v) < k,
{
    lemma_log2(v);
    if log2(v) >= k {
        lemma_two_to_monotone(k, log2(v));
    }
}

fn log2_of(v: u128) -> (r: u32)
    requires
        v > 0,
    ensures
        r == log2(v as nat),
        r < 128,
{
    let mut rest: u128 = v;
    let mut k: u32 = 0;
    proof {
        lemma_two_to_values();
        reveal_with_fuel(two_to, 2);
        assert(two_to(128) == 2 * two_to(127));
        lemma_log2_bound(v as nat, 128);
    }
    while rest >= 2
        invariant
            rest > 0,
            k + log2(rest as nat) == log2(v as nat),
            log2(v as nat) < 128,
        decreases rest,
    {
        rest = rest / 2;
        k = k + 1;
    }
    k
}

/// `m` divided by `2^s`, rounded to the nearest integer, ties to even.
fn round_down(m: u128, s: u32) -> (r: u128)
    requires
        s <= 126,
    ensures
        r == rounded(m as nat, s as nat),
        r <= m as nat / two_to(s as nat) + 1,
{
    proof {
        lemma_two_to_values();
        lemma_two_to_monotone(s as nat, 126);
        reveal_with_fuel(two_to, 2);
        lemma_two_to_positive(s as nat);
        assert(two_to(127) == 2 * two_to(126));
        assert(1 * two_to(s as nat) == two_to(s as nat));
    }
    let d: u128 = shift_up(1, s);
    let q: u128 = m / d;
    let r: u128 = m % d;
    let twice: u128 = r * 2;
    if twice > d || (twice == d && q % 2 == 1) {
        proof {
            assert(q < u128::MAX) by {
                if s == 0 {
                    assert(d == 1);
                    assert(r == 0) by {
                        vstd::arithmetic::div_mod::lemma_mod_bound(m as int, 1);
                    }
                } else {
                    lemma_two_to_monotone(1, s as nat);
                    assert(d >= 2);
                    let mm = m as int;
                    let dd = d as int;
                    assert(mm / dd <= mm / 2) by {
                        vstd::arithmetic::div_mod::lemma_div_is_ordered_by_denominator(mm, 2, dd);
                    }
                }
            }
        }
        q + 1
    } else {
        q
    }
}

proof fn lemma_double_of_nat_bound(v: nat)
    requires
        v <= two_to(64),
    ensures
        double_of_nat(v) < 0x7ff0_0000_0000_0000,
        v > 0 ==> log2(v) <= 64 && (if log2(v) <= 52 {
            0x10_0000_0000_0000 <= v * two_to((52 - log2(v)) as nat) < 0x20_0000_0000_0000
        } else {
            0x10_0000_0000_0000 <= rounded(v, (log2(v) - 52) as nat) <= 0x20_0000_0000_0000
        }),
        v > 0 ==> double_of_nat(v) >= (log2(v) + 1023) * 0x10_0000_0000_0000,
        v > 0 ==> double_of_nat(v) <= (log2(v) + 1024) * 0x10_0000_0000_0000,
{
    lemma_two_to_values();
    if v > 0 {
        let k = log2(v);
        reveal_with_fuel(two_to, 2);
        assert(two_to(65) == 2 * two_to(64));
        lemma_log2_bound(v, 65);
        lemma_log2(v);
        if k <= 52 {
            lemma_two_to_add(k, (52 - k) as nat);
            let p = two_to((52 - k) as nat);
            let t = two_to(k);
            assert(v * p >= t * p) by (nonlinear_arith)
                requires
                    v >= t,
            ;
            lemma_two_to_positive((52 - k) as nat);
            assert(v * p < (2 * t) * p) by (nonlinear_arith)
                requires
                    v < 2 * t,
                    p > 0,
            ;
            assert((2 * t) * p == 2 * (t * p)) by (nonlinear_arith);
        } else {
            let s = (k - 52) as nat;
            lemma_two_to_add(52, s);
            let d = two_to(s);
            lemma_two_to_positive(s);
            let c: int = 0x10_0000_0000_0000;
            vstd::arithmetic::div_mod::lemma_div_is_ordered(c * d, v as int, d as int);
            vstd::arithmetic::div_mod::lemma_div_multiples_vanish(c, d as int);
            assert(c * d == d * c) by (nonlinear_arith);
            assert(v < (2 * c) * d) by {
                assert((2 * c) * d == 2 * (c * d)) by (nonlinear_arith);
            }
            assert((2 * c) * d == d * (2 * c)) by (nonlinear_arith);
            vstd::arithmetic::div_mod::lemma_multiply_divide_lt(v as int, d as int, 2 * c);
        }
    }
}

pub proof fn lemma_two_to_add(a: nat, b: nat)
    ensures
        two_to(a + b) == two_to(a) * two_to(b),
    decreases b,
{
    if b == 0 {
        assert(two_to(a) * 1 == two_to(a));
    } else {
        lemma_two_to_add(a, (b - 1) as nat);
        let x = two_to(a);
        let y = two_to((b - 1) as nat);
        assert(2 * (x * y) == x * (2 * y)) by (nonlinear_arith);
        assert((a + b - 1) as nat == a + (b - 1) as nat);
    }
}

/// The bits of the double nearest to an unsigned number.
pub fn from_unsigned(v: u128) -> (r: u64)
    requires
        v <= 0x1_0000_0000_0000_0000,
    ensures
        r == double_of_nat(v as nat),
        r < 0x7ff0_0000_0000_0000,
{
    proof {
        lemma_two_to_values();
        lemma_double_of_nat_bound(v as nat);
    }
    if v == 0 {
        return 0;
    }
    let k: u32 = log2_of(v);
    let m: u128 = if k <= 52 {
        shift_up(v, 52 - k)
    } else {
        round_down(v, k - 52)
    };
    (k as u64 + 1023) * 0x10_0000_0000_0000 + (m as u64 - 0x10_0000_0000_0000)
}

/// The bits of the double nearest to a signed number.
pub fn from_signed(v: i128) -> (r: u64)
    requires
        -0x1_0000_0000_0000_0000 <= v <= 0x1_0000_0000_0000_0000,
    ensures
        r == double_of_int(v as int),
{
    if v < 0 {
        0x8000_0000_0000_0000 + from_unsigned((-v) as u128)
    } else {
        from_unsigned(v as u128)
    }
}

/// An integer below `2^53` survives the way to a double and back.
pub proof fn law_small_integers_are_exact(v: nat)
    requires
        v < 0x20_0000_0000_0000,
    ensures
        double_of_nat(v) < 0x7ff0_0000_0000_0000,
        whole64(double_of_nat(v) as u64) == v,
{
    lemma_two_to_values();
    if v == 0 {
        lemma_zero_is_whole(0);
    } else {
        lemma_double_of_nat_bound(v);
        let k = log2(v);
        lemma_log2_bound(v, 53);
        let p = two_to((52 - k) as nat);
        let m = v * p;
        let b = double_of_nat(v) as u64;
        assert(b == (k + 1023) * 0x10_0000_0000_0000 + (m - 0x10_0000_0000_0000));
        assert(exp64(b) == k + 1023);
        assert(mantissa64(b) == m);
        lemma_two_to_positive((52 - k) as nat);
        if k == 52 {
            assert(p == 1);
            assert(two_to(0) == 1);
            assert(m * two_to(0) == m) by {
                assert(two_to(0) == 1);
            }
            assert(v * 1 == v);
        } else {
            assert(1075 - scale64(b) == 52 - k);
            assert(v * p == p * v) by (nonlinear_arith);
            vstd::arithmetic::div_mod::lemma_div_multiples_vanish(v as int, p as int);
        }
    }
}

/// The biased exponent of a single.
pub open spec fn exp32(b: u32) -> nat {
    b as nat / 0x80_0000 % 0x100
}

/// The fraction field of a single.
pub open spec fn frac32(b: u32) -> nat {
    b as nat % 0x80_0000
}

/// Whether the sign bit of a single is set.
pub open spec fn negative32(b: u32) -> bool {
    b >= 0x8000_0000
}

/// The bits of the double with the value of a single. What is not a number
/// keeps the head of its fraction.
pub open spec fn widened(b: u32) -> nat {
    let magnitude = if exp32(b) == 0xff {
        0x7ff * 0x10_0000_0000_0000 + frac32(b) * 0x2000_0000
    } else if exp32(b) == 0 {
        if frac32(b) == 0 {
            0
        } else {
            (double_of_nat(frac32(b)) - 149 * 0x10_0000_0000_0000) as nat
        }
    } else {
        (exp32(b) + 896) * 0x10_0000_0000_0000 + frac32(b) * 0x2000_0000
    };
    if negative32(b) {
        0x8000_0000_0000_0000 + magnitude
    } else {
        magnitude
    }
}

/// The bits of the double with the value of a single.
pub fn widen(b: u32) -> (r: u64)
    ensures
        r == widened(b),
{
    let e: u64 = (b / 0x80_0000 % 0x100) as u64;
    let f: u64 = (b % 0x80_0000) as u64;
    let magnitude: u64 = if e == 0xff {
        0x7ff0_0000_0000_0000 + f * 0x2000_0000
    } else if e == 0 {
        if f == 0 {
            0
        } else {
            proof {
                lemma_two_to_values();
                lemma_double_of_nat_bound(f as nat);
            }
            from_unsigned(f as u128) - 149 * 0x10_0000_0000_0000
        }
    } else {
        (e + 896) * 0x10_0000_0000_0000 + f * 0x2000_0000
    };
    proof {
        lemma_two_to_values();
        if 0 < f {
            lemma_double_of_nat_bound(f as nat);
            lemma_log2_bound(f as nat, 23);
        }
    }
    if b >= 0x8000_0000 {
        0x8000_0000_0000_0000 + magnitude
    } else {
        magnitude
    }
}

/// The bits of the single nearest to a double, without the sign: rounded to
/// even where two are equally near, infinite beyond the range.
pub open spec fn narrowed_magnitude(b: u64) -> nat {
    let e = scale64(b) - 896;
    if is_nan64(b) {
        0x7fc0_0000
    } else if e >= 255 {
        0x7f80_0000
    } else if e >= 1 {
        ((e - 1) * 0x80_0000) as nat + rounded(mantissa64(b), 29)
    } else {
        rounded(mantissa64(b), (30 - e) as nat)
    }
}

/// The bits of the single nearest to a double.
pub open spec fn narrowed(b: u64) -> nat {
    if negative64(b) {
        0x8000_0000 + narrowed_magnitude(b)
    } else {
        narrowed_magnitude(b)
    }
}

proof fn lemma_rounds_away(m: nat, s: nat)
    requires
        m < 0x20_0000_0000_0000,
        s >= 55,
    ensures
        rounded(m, s) == 0,
{
    lemma_two_to_values();
    lemma_two_to_monotone(54, s);
    let d = two_to(s);
    vstd::arithmetic::div_mod::lemma_fundamental_div_mod_converse(
        m as int,
        d as int,
        0,
        m as int,
    );
}

/// The bits of the single nearest to a double.
pub fn narrow(b: u64) -> (r: u32)
    ensures
        r == narrowed(b),
{
    let magnitude: u32 = narrow_magnitude(b);
    if b >= 0x8000_0000_0000_0000 {
        0x8000_0000 + magnitude
    } else {
        magnitude
    }
}

fn narrow_magnitude(b: u64) -> (r: u32)
    ensures
        r == narrowed_magnitude(b),
        r < 0x8000_0000,
{
    if is_nan(b) {
        return 0x7fc0_0000;
    }
    let raw: u32 = exponent_of(b);
    let scale: u32 = if raw == 0 {
        1
    } else {
        raw
    };
    let m: u64 = mantissa_of(b);
    proof {
        lemma_two_to_values();
    }
    if scale >= 1151 {
        return 0x7f80_0000;
    }
    if scale >= 897 {
        let q: u128 = round_down(m as u128, 29);
        assert(m as nat / 0x2000_0000 < 0x100_0000);
        return (scale - 897) * 0x80_0000 + q as u32;
    }
    let s: u32 = 926 - scale;
    if s >= 55 {
        proof {
            lemma_rounds_away(m as nat, s as nat);
        }
        return 0;
    }
    proof {
        lemma_two_to_monotone(29, s as nat);
        vstd::arithmetic::div_mod::lemma_div_is_ordered_by_denominator(
            m as int,
            0x2000_0000,
            two_to(s as nat) as int,
        );
    }
    round_down(m as u128, s) as u32
}

/// The number of millionths in the magnitude of a finite double, rounded to
/// the nearest, and to the even one where two are equally near.
pub open spec fn millionths(b: u64) -> nat {
    if scale64(b) >= 1075 {
        1_000_000 * (mantissa64(b) * two_to((scale64(b) - 1075) as nat))
    } else {
        rounded(mantissa64(b) * 1_000_000, (1075 - scale64(b)) as nat)
    }
}

/// The last `n` decimal digits of `v`.
pub open spec fn padded(v: nat, n: nat) -> Seq<char>
    decreases n,
{
    if n == 0 {
        Seq::empty()
    } else {
        padded(v / 10, (n - 1) as nat).push(text::digit_char(v % 10))
    }
}

/// A double with six decimals.
pub open spec fn fixed6(b: u64) -> Seq<char> {
    let sign = if negative64(b) {
        seq!['-']
    } else {
        Seq::empty()
    };
    if is_nan64(b) {
        seq!['N', 'a', 'N']
    } else if is_inf64(b) {
        sign + seq!['i', 'n', 'f']
    } else {
        let n = millionths(b);
        sign + text::decimal(n / 1_000_000) + seq!['.'] + padded(n % 1_000_000, 6)
    }
}

fn push_padded(out: &mut String, v: u64, n: u32)
    ensures
        final(out)@ == old(out)@ + padded(v as nat, n as nat),
    decreases n,
{
    if n > 0 {
        push_padded(out, v / 10, n - 1);
        out.push((48 + (v % 10) as u8) as char);
        proof {
            assert(out@ =~= old(out)@ + padded(v as nat, n as nat));
        }
    }
}

/// The number that decimal digits spell, least significant first.
pub open spec fn digits_number(d: Seq<u8>) -> nat
    decreases d.len(),
{
    if d.len() == 0 {
        0
    } else {
        d[0] as nat + 10 * digits_number(d.skip(1))
    }
}

/// Whether every entry is a decimal digit.
spec fn all_digits(d: Seq<u8>) -> bool {
    forall|i: int| 0 <= i < d.len() ==> #[trigger] d[i] < 10
}

/// Appends the decimal digits of `v`, least significant first.
fn digits_of(v: u64) -> (r: Vec<u8>)
    requires
        v > 0,
    ensures
        all_digits(r@),
        digits_number(r@) == v,
        r@.len() > 0,
        r@.last() != 0,
{
    let mut out: Vec<u8> = Vec::new();
    let mut rest: u64 = v;
    let ghost mut weight: nat = 1;
    proof {
        assert(digits_number(out@) == 0);
    }
    while rest > 0
        invariant
            all_digits(out@),
            digits_number(out@) + weight * rest as nat == v,
            weight == ten_to(out@.len()),
            rest == 0 ==> out@.len() > 0 && out@.last() != 0,
        decreases rest,
    {
        let d: u8 = (rest % 10) as u8;
        let ghost before = out@;
        let ghost r0 = rest as nat;
        out.push(d);
        proof {
            lemma_digits_push(before, d);
            let w = weight;
            assert(w * r0 == w * (r0 % 10) + (10 * w) * (r0 / 10)) by (nonlinear_arith)
                requires
                    r0 == 10 * (r0 / 10) + r0 % 10,
            ;
            weight = 10 * weight;
        }
        rest = rest / 10;
    }
    out
}

/// 10 to the power of `n`.
spec fn ten_to(n: nat) -> nat
    decreases n,
{
    if n == 0 {
        1
    } else {
        10 * ten_to((n - 1) as nat)
    }
}

proof fn lemma_digits_push(d: Seq<u8>, x: u8)
    ensures
        digits_number(d.push(x)) == digits_number(d) + ten_to(d.len()) * x as nat,
    decreases d.len(),
{
    if d.len() == 0 {
        assert(d.push(x).skip(1) =~= Seq::empty());
        assert(digits_number(d.push(x).skip(1)) == 0);
        let t = ten_to(d.len());
        assert(t == 1);
        assert(t * x as nat == x as nat) by (nonlinear_arith)
            requires
                t == 1,
        ;
    } else {
        lemma_digits_push(d.skip(1), x);
        assert(d.push(x).skip(1) =~= d.skip(1).push(x));
        let t = ten_to((d.len() - 1) as nat);
        assert(10 * (t * x as nat) == (10 * t) * x as nat) by (nonlinear_arith);
        assert(ten_to(d.len()) == 10 * t);
        assert(d.push(x)[0] == d[0]);
    }
}

/// Doubles the number that `d` spells.
fn double_digits(d: &Vec<u8>) -> (r: Vec<u8>)
    requires
        all_digits(d@),
        d@.len() > 0,
        d@.last() != 0,
    ensures
        all_digits(r@),
        digits_number(r@) == 2 * digits_number(d@),
        r@.len() > 0,
        r@.last() != 0,
{
    let mut out: Vec<u8> = Vec::new();
    let mut carry: u8 = 0;
    let mut i: usize = 0;
    proof {
        assert(d@.take(0) =~= Seq::empty());
    }
    while i < d.len()
        invariant
            i <= d@.len(),
            carry <= 1,
            all_digits(d@),
            all_digits(out@),
            out@.len() == i,
            digits_number(out@) + ten_to(i as nat) * carry as nat == 2 * digits_number(
                d@.take(i as int),
            ),
            i > 0 ==> out@.last() != 0 || carry != 0 || d@[i - 1] == 0,
        decreases d@.len() - i,
    {
        let v: u8 = d[i] * 2 + carry;
        let low: u8 = if v >= 10 {
            v - 10
        } else {
            v
        };
        let next: u8 = if v >= 10 {
            1
        } else {
            0
        };
        let ghost before = out@;
        proof {
            lemma_digits_push(before, low);
            lemma_digits_push(d@.take(i as int), d@[i as int]);
            assert(d@.take(i as int).push(d@[i as int]) =~= d@.take(i + 1));
            let t = ten_to(i as nat);
            let dd = d@[i as int] as nat;
            let c = carry as nat;
            let l = low as nat;
            let n = next as nat;
            assert(2 * dd + c == l + 10 * n);
            assert(t * c + 2 * (t * dd) == t * l + (10 * t) * n) by (nonlinear_arith)
                requires
                    2 * dd + c == l + 10 * n,
            ;
        }
        out.push(low);
        carry = next;
        i = i + 1;
    }
    proof {
        assert(d@.take(d@.len() as int) =~= d@);
    }
    if carry != 0 {
        let ghost before = out@;
        out.push(carry);
        proof {
            lemma_digits_push(before, carry);
        }
    }
    out
}

proof fn lemma_decimal_of_digits(d: Seq<u8>)
    requires
        all_digits(d),
        d.len() > 0,
        d.last() != 0,
    ensures
        text::decimal(digits_number(d)) == digits_text(d),
    decreases d.len(),
{
    let t = d.skip(1);
    if d.len() == 1 {
        assert(digits_number(t) == 0);
        assert(digits_text(t) =~= Seq::empty());
        assert(digits_text(d) =~= seq![text::digit_char(d[0] as nat)]);
    } else {
        assert(t.last() == d.last());
        lemma_decimal_of_digits(t);
        lemma_nonzero(t);
        let n = digits_number(d);
        assert(n / 10 == digits_number(t));
        assert(n % 10 == d[0] as nat);
    }
}

proof fn lemma_nonzero(d: Seq<u8>)
    requires
        d.len() > 0,
        d.last() != 0,
    ensures
        digits_number(d) > 0,
    decreases d.len(),
{
    if d.len() > 1 {
        assert(d.skip(1).last() == d.last());
        lemma_nonzero(d.skip(1));
    } else {
        assert(d.last() == d[0]);
    }
}

/// The digits as text, most significant first.
spec fn digits_text(d: Seq<u8>) -> Seq<char>
    decreases d.len(),
{
    if d.len() == 0 {
        Seq::empty()
    } else {
        digits_text(d.skip(1)).push(text::digit_char(d[0] as nat))
    }
}

/// Appends the digits, most significant first.
fn push_digits(out: &mut String, d: &Vec<u8>)
    requires
        all_digits(d@),
    ensures
        final(out)@ == old(out)@ + digits_text(d@),
{
    let mut i: usize = d.len();
    proof {
        assert(digits_text(d@.skip(i as int)) =~= Seq::empty());
        assert(out@ =~= old(out)@ + digits_text(d@.skip(i as int)));
    }
    while i > 0
        invariant
            i <= d@.len(),
            all_digits(d@),
            out@ == old(out)@ + digits_text(d@.skip(i as int)),
        decreases i,
    {
        i = i - 1;
        proof {
            assert(d@.skip(i as int).skip(1) =~= d@.skip(i + 1));
        }
        let ghost before = out@;
        out.push((48 + d[i]) as char);
        proof {
            assert(out@ =~= old(out)@ + digits_text(d@.skip(i as int)));
        }
    }
    proof {
        assert(d@.skip(0) =~= d@);
    }
}

/// Appends the decimal numeral of `m` times `2^k`.
fn push_scaled(out: &mut String, m: u64, k: u32)
    requires
        m > 0,
    ensures
        final(out)@ == old(out)@ + text::decimal(m as nat * two_to(k as nat)),
{
    let mut d: Vec<u8> = digits_of(m);
    let mut i: u32 = 0;
    assert(m as nat * two_to(0) == m as nat) by {
        assert(two_to(0) == 1);
    }
    while i < k
        invariant
            i <= k,
            all_digits(d@),
            d@.len() > 0,
            d@.last() != 0,
            digits_number(d@) == m as nat * two_to(i as nat),
        decreases k - i,
    {
        proof {
            let p = two_to(i as nat);
            assert(m as nat * (2 * p) == 2 * (m as nat * p)) by (nonlinear_arith);
        }
        d = double_digits(&d);
        i = i + 1;
    }
    proof {
        lemma_decimal_of_digits(d@);
    }
    push_digits(out, &d);
}

/// The number of millionths in the magnitude of a double that has a fraction
/// field to round.
fn millionths_of(b: u64) -> (r: u128)
    requires
        scale64(b) < 1075,
    ensures
        r == millionths(b),
        r <= 0x20_0000_0000_0000 * 1_000_000,
{
    let e: u32 = exponent_of(b);
    let scale: u32 = if e == 0 {
        1
    } else {
        e
    };
    let p: u128 = mantissa_of(b) as u128 * 1_000_000;
    let s: u32 = 1075 - scale;
    proof {
        lemma_two_to_values();
    }
    if s > 75 {
        proof {
            lemma_two_to_monotone(75, s as nat);
            vstd::arithmetic::div_mod::lemma_fundamental_div_mod_converse(
                p as int,
                two_to(s as nat) as int,
                0,
                p as int,
            );
        }
        return 0;
    }
    proof {
        lemma_two_to_monotone(1, s as nat);
        reveal_with_fuel(two_to, 2);
        vstd::arithmetic::div_mod::lemma_div_is_ordered_by_denominator(
            p as int,
            2,
            two_to(s as nat) as int,
        );
    }
    round_down(p, s)
}

/// Appends a double with six decimals.
pub fn push_fixed6(out: &mut String, b: u64)
    ensures
        final(out)@ == old(out)@ + fixed6(b),
{
    if is_nan(b) {
        out.push('N');
        out.push('a');
        out.push('N');
        proof {
            assert(out@ =~= old(out)@ + fixed6(b));
        }
        return ;
    }
    if b >= 0x8000_0000_0000_0000 {
        out.push('-');
    }
    let ghost signed = out@;
    let e: u32 = exponent_of(b);
    if e == 0x7ff {
        out.push('i');
        out.push('n');
        out.push('f');
        proof {
            assert(out@ =~= old(out)@ + fixed6(b));
        }
        return ;
    }
    if e >= 1075 {
        let m: u64 = mantissa_of(b);
        push_scaled(out, m, e - 1075);
        out.push('.');
        push_padded(out, 0, 6);
        proof {
            let w = m as nat * two_to((e - 1075) as nat);
            assert(millionths(b) == 1_000_000 * w);
            assert(1_000_000 * w / 1_000_000 == w);
            assert(1_000_000 * w % 1_000_000 == 0);
            assert(out@ =~= old(out)@ + fixed6(b));
        }
        return ;
    }
    let n: u128 = millionths_of(b);
    text::push_decimal(out, (n / 1_000_000) as u64);
    out.push('.');
    push_padded(out, (n % 1_000_000) as u64, 6);
    proof {
        assert(out@ =~= old(out)@ + fixed6(b));
    }
}

/// Rounding gives the nearest multiple, and of two equally near the even one.
pub proof fn law_rounding_is_to_the_nearest(m: nat, s: nat)
    ensures
        ({
            let d = two_to(s);
            let r = rounded(m, s);
            &&& d > 0
            &&& 2 * (m - r * d) <= d
            &&& 2 * (r * d - m) <= d
            &&& 2 * (m - r * d) == d || 2 * (r * d - m) == d ==> r % 2 == 0
            &&& m == (m / d) * d ==> r == m / d
        }),
{
    let d = two_to(s);
    lemma_two_to_positive(s);
    let q = m / d;
    let rest = m % d;
    vstd::arithmetic::div_mod::lemma_fundamental_div_mod(m as int, d as int);
    assert(q * d == d * q) by (nonlinear_arith);
    assert((q + 1) * d == q * d + d) by (nonlinear_arith);
}

/// A whole number keeps its value as a double, with its sign, and comes back
/// from it brought into the range that is asked for.
pub proof fn law_whole_numbers_come_back(v: int, min: int, max: int)
    requires
        -0x20_0000_0000_0000 < v < 0x20_0000_0000_0000,
        min <= max,
    ensures
        double_of_int(v) <= u64::MAX,
        to_int64(double_of_int(v) as u64, min, max) == if v < min {
            min
        } else if v > max {
            max
        } else {
            v
        },
{
    let n: nat = if v < 0 {
        (-v) as nat
    } else {
        v as nat
    };
    law_small_integers_are_exact(n);
    let b = double_of_nat(n) as u64;
    let c = double_of_int(v) as u64;
    assert(exp64(c) == exp64(b));
    assert(frac64(c) == frac64(b));
    assert(exp64(b) < 0x7ff);
}

/// A number in single precision survives the way to double precision and back,
/// except for the smallest ones, which have no leading digit of their own.
pub proof fn law_single_precision_survives(b: u32)
    requires
        exp32(b) != 0 || frac32(b) == 0,
        exp32(b) != 0xff || frac32(b) == 0,
    ensures
        widened(b) <= u64::MAX,
        narrowed(widened(b) as u64) == b,
{
    let e = exp32(b);
    let f = frac32(b);
    let w = widened(b) as u64;
    let sign: nat = if negative32(b) {
        0x8000_0000
    } else {
        0
    };
    assert(b == sign + e * 0x80_0000 + f);
    if e == 0 {
        assert(exp64(w) == 0 && frac64(w) == 0);
        law_rounding_is_to_the_nearest(0, 925);
        assert(rounded(0, 925) == 0) by {
            let d = two_to(925);
            let r = rounded(0, 925);
            assert(0nat / d == 0);
            assert(0nat == (0nat / d) * d) by (nonlinear_arith)
                requires
                    0nat / d == 0,
            ;
        }
    } else if e == 0xff {
        assert(exp64(w) == 0x7ff && frac64(w) == 0);
    } else {
        assert(exp64(w) == e + 896);
        assert(frac64(w) == f * 0x2000_0000);
        let m = 0x10_0000_0000_0000 + f * 0x2000_0000;
        assert(mantissa64(w) == m);
        lemma_two_to_29();
        law_rounding_is_to_the_nearest(m, 29);
        assert(m == (0x80_0000 + f) * 0x2000_0000);
        assert(m / 0x2000_0000 == 0x80_0000 + f);
        assert(rounded(m, 29) == 0x80_0000 + f);
    }
}

proof fn lemma_two_to_29()
    ensures
        two_to(29) == 0x2000_0000,
{
    reveal_with_fuel(two_to, 30);
}

/// The parts of a whole number as a double: an exponent by its highest bit, and
/// its bits shifted up behind a leading one.
pub proof fn lemma_whole_number_parts(v: nat)
    requires
        0 < v < 0x20_0000_0000_0000,
    ensures
        log2(v) <= 52,
        0x10_0000_0000_0000 <= v * two_to((52 - log2(v)) as nat) < 0x20_0000_0000_0000,
        double_of_nat(v) == (log2(v) + 1023) * 0x10_0000_0000_0000 + (v * two_to(
            (52 - log2(v)) as nat,
        ) - 0x10_0000_0000_0000),
{
    lemma_two_to_values();
    lemma_log2_bound(v, 53);
    lemma_log2(v);
    let k = log2(v);
    let p = two_to((52 - k) as nat);
    let q = two_to(k);
    lemma_two_to_add(k, (52 - k) as nat);
    lemma_two_to_positive((52 - k) as nat);
    assert(q * p <= v * p < 2 * (q * p)) by (nonlinear_arith)
        requires
            q <= v < 2 * q,
            p > 0,
    ;
}

/// A whole number is written with six zeros behind the point.
pub proof fn law_whole_numbers_are_written_with_zeros(v: int)
    requires
        -0x20_0000_0000_0000 < v < 0x20_0000_0000_0000,
    ensures
        fixed6(double_of_int(v) as u64) == text::signed_decimal(v) + seq![
            '.',
            '0',
            '0',
            '0',
            '0',
            '0',
            '0',
        ],
{
    let n: nat = if v < 0 {
        (-v) as nat
    } else {
        v as nat
    };
    let b = double_of_int(v) as u64;
    lemma_two_to_values();
    law_small_integers_are_exact(n);
    if n > 0 {
        lemma_whole_number_parts(n);
        let k = log2(n);
        let p = two_to((52 - k) as nat);
        let m = n * p;
        lemma_two_to_positive((52 - k) as nat);
        assert(exp64(b) == k + 1023);
        assert(mantissa64(b) == m);
        if k == 52 {
            assert(p == 1 && two_to(0) == 1);
            assert(m * two_to(0) == n) by (nonlinear_arith)
                requires
                    m == n * p,
                    p == 1,
                    two_to(0) == 1,
            ;
        } else {
            let x = m * 1_000_000;
            assert(x == (n * 1_000_000) * p) by (nonlinear_arith)
                requires
                    x == m * 1_000_000,
                    m == n * p,
            ;
            vstd::arithmetic::div_mod::lemma_div_multiples_vanish((n * 1_000_000) as int, p as int);
            assert((n * 1_000_000) * p == p * (n * 1_000_000)) by (nonlinear_arith);
            assert(x / p == n * 1_000_000);
            law_rounding_is_to_the_nearest(x, (52 - k) as nat);
        }
        assert(millionths(b) == n * 1_000_000);
    } else {
        assert(b == 0);
        assert(exp64(b) == 0 && frac64(b) == 0);
        law_rounding_is_to_the_nearest(0, 1074);
        lemma_two_to_positive(1074);
        assert(0nat / two_to(1074) == 0) by {
            vstd::arithmetic::div_mod::lemma_basic_div(0, two_to(1074) as int);
        }
        assert(0 == (0nat / two_to(1074)) * two_to(1074)) by (nonlinear_arith)
            requires
                0nat / two_to(1074) == 0,
        ;
        assert(mantissa64(b) * 1_000_000 == 0);
        assert(millionths(b) == 0);
    }
    assert(n * 1_000_000 / 1_000_000 == n && n * 1_000_000 % 1_000_000 == 0);
    reveal_with_fuel(padded, 7);
    assert(padded(0, 6) =~= seq!['0', '0', '0', '0', '0', '0']);
    assert(fixed6(b) =~= text::signed_decimal(v) + seq!['.', '0', '0', '0', '0', '0', '0']);
}

} // verus!
