//! Decimal floating-point numerals: the bits of the nearest IEEE-754 number.
//!
//! A numeral denotes a rational number. It is compared exactly, in integers of
//! any size, with the points half way between neighbouring numbers of the
//! format.

use crate::ieee;
use crate::text;
use vstd::prelude::*;

verus! {

/// A binary floating-point format.
#[derive(Debug, Clone, Copy, PartialEq, Eq, Structural)]
pub enum Format {
    Single,
    Double,
}

impl Format {
    /// The width of the fraction field.
    pub open spec fn fraction_bits(self) -> nat {
        match self {
            Format::Single => 23,
            Format::Double => 52,
        }
    }

    /// 2 to the power of the width of the fraction field.
    pub open spec fn unit(self) -> nat {
        match self {
            Format::Single => 0x80_0000,
            Format::Double => 0x10_0000_0000_0000,
        }
    }

    /// The largest exponent field, which infinity has.
    pub open spec fn top_exponent(self) -> nat {
        match self {
            Format::Single => 255,
            Format::Double => 2047,
        }
    }

    /// The bits of positive infinity.
    pub open spec fn infinity(self) -> nat {
        self.top_exponent() * self.unit()
    }

    /// `2^-grain` is the smallest positive number.
    pub open spec fn grain(self) -> nat {
        match self {
            Format::Single => 149,
            Format::Double => 1074,
        }
    }

    /// The bit that marks a negative number.
    pub open spec fn sign_bit(self) -> nat {
        match self {
            Format::Single => 0x8000_0000,
            Format::Double => 0x8000_0000_0000_0000,
        }
    }

    /// The bits of the number that is none.
    pub open spec fn not_a_number(self) -> nat {
        match self {
            Format::Single => 0x7fc0_0000,
            Format::Double => 0x7ff8_0000_0000_0000,
        }
    }
}

/// The magnitude with the bits `b`, in units of the smallest positive number.
/// For infinity it is the power of two that would come next.
pub open spec fn magnitude(f: Format, b: nat) -> nat {
    let e = b / f.unit();
    let m = b % f.unit();
    if e == 0 {
        m
    } else {
        (f.unit() + m) * ieee::two_to((e - 1) as nat)
    }
}

/// Twice the point half way between the magnitude with the bits `b` and the
/// one before it.
pub open spec fn midpoint(f: Format, b: nat) -> nat {
    magnitude(f, (b - 1) as nat) + magnitude(f, b)
}

/// Whether `num / den` rounds to the magnitude with the bits `b` or to a larger
/// one: it lies above the point half way below, or on it with `b` even.
pub open spec fn reaches(f: Format, num: nat, den: nat, b: nat) -> bool {
    let x = num * ieee::two_to(f.grain() + 1);
    b == 0 || x > den * midpoint(f, b) || (x == den * midpoint(f, b) && b % 2 == 0)
}

/// Whether the magnitude with the bits `b` is the nearest to `num / den`.
pub open spec fn nearest(f: Format, num: nat, den: nat, b: nat) -> bool {
    &&& b <= f.infinity()
    &&& reaches(f, num, den, b)
    &&& b < f.infinity() ==> !reaches(f, num, den, b + 1)
}

proof fn lemma_magnitude_grows(f: Format, b: nat)
    ensures
        magnitude(f, b) < magnitude(f, b + 1),
{
    let u = f.unit();
    let e = b / u;
    let m = b % u;
    if m + 1 < u {
        assert((b + 1) / u == e && (b + 1) % u == m + 1) by {
            vstd::arithmetic::div_mod::lemma_fundamental_div_mod(b as int, u as int);
            vstd::arithmetic::div_mod::lemma_fundamental_div_mod_converse(
                (b + 1) as int,
                u as int,
                e as int,
                (m + 1) as int,
            );
        }
        if e > 0 {
            let p = ieee::two_to((e - 1) as nat);
            ieee::lemma_two_to_positive((e - 1) as nat);
            assert((u + m) * p < (u + (m + 1)) * p) by (nonlinear_arith)
                requires
                    p > 0,
            ;
        }
    } else {
        assert((b + 1) / u == e + 1 && (b + 1) % u == 0) by {
            vstd::arithmetic::div_mod::lemma_fundamental_div_mod(b as int, u as int);
            assert(u * e + u == u * (e + 1)) by (nonlinear_arith);
            vstd::arithmetic::div_mod::lemma_fundamental_div_mod_converse(
                (b + 1) as int,
                u as int,
                (e + 1) as int,
                0,
            );
        }
        let p = ieee::two_to(e);
        if e > 0 {
            let q = ieee::two_to((e - 1) as nat);
            ieee::lemma_two_to_positive((e - 1) as nat);
            assert(p == 2 * q);
            assert((u + m) * q < u * (2 * q)) by (nonlinear_arith)
                requires
                    m < u,
                    q > 0,
            ;
            assert((u + 0) * p == u * p);
        } else {
            assert(p == 1);
            assert((u + 0) * p == u) by (nonlinear_arith)
                requires
                    p == 1,
            ;
        }
    }
}

proof fn lemma_midpoint_monotone(f: Format, a: nat, b: nat)
    requires
        0 < a <= b,
    ensures
        midpoint(f, a) <= midpoint(f, b),
        a < b ==> midpoint(f, a) < midpoint(f, b),
    decreases b,
{
    if a < b {
        lemma_midpoint_monotone(f, a, (b - 1) as nat);
        lemma_magnitude_grows(f, (b - 2) as nat);
        lemma_magnitude_grows(f, (b - 1) as nat);
        assert((b - 2) as nat + 1 == (b - 1) as nat);
        assert((b - 1) as nat + 1 == b);
    }
}

proof fn lemma_reaches_down(f: Format, num: nat, den: nat, a: nat, b: nat)
    requires
        a <= b,
        den > 0,
        reaches(f, num, den, b),
    ensures
        reaches(f, num, den, a),
{
    if 0 < a < b {
        lemma_midpoint_monotone(f, a, b);
        let s = midpoint(f, a);
        let t = midpoint(f, b);
        assert(den * s < den * t) by (nonlinear_arith)
            requires
                s < t,
                den > 0,
        ;
    }
}

/// A rational number has one nearest number in a format.
pub proof fn law_nearest_is_unique(f: Format, num: nat, den: nat, a: nat, b: nat)
    requires
        den > 0,
        nearest(f, num, den, a),
        nearest(f, num, den, b),
    ensures
        a == b,
{
    if a < b {
        lemma_reaches_down(f, num, den, a + 1, b);
    } else if b < a {
        lemma_reaches_down(f, num, den, b + 1, a);
    }
}

/// 10 to the power of `n`.
pub open spec fn ten_to(n: nat) -> nat
    decreases n,
{
    if n == 0 {
        1
    } else {
        10 * ten_to((n - 1) as nat)
    }
}

/// What a numeral says, before it is rounded.
pub enum Meaning {
    NotANumber,
    Infinite,
    /// The digits times a power of ten.
    Number { digits: Seq<char>, exponent: int },
}

/// The number of decimal digits at the front of `s`.
pub open spec fn digit_run(s: Seq<char>) -> nat
    decreases s.len(),
{
    if s.len() > 0 && text::is_digit(s[0]) {
        1 + digit_run(s.skip(1))
    } else {
        0
    }
}

/// The lower-case form of an ASCII letter; any other character as it is.
pub open spec fn lower(c: char) -> char {
    if 'A' <= c <= 'Z' {
        (c as int + 32) as u8 as char
    } else {
        c
    }
}

/// Whether `s` is `word` but for the case of its letters.
pub open spec fn is_word(s: Seq<char>, word: Seq<char>) -> bool {
    s.len() == word.len() && forall|i: int| 0 <= i < s.len() ==> lower(#[trigger] s[i]) == word[i]
}

/// The exponent part of a numeral: nothing, or `e` and a signed integer.
pub open spec fn exponent_part(s: Seq<char>) -> Option<int> {
    if s.len() == 0 {
        Some(0)
    } else if s[0] == 'e' || s[0] == 'E' {
        let t = s.skip(1);
        let negative = t.len() > 0 && t[0] == '-';
        let d = if negative || (t.len() > 0 && t[0] == '+') {
            t.skip(1)
        } else {
            t
        };
        if !text::is_digits(d) {
            None
        } else if negative {
            Some(-(text::digits_value(d) as int))
        } else {
            Some(text::digits_value(d) as int)
        }
    } else {
        None
    }
}

/// The meaning of a numeral without its sign.
pub open spec fn unsigned_meaning(s: Seq<char>) -> Option<Meaning> {
    if is_word(s, seq!['n', 'a', 'n']) {
        Some(Meaning::NotANumber)
    } else if is_word(s, seq!['i', 'n', 'f']) || is_word(
        s,
        seq!['i', 'n', 'f', 'i', 'n', 'i', 't', 'y'],
    ) {
        Some(Meaning::Infinite)
    } else {
        match number_meaning(s) {
            Some((digits, exponent)) => Some(Meaning::Number { digits, exponent }),
            None => None,
        }
    }
}

/// The digits of a numeral and the power of ten that scales them.
pub open spec fn number_meaning(s: Seq<char>) -> Option<(Seq<char>, int)> {
    let a = digit_run(s) as int;
    let dot = a < s.len() && s[a] == '.';
    let from = if dot {
        a + 1
    } else {
        a
    };
    let b = if dot {
        digit_run(s.skip(from)) as int
    } else {
        0
    };
    match exponent_part(s.skip(from + b)) {
        Some(e) => if a + b == 0 {
            None
        } else {
            Some((s.take(a) + s.subrange(from, from + b), e - b))
        },
        None => None,
    }
}

/// Whether a numeral has a minus sign.
pub open spec fn has_minus(s: Seq<char>) -> bool {
    s.len() > 0 && s[0] == '-'
}

/// A numeral without its sign.
pub open spec fn unsigned_part(s: Seq<char>) -> Seq<char> {
    if s.len() > 0 && (s[0] == '-' || s[0] == '+') {
        s.skip(1)
    } else {
        s
    }
}

/// The numerator of `d * 10^e`.
pub open spec fn numerator(d: nat, e: int) -> nat {
    if e >= 0 {
        d * ten_to(e as nat)
    } else {
        d
    }
}

/// The denominator of `d * 10^e`.
pub open spec fn denominator(e: int) -> nat {
    if e >= 0 {
        1
    } else {
        ten_to((-e) as nat)
    }
}

/// The bits of the magnitude that a meaning rounds to.
pub open spec fn magnitude_bits(f: Format, m: Meaning) -> nat {
    match m {
        Meaning::NotANumber => f.not_a_number(),
        Meaning::Infinite => f.infinity(),
        Meaning::Number { digits, exponent } => choose|b: nat|
            nearest(
                f,
                numerator(text::digits_value(digits), exponent),
                denominator(exponent),
                b,
            ),
    }
}

/// The bits of the floating-point number that a numeral spells.
pub open spec fn real_numeral(f: Format, s: Seq<char>) -> Option<nat> {
    match unsigned_meaning(unsigned_part(s)) {
        Some(m) => Some(
            if has_minus(s) {
                f.sign_bit() + magnitude_bits(f, m)
            } else {
                magnitude_bits(f, m)
            },
        ),
        None => None,
    }
}

// Integers of any size, as limbs of 32 bits, least significant first.
spec fn big(v: Seq<u32>) -> nat
    decreases v.len(),
{
    if v.len() == 0 {
        0
    } else {
        v[0] as nat + 0x1_0000_0000 * big(v.skip(1))
    }
}

spec fn limb_to(n: nat) -> nat
    decreases n,
{
    if n == 0 {
        1
    } else {
        0x1_0000_0000 * limb_to((n - 1) as nat)
    }
}

proof fn lemma_big_push(v: Seq<u32>, x: u32)
    ensures
        big(v.push(x)) == big(v) + limb_to(v.len()) * x as nat,
    decreases v.len(),
{
    if v.len() == 0 {
        assert(v.push(x).skip(1) =~= Seq::empty());
        assert(big(v.push(x).skip(1)) == 0);
        let w = limb_to(v.len());
        assert(w * x as nat == x as nat) by (nonlinear_arith)
            requires
                w == 1,
        ;
    } else {
        lemma_big_push(v.skip(1), x);
        assert(v.push(x).skip(1) =~= v.skip(1).push(x));
        assert(v.push(x)[0] == v[0]);
        let w = limb_to((v.len() - 1) as nat);
        assert(0x1_0000_0000 * (w * x as nat) == (0x1_0000_0000 * w) * x as nat)
            by (nonlinear_arith);
        assert(limb_to(v.len()) == 0x1_0000_0000 * w);
    }
}

proof fn lemma_big_bound(v: Seq<u32>)
    ensures
        big(v) < limb_to(v.len()),
    decreases v.len(),
{
    if v.len() > 0 {
        lemma_big_bound(v.skip(1));
    }
}

/// `v * factor + add`.
fn mul_add(v: &Vec<u32>, factor: u64, add: u64) -> (r: Vec<u32>)
    ensures
        big(r@) == big(v@) * factor as nat + add as nat,
{
    let mut out: Vec<u32> = Vec::new();
    let mut carry: u128 = add as u128;
    let mut i: usize = 0;
    proof {
        assert(v@.take(0) =~= Seq::empty());
        assert(limb_to(0) * add as nat == add as nat) by {
            assert(limb_to(0) == 1);
        }
        assert(0 * factor as nat == 0);
    }
    while i < v.len()
        invariant
            i <= v@.len(),
            out@.len() == i,
            carry < 0x1_0000_0000_0000_0000,
            big(out@) + limb_to(i as nat) * carry as nat == big(v@.take(i as int)) * factor as nat
                + add as nat,
        decreases v@.len() - i,
    {
        let limb: u32 = v[i];
        let x: u128;
        proof {
            assert(limb as nat * factor as nat <= 0xffff_ffff * 0xffff_ffff_ffff_ffff)
                by (nonlinear_arith)
                requires
                    limb <= 0xffff_ffff,
                    factor <= 0xffff_ffff_ffff_ffff,
            ;
        }
        x = limb as u128 * factor as u128 + carry;
        let low: u32 = (x % 0x1_0000_0000) as u32;
        let next: u128 = x / 0x1_0000_0000;
        proof {
            lemma_big_push(out@, low);
            lemma_big_push(v@.take(i as int), limb);
            assert(v@.take(i as int).push(limb) =~= v@.take(i + 1));
            let w = limb_to(i as nat);
            let c = carry as nat;
            let l = low as nat;
            let n = next as nat;
            let d = limb as nat;
            let g = factor as nat;
            let t = big(v@.take(i as int));
            assert(d * g + c == l + 0x1_0000_0000 * n);
            assert(w * l + (0x1_0000_0000 * w) * n == w * c + (w * d) * g) by (nonlinear_arith)
                requires
                    d * g + c == l + 0x1_0000_0000 * n,
            ;
            assert((t + w * d) * g == t * g + (w * d) * g) by (nonlinear_arith);
        }
        out.push(low);
        carry = next;
        i = i + 1;
    }
    proof {
        assert(v@.take(v@.len() as int) =~= v@);
    }
    while carry > 0
        invariant
            big(out@) + limb_to(out@.len()) * carry as nat == big(v@) * factor as nat + add as nat,
        decreases carry,
    {
        let low: u32 = (carry % 0x1_0000_0000) as u32;
        let next: u128 = carry / 0x1_0000_0000;
        proof {
            lemma_big_push(out@, low);
            let w = limb_to(out@.len());
            let c = carry as nat;
            let l = low as nat;
            let n = next as nat;
            assert(w * l + (0x1_0000_0000 * w) * n == w * c) by (nonlinear_arith)
                requires
                    c == l + 0x1_0000_0000 * n,
            ;
        }
        out.push(low);
        carry = next;
    }
    proof {
        let w = limb_to(out@.len());
        assert(w * 0 == 0);
    }
    out
}

proof fn lemma_limb_to_is_power(j: nat)
    ensures
        limb_to(j) == ieee::two_to(32 * j),
    decreases j,
{
    if j > 0 {
        lemma_limb_to_is_power((j - 1) as nat);
        ieee::lemma_two_to_add(32, 32 * (j - 1) as nat);
        reveal_with_fuel(ieee::two_to, 33);
        assert(ieee::two_to(32) == 0x1_0000_0000);
        assert(32 + 32 * (j - 1) as nat == 32 * j);
    }
}

proof fn lemma_two_to_31()
    ensures
        ieee::two_to(31) == 0x8000_0000,
{
    reveal_with_fuel(ieee::two_to, 32);
}

/// 2 to the power of `n`.
fn power_of_two(n: u32) -> (r: u64)
    requires
        n < 32,
    ensures
        r == ieee::two_to(n as nat),
{
    let mut factor: u64 = 1;
    let mut i: u32 = 0;
    while i < n
        invariant
            i <= n < 32,
            factor == ieee::two_to(i as nat),
            factor <= 0x8000_0000,
        decreases n - i,
    {
        proof {
            lemma_two_to_31();
            ieee::lemma_two_to_monotone((i + 1) as nat, 31);
        }
        factor = factor * 2;
        i = i + 1;
    }
    factor
}

/// `v * 2^k`.
fn shift(v: &Vec<u32>, k: u32) -> (r: Vec<u32>)
    ensures
        big(r@) == big(v@) * ieee::two_to(k as nat),
{
    let rest: u32 = k % 32;
    let factor: u64 = power_of_two(rest);
    let scaled = mul_add(v, factor, 0);
    let zeros: u32 = k / 32;
    let mut out: Vec<u32> = Vec::new();
    let mut j: u32 = 0;
    while j < zeros
        invariant
            j <= zeros,
            out@.len() == j,
            big(out@) == 0,
        decreases zeros - j,
    {
        proof {
            lemma_big_push(out@, 0);
            let w = limb_to(out@.len());
            assert(w * 0 == 0);
        }
        out.push(0);
        j = j + 1;
    }
    let mut n: usize = 0;
    proof {
        assert(scaled@.take(0) =~= Seq::empty());
        let w = limb_to(zeros as nat);
        assert(w * 0 == 0);
    }
    while n < scaled.len()
        invariant
            n <= scaled@.len(),
            out@.len() == zeros + n,
            big(out@) == limb_to(zeros as nat) * big(scaled@.take(n as int)),
        decreases scaled@.len() - n,
    {
        let limb: u32 = scaled[n];
        proof {
            lemma_big_push(out@, limb);
            lemma_big_push(scaled@.take(n as int), limb);
            assert(scaled@.take(n as int).push(limb) =~= scaled@.take(n + 1));
            lemma_limb_to_is_power(zeros as nat);
            lemma_limb_to_is_power(n as nat);
            lemma_limb_to_is_power((zeros + n) as nat);
            ieee::lemma_two_to_add(32 * zeros as nat, 32 * n as nat);
            let a = limb_to(zeros as nat);
            let b = limb_to(n as nat);
            let x = limb as nat;
            let t = big(scaled@.take(n as int));
            assert(limb_to((zeros + n) as nat) == a * b);
            assert(a * (t + b * x) == a * t + (a * b) * x) by (nonlinear_arith);
        }
        out.push(limb);
        n = n + 1;
    }
    proof {
        assert(scaled@.take(scaled@.len() as int) =~= scaled@);
        lemma_limb_to_is_power(zeros as nat);
        ieee::lemma_two_to_add(rest as nat, 32 * zeros as nat);
        assert(rest as nat + 32 * zeros as nat == k as nat);
        let a = limb_to(zeros as nat);
        let b = ieee::two_to(rest as nat);
        let x = big(v@);
        assert(a * (x * b) == x * (b * a)) by (nonlinear_arith);
    }
    out
}

enum Side {
    Below,
    Equal,
    Above,
}

/// On which side of `b` the number `a` lies.
fn side(a: &Vec<u32>, b: &Vec<u32>) -> (r: Side)
    ensures
        match r {
            Side::Below => big(a@) < big(b@),
            Side::Equal => big(a@) == big(b@),
            Side::Above => big(a@) > big(b@),
        },
{
    let n: usize = if a.len() > b.len() {
        a.len()
    } else {
        b.len()
    };
    let mut r = Side::Equal;
    let mut i: usize = 0;
    let ghost mut x: Seq<u32> = Seq::empty();
    let ghost mut y: Seq<u32> = Seq::empty();
    while i < n
        invariant
            i <= n,
            n >= a@.len(),
            n >= b@.len(),
            x.len() == i,
            y.len() == i,
            big(x) == big(a@.take(if i < a@.len() {
                i as int
            } else {
                a@.len() as int
            })),
            big(y) == big(b@.take(if i < b@.len() {
                i as int
            } else {
                b@.len() as int
            })),
            match r {
                Side::Below => big(x) < big(y),
                Side::Equal => big(x) == big(y),
                Side::Above => big(x) > big(y),
            },
        decreases n - i,
    {
        let p: u32 = if i < a.len() {
            a[i]
        } else {
            0
        };
        let q: u32 = if i < b.len() {
            b[i]
        } else {
            0
        };
        proof {
            lemma_big_push(x, p);
            lemma_big_push(y, q);
            lemma_big_bound(x);
            lemma_big_bound(y);
            let w = limb_to(i as nat);
            if i < a@.len() {
                lemma_big_push(a@.take(i as int), p);
                assert(a@.take(i as int).push(p) =~= a@.take(i + 1));
            }
            if i < b@.len() {
                lemma_big_push(b@.take(i as int), q);
                assert(b@.take(i as int).push(q) =~= b@.take(i + 1));
            }
            assert(w * 0 == 0);
            if p < q {
                assert(w * p as nat + w <= w * q as nat) by (nonlinear_arith)
                    requires
                        p < q,
                ;
            }
            if q < p {
                assert(w * q as nat + w <= w * p as nat) by (nonlinear_arith)
                    requires
                        q < p,
                ;
            }
            x = x.push(p);
            y = y.push(q);
        }
        if p < q {
            r = Side::Below;
        } else if p > q {
            r = Side::Above;
        }
        i = i + 1;
    }
    proof {
        assert(a@.take(a@.len() as int) =~= a@);
        assert(b@.take(b@.len() as int) =~= b@);
    }
    r
}

fn unit_of(f: Format) -> (r: u64)
    ensures
        r == f.unit(),
{
    match f {
        Format::Single => 0x80_0000,
        Format::Double => 0x10_0000_0000_0000,
    }
}

fn infinity_of(f: Format) -> (r: u64)
    ensures
        r == f.infinity(),
        r < 0x8000_0000_0000_0000,
        f is Single ==> r < 0x8000_0000,
{
    match f {
        Format::Single => 0x7f80_0000,
        Format::Double => 0x7ff0_0000_0000_0000,
    }
}

fn grain_of(f: Format) -> (r: u32)
    ensures
        r == f.grain(),
{
    match f {
        Format::Single => 149,
        Format::Double => 1074,
    }
}

proof fn lemma_midpoint_parts(f: Format, b: nat)
    requires
        0 < b <= f.infinity(),
    ensures
        ({
            let u = f.unit();
            let e = b / u;
            let m = b % u;
            if e == 0 {
                midpoint(f, b) == 2 * m - 1
            } else if m > 0 {
                midpoint(f, b) == (2 * (u + m) - 1) * ieee::two_to((e - 1) as nat)
            } else if e == 1 {
                midpoint(f, b) == 2 * u - 1
            } else {
                midpoint(f, b) == (4 * u - 1) * ieee::two_to((e - 2) as nat)
            }
        }),
{
    let u = f.unit();
    let e = b / u;
    let m = b % u;
    vstd::arithmetic::div_mod::lemma_fundamental_div_mod(b as int, u as int);
    if m > 0 {
        assert(((b - 1) as nat) / u == e && ((b - 1) as nat) % u == m - 1) by {
            vstd::arithmetic::div_mod::lemma_fundamental_div_mod_converse(
                b - 1,
                u as int,
                e as int,
                m - 1,
            );
        }
        if e > 0 {
            let p = ieee::two_to((e - 1) as nat);
            assert((u + (m - 1)) * p + (u + m) * p == (2 * (u + m) - 1) * p) by (nonlinear_arith);
        }
    } else {
        assert(((b - 1) as nat) / u == e - 1 && ((b - 1) as nat) % u == u - 1) by {
            assert(u * (e - 1) + u == u * e) by (nonlinear_arith);
            vstd::arithmetic::div_mod::lemma_fundamental_div_mod_converse(
                b - 1,
                u as int,
                e - 1,
                u - 1,
            );
        }
        let p = ieee::two_to((e - 1) as nat);
        if e == 1 {
            assert(p == 1);
            assert((u + 0) * p == u) by (nonlinear_arith)
                requires
                    p == 1,
            ;
        } else {
            let q = ieee::two_to((e - 2) as nat);
            assert(p == 2 * q);
            assert((u + (u - 1)) * q + (u + 0) * (2 * q) == (4 * u - 1) * q) by (nonlinear_arith);
        }
    }
}

/// The parts of a midpoint: a factor, and the power of two that scales it.
fn midpoint_parts(f: Format, b: u64) -> (r: (u64, u32))
    requires
        0 < b <= f.infinity(),
    ensures
        midpoint(f, b as nat) == r.0 as nat * ieee::two_to(r.1 as nat),
        r.1 < 2048,
{
    let u: u64 = unit_of(f);
    let e: u64 = b / u;
    let m: u64 = b % u;
    proof {
        lemma_midpoint_parts(f, b as nat);
        assert(ieee::two_to(0) == 1);
        let bb = b as int;
        let uu = u as int;
        vstd::arithmetic::div_mod::lemma_div_is_ordered(bb, f.infinity() as int, uu);
        assert(f.infinity() == uu * f.top_exponent()) by (nonlinear_arith)
            requires
                f.infinity() == f.top_exponent() * uu,
        ;
        vstd::arithmetic::div_mod::lemma_div_multiples_vanish(f.top_exponent() as int, uu);
        vstd::arithmetic::div_mod::lemma_mod_bound(bb, uu);
        let one = ieee::two_to(0);
        let p = (2 * m - 1) as nat;
        let q = (2 * u - 1) as nat;
        assert(p * one == p) by (nonlinear_arith)
            requires
                one == 1,
        ;
        assert(q * one == q) by (nonlinear_arith)
            requires
                one == 1,
        ;
    }
    if e == 0 {
        (2 * m - 1, 0)
    } else if m > 0 {
        (2 * (u + m) - 1, (e - 1) as u32)
    } else if e == 1 {
        (2 * u - 1, 0)
    } else {
        (4 * u - 1, (e - 2) as u32)
    }
}

/// Whether `num / den` reaches the magnitude with the bits `b`; `scaled` is
/// `num` in halves of the smallest positive number.
fn does_reach(f: Format, scaled: &Vec<u32>, den: &Vec<u32>, b: u64, Ghost(num): Ghost<nat>) -> (r:
    bool)
    requires
        0 < b <= f.infinity(),
        big(scaled@) == num * ieee::two_to(f.grain() + 1),
    ensures
        r == reaches(f, num, big(den@), b as nat),
{
    let (factor, k) = midpoint_parts(f, b);
    let product = mul_add(den, factor, 0);
    let point = shift(&product, k);
    proof {
        let d = big(den@);
        let t = factor as nat;
        let p = ieee::two_to(k as nat);
        assert((d * t) * p == d * (t * p)) by (nonlinear_arith);
    }
    match side(scaled, &point) {
        Side::Below => false,
        Side::Equal => b % 2 == 0,
        Side::Above => true,
    }
}

/// The bits of the magnitude nearest to `num / den`.
fn search(f: Format, num: &Vec<u32>, den: &Vec<u32>) -> (r: u64)
    ensures
        nearest(f, big(num@), big(den@), r as nat),
{
    let scaled = shift(num, grain_of(f) + 1);
    let top: u64 = infinity_of(f);
    let mut lo: u64 = 0;
    let mut hi: u64 = top + 1;
    while hi - lo > 1
        invariant
            lo < hi <= top + 1,
            top == f.infinity(),
            top < 0x8000_0000_0000_0000,
            big(scaled@) == big(num@) * ieee::two_to(f.grain() + 1),
            reaches(f, big(num@), big(den@), lo as nat),
            hi <= top ==> !reaches(f, big(num@), big(den@), hi as nat),
        decreases hi - lo,
    {
        let mid: u64 = lo + (hi - lo) / 2;
        if does_reach(f, &scaled, den, mid, Ghost(big(num@))) {
            lo = mid;
        } else {
            hi = mid;
        }
    }
    lo
}

proof fn lemma_ten_beats_eight(n: nat)
    ensures
        ten_to(n) >= ieee::two_to(3 * n),
    decreases n,
{
    if n > 0 {
        lemma_ten_beats_eight((n - 1) as nat);
        reveal_with_fuel(ieee::two_to, 4);
        assert(3 * n == 3 * (n - 1) as nat + 3);
        assert(ieee::two_to(3 * n) == 8 * ieee::two_to(3 * (n - 1) as nat));
    }
}

proof fn lemma_ten_to_monotone(a: nat, b: nat)
    requires
        a <= b,
    ensures
        0 < ten_to(a) <= ten_to(b),
    decreases b,
{
    if a < b {
        lemma_ten_to_monotone(a, (b - 1) as nat);
    } else if a > 0 {
        lemma_ten_to_monotone((a - 1) as nat, (a - 1) as nat);
    }
}

proof fn lemma_ten_to_add(a: nat, b: nat)
    ensures
        ten_to(a + b) == ten_to(a) * ten_to(b),
    decreases b,
{
    if b == 0 {
        let x = ten_to(a);
        assert(x * 1 == x);
    } else {
        lemma_ten_to_add(a, (b - 1) as nat);
        let x = ten_to(a);
        let y = ten_to((b - 1) as nat);
        assert(10 * (x * y) == x * (10 * y)) by (nonlinear_arith);
        assert((a + b - 1) as nat == a + (b - 1) as nat);
    }
}

#[verifier::rlimit(40)]
proof fn lemma_huge_is_infinite(f: Format, d: nat, e: int)
    requires
        d > 0,
        e >= 400,
    ensures
        nearest(f, numerator(d, e), denominator(e), f.infinity()),
{
    let g = f.grain();
    let top = f.infinity();
    let u = f.unit();
    let n = numerator(d, e);
    lemma_ten_beats_eight(400);
    lemma_ten_to_monotone(400, e as nat);
    let t = ten_to(e as nat);
    assert(d * t >= t) by (nonlinear_arith)
        requires
            d >= 1,
    ;
    let p = ieee::two_to(1200);
    let q = ieee::two_to(g + 1);
    ieee::lemma_two_to_positive(g + 1);
    assert(n * q >= p * q) by (nonlinear_arith)
        requires
            n >= p,
    ;
    ieee::lemma_two_to_add(1200, g + 1);
    // The point half way below infinity is less than twice the power of two
    // that stands for infinity.
    assert(top / u == f.top_exponent() && top % u == 0) by {
        vstd::arithmetic::div_mod::lemma_fundamental_div_mod_converse(
            top as int,
            u as int,
            f.top_exponent() as int,
            0,
        );
    }
    lemma_magnitude_grows(f, (top - 1) as nat);
    assert((top - 1) as nat + 1 == top);
    let k = (f.top_exponent() - 1) as nat;
    let w = ieee::two_to(k);
    assert(magnitude(f, top) == (u + 0) * w);
    assert(u == ieee::two_to(f.fraction_bits())) by {
        reveal_with_fuel(ieee::two_to, 27);
        ieee::lemma_two_to_add(26, 26);
    }
    ieee::lemma_two_to_add(f.fraction_bits(), k);
    assert(midpoint(f, top) < 2 * magnitude(f, top));
    assert(2 * ieee::two_to(f.fraction_bits() + k) == ieee::two_to(f.fraction_bits() + k + 1));
    ieee::lemma_two_to_monotone(f.fraction_bits() + k + 1, 1200 + (g + 1));
    assert(denominator(e) * midpoint(f, top) == midpoint(f, top)) by (nonlinear_arith)
        requires
            denominator(e) == 1,
    ;
}

proof fn lemma_tiny_is_zero(f: Format, d: nat, k: nat, e: int)
    requires
        d < ten_to(k),
        e <= -(k + 400),
    ensures
        nearest(f, numerator(d, e), denominator(e), 0),
{
    let g = f.grain();
    lemma_ten_beats_eight(400);
    lemma_ten_to_monotone(0, 400);
    lemma_ten_to_add(k, 400);
    lemma_ten_to_monotone(k + 400, (-e) as nat);
    ieee::lemma_two_to_monotone(g + 1, 1200);
    let q = ieee::two_to(g + 1);
    let t = ten_to(400);
    let s = ten_to(k);
    assert(d * q < s * t) by (nonlinear_arith)
        requires
            d < s,
            q <= t,
            q >= 0,
            t > 0,
    ;
    lemma_midpoint_of_one(f);
    let den = denominator(e);
    assert(den * 1 == den);
}

proof fn lemma_midpoint_of_one(f: Format)
    ensures
        midpoint(f, 1) == 1,
{
    let u = f.unit();
    assert(0nat / u == 0 && 0nat % u == 0);
    assert(1nat / u == 0 && 1nat % u == 1);
}

proof fn lemma_zero_is_zero(f: Format, e: int)
    ensures
        nearest(f, numerator(0, e), denominator(e), 0),
{
    lemma_midpoint_of_one(f);
    if e >= 0 {
        let t = ten_to(e as nat);
        assert(0 * t == 0);
    } else {
        lemma_ten_to_monotone(0, (-e) as nat);
    }
    let q = ieee::two_to(f.grain() + 1);
    assert(0 * q == 0);
    let den = denominator(e);
    assert(den * 1 == den);
}

proof fn lemma_digits_bound(s: Seq<char>)
    requires
        forall|i: int| 0 <= i < s.len() ==> text::is_digit(#[trigger] s[i]),
    ensures
        text::digits_value(s) < ten_to(s.len()),
    decreases s.len(),
{
    if s.len() > 0 {
        assert(text::is_digit(s[s.len() - 1]));
        lemma_digits_bound(s.drop_last());
    }
}

/// The bits of the magnitude nearest to `digits * 10^exponent`.
fn round_decimal(f: Format, digits: &Vec<char>, exponent: i128) -> (r: u64)
    requires
        forall|i: int| 0 <= i < digits@.len() ==> text::is_digit(#[trigger] digits@[i]),
    ensures
        nearest(
            f,
            numerator(text::digits_value(digits@), exponent as int),
            denominator(exponent as int),
            r as nat,
        ),
{
    let mut num: Vec<u32> = Vec::new();
    let mut any: bool = false;
    let mut i: usize = 0;
    proof {
        assert(digits@.take(0) =~= Seq::empty());
    }
    while i < digits.len()
        invariant
            i <= digits@.len(),
            forall|k: int| 0 <= k < digits@.len() ==> text::is_digit(#[trigger] digits@[k]),
            big(num@) == text::digits_value(digits@.take(i as int)),
            any == (big(num@) > 0),
        decreases digits@.len() - i,
    {
        let c: char = digits[i];
        assert(text::is_digit(digits@[i as int]));
        let d: u64 = c as u64 - 48;
        proof {
            assert(digits@.take(i + 1).drop_last() =~= digits@.take(i as int));
        }
        num = mul_add(&num, 10, d);
        any = any || d > 0;
        i = i + 1;
    }
    proof {
        assert(digits@.take(digits@.len() as int) =~= digits@);
        lemma_digits_bound(digits@);
    }
    let ghost value = big(num@);
    if !any {
        proof {
            lemma_zero_is_zero(f, exponent as int);
        }
        return 0;
    }
    if exponent >= 400 {
        proof {
            lemma_huge_is_infinite(f, value, exponent as int);
        }
        return infinity_of(f);
    }
    if exponent <= -(digits.len() as i128 + 400) {
        proof {
            lemma_tiny_is_zero(f, value, digits@.len(), exponent as int);
        }
        return 0;
    }
    let mut den: Vec<u32> = Vec::new();
    den.push(1);
    proof {
        reveal_with_fuel(big, 2);
        assert(big(den@) == 1);
    }
    let mut n: i128 = 0;
    if exponent >= 0 {
        assert(value * ten_to(0) == value) by {
            assert(ten_to(0) == 1);
        }
        while n < exponent
            invariant
                0 <= n <= exponent,
                big(num@) == value * ten_to(n as nat),
            decreases exponent - n,
        {
            proof {
                let t = ten_to(n as nat);
                assert((value * t) * 10 == value * (10 * t)) by (nonlinear_arith);
            }
            num = mul_add(&num, 10, 0);
            n = n + 1;
        }
    } else {
        let limit: i128 = -exponent;
        while n < limit
            invariant
                0 <= n <= limit,
                big(den@) == ten_to(n as nat),
            decreases limit - n,
        {
            den = mul_add(&den, 10, 0);
            n = n + 1;
        }
    }
    search(f, &num, &den)
}

/// The number of decimal digits in `chars` from `from` on.
fn count_digits(chars: &[char], from: usize) -> (r: usize)
    requires
        from <= chars@.len(),
    ensures
        r == digit_run(chars@.skip(from as int)),
        from + r <= chars@.len(),
        forall|i: int| from <= i < from + r ==> text::is_digit(#[trigger] chars@[i]),
    decreases chars@.len() - from,
{
    if from < chars.len() && text::char_is_digit(chars[from]) {
        proof {
            assert(chars@.skip(from as int).skip(1) =~= chars@.skip(from + 1));
        }
        1 + count_digits(chars, from + 1)
    } else {
        0
    }
}

fn lower_of(c: char) -> (r: char)
    ensures
        r == lower(c),
{
    if 'A' <= c && c <= 'Z' {
        (c as u8 + 32) as char
    } else {
        c
    }
}

fn word_at(chars: &[char], from: usize, word: &[char]) -> (r: bool)
    requires
        from <= chars@.len(),
    ensures
        r == is_word(chars@.skip(from as int), word@),
{
    let ghost s = chars@.skip(from as int);
    if chars.len() - from != word.len() {
        return false;
    }
    let mut i: usize = 0;
    while i < word.len()
        invariant
            i <= word@.len(),
            from + word@.len() == chars.len(),
            s == chars@.skip(from as int),
            forall|k: int| 0 <= k < i ==> lower(#[trigger] s[k]) == word@[k],
        decreases word@.len() - i,
    {
        assert(s[i as int] == chars@[from + i]);
        if lower_of(chars[from + i]) != word[i] {
            return false;
        }
        i = i + 1;
    }
    true
}

/// The value of a run of digits, or a bound that it reaches.
fn capped_value(chars: &[char], from: usize) -> (r: u128)
    requires
        from <= chars@.len(),
        text::is_digits(chars@.skip(from as int)),
    ensures
        r <= 0x100_0000_0000_0000_0000,
        r < 0x100_0000_0000_0000_0000 ==> r == text::digits_value(chars@.skip(from as int)),
        r == 0x100_0000_0000_0000_0000 ==> text::digits_value(chars@.skip(from as int)) >= r,
{
    let ghost s = chars@.skip(from as int);
    let mut acc: u128 = 0;
    let mut i: usize = from;
    proof {
        assert(s.take(0) =~= Seq::empty());
    }
    while i < chars.len()
        invariant
            from <= i <= chars@.len(),
            s == chars@.skip(from as int),
            text::is_digits(s),
            acc == text::digits_value(s.take(i - from)),
            acc < 0x100_0000_0000_0000_0000,
        decreases chars@.len() - i,
    {
        assert(chars@[i as int] == s[i - from]);
        assert(text::is_digit(s[i - from]));
        let d: u128 = chars[i] as u128 - 48;
        proof {
            assert(s.take(i - from + 1).drop_last() =~= s.take(i - from));
            text::lemma_digits_value_prefix(s, i - from + 1);
        }
        acc = acc * 10 + d;
        if acc >= 0x100_0000_0000_0000_0000 {
            return 0x100_0000_0000_0000_0000;
        }
        i = i + 1;
    }
    proof {
        assert(s.take(s.len() as int) =~= s);
    }
    acc
}

/// The exponent part from `from` on, as far as it matters: an exponent beyond
/// `2^72` is handed out as that bound.
fn read_exponent(chars: &[char], from: usize) -> (r: Option<i128>)
    requires
        from <= chars@.len(),
    ensures
        match r {
            Some(e) => ({
                let x = exponent_part(chars@.skip(from as int));
                &&& x is Some
                &&& -0x100_0000_0000_0000_0000 <= e <= 0x100_0000_0000_0000_0000
                &&& -0x100_0000_0000_0000_0000 < e < 0x100_0000_0000_0000_0000 ==> x == Some(
                    e as int,
                )
                &&& e == 0x100_0000_0000_0000_0000 ==> x->0 >= e
                &&& e == -0x100_0000_0000_0000_0000 ==> x->0 <= e
            }),
            None => exponent_part(chars@.skip(from as int)) is None,
        },
{
    let ghost s = chars@.skip(from as int);
    if from == chars.len() {
        return Some(0);
    }
    assert(s[0] == chars@[from as int]);
    if chars[from] != 'e' && chars[from] != 'E' {
        return None;
    }
    let ghost t = s.skip(1);
    let mut start: usize = from + 1;
    let mut negative: bool = false;
    proof {
        assert(t =~= chars@.skip(from + 1));
    }
    if start < chars.len() && (chars[start] == '-' || chars[start] == '+') {
        assert(t[0] == chars@[from + 1]);
        negative = chars[start] == '-';
        start = start + 1;
        proof {
            assert(t.skip(1) =~= chars@.skip(from + 2));
        }
    } else {
        assert(start < chars@.len() ==> t[0] == chars@[from + 1]);
    }
    let n: usize = count_digits(chars, start);
    let ghost d = chars@.skip(start as int);
    if n == 0 || n != chars.len() - start {
        proof {
            lemma_run_of_digits(d);
        }
        return None;
    }
    proof {
        assert forall|i: int| 0 <= i < d.len() implies text::is_digit(#[trigger] d[i]) by {
            assert(d[i] == chars@[start + i]);
        }
    }
    let v: u128 = capped_value(chars, start);
    if negative {
        Some(-(v as i128))
    } else {
        Some(v as i128)
    }
}

proof fn lemma_run_of_digits(s: Seq<char>)
    ensures
        text::is_digits(s) ==> digit_run(s) == s.len(),
    decreases s.len(),
{
    if text::is_digits(s) {
        assert(text::is_digit(s[0]));
        if s.len() > 1 {
            let t = s.skip(1);
            assert forall|i: int| 0 <= i < t.len() implies text::is_digit(#[trigger] t[i]) by {
                assert(t[i] == s[i + 1]);
            }
            lemma_run_of_digits(t);
        } else {
            assert(s.skip(1).len() == 0);
        }
    }
}

/// An exponent beyond the bound rounds like the bound: it decides by itself.
proof fn lemma_capped_exponent(f: Format, d: nat, k: nat, x: int, y: int, r: nat)
    requires
        d < ten_to(k),
        x == y || (x >= y >= 400) || (x <= y <= -(k + 400)),
        nearest(f, numerator(d, y), denominator(y), r),
    ensures
        nearest(f, numerator(d, x), denominator(x), r),
{
    if y != x {
        if d == 0 {
            lemma_zero_is_zero(f, x);
            lemma_zero_is_zero(f, y);
            law_unique_rounding(f, d, y, r, 0);
        } else if y >= 400 {
            lemma_huge_is_infinite(f, d, x);
            lemma_huge_is_infinite(f, d, y);
            law_unique_rounding(f, d, y, r, f.infinity());
        } else {
            lemma_tiny_is_zero(f, d, k, x);
            lemma_tiny_is_zero(f, d, k, y);
            law_unique_rounding(f, d, y, r, 0);
        }
    }
}

/// The digits of a numeral: those from `from` to `point` and from `start` to
/// `end`.
fn gather(chars: &[char], from: usize, point: usize, start: usize, end: usize) -> (r: Vec<char>)
    requires
        from <= point <= chars@.len(),
        start <= end <= chars@.len(),
        forall|i: int| from <= i < point ==> text::is_digit(#[trigger] chars@[i]),
        forall|i: int| start <= i < end ==> text::is_digit(#[trigger] chars@[i]),
    ensures
        r@ == chars@.subrange(from as int, point as int) + chars@.subrange(
            start as int,
            end as int,
        ),
        forall|i: int| 0 <= i < r@.len() ==> text::is_digit(#[trigger] r@[i]),
{
    let mut digits: Vec<char> = Vec::new();
    let mut i: usize = from;
    while i < point
        invariant
            from <= i <= point <= chars@.len(),
            digits@ =~= chars@.subrange(from as int, i as int),
        decreases point - i,
    {
        digits.push(chars[i]);
        i = i + 1;
    }
    let mut i: usize = start;
    while i < end
        invariant
            start <= i <= end <= chars@.len(),
            from <= point <= chars@.len(),
            digits@ =~= chars@.subrange(from as int, point as int) + chars@.subrange(
                start as int,
                i as int,
            ),
        decreases end - i,
    {
        digits.push(chars[i]);
        i = i + 1;
    }
    proof {
        let a = point - from;
        assert forall|k: int| 0 <= k < digits@.len() implies text::is_digit(
            #[trigger] digits@[k],
        ) by {
            if k < a {
                assert(digits@[k] == chars@[from + k]);
            } else {
                assert(digits@[k] == chars@[start + (k - a)]);
            }
        }
    }
    digits
}

/// The digits of the numeral from `from` on, and its exponent as far as it
/// matters.
#[verifier::spinoff_prover]
#[verifier::rlimit(40)]
fn read_number(chars: &[char], from: usize) -> (r: Option<(Vec<char>, i128)>)
    requires
        from <= chars@.len(),
    ensures
        match number_meaning(chars@.skip(from as int)) {
            Some((digits, x)) => ({
                &&& r is Some
                &&& ({
                    let (found, _) = r->0;
                    found@ == digits
                })
                &&& ({
                    let (_, power) = r->0;
                    let y = power as int;
                    let k = digits.len();
                    x == y || (x >= y >= 400) || (x <= y <= -(k + 400))
                })
                &&& forall|i: int|
                    0 <= i < digits.len() ==> text::is_digit(#[trigger] digits[i])
            }),
            None => r is None,
        },
{
    let ghost s = chars@.skip(from as int);
    assert(chars@.len() == chars.len());
    let a: usize = count_digits(chars, from);
    let point: usize = from + a;
    let dot: bool = point < chars.len() && chars[point] == '.';
    assert(point < chars@.len() ==> s[a as int] == chars@[point as int]);
    let start: usize = if dot {
        point + 1
    } else {
        point
    };
    let b: usize = if dot {
        count_digits(chars, start)
    } else {
        0
    };
    let end: usize = start + b;
    proof {
        assert(s.skip(start - from) =~= chars@.skip(start as int));
        assert(s.skip(end - from) =~= chars@.skip(end as int));
    }
    let raw: i128 = match read_exponent(chars, end) {
        Some(e) => e,
        None => return None,
    };
    if a == 0 && b == 0 {
        return None;
    }
    let digits = gather(chars, from, point, start, end);
    proof {
        assert(digits@ =~= s.take(a as int) + s.subrange(start - from, end - from));
    }
    Some((digits, raw - b as i128))
}

fn magnitude_of(f: Format, chars: &[char], from: usize) -> (r: Option<u64>)
    requires
        from <= chars@.len(),
    ensures
        match unsigned_meaning(chars@.skip(from as int)) {
            Some(m) => r is Some && r->0 as nat == magnitude_bits(f, m) && r->0
                < 0x8000_0000_0000_0000 && (f is Single ==> r->0 < 0x8000_0000),
            None => r is None,
        },
{
    let nan: [char; 3] = ['n', 'a', 'n'];
    let inf: [char; 3] = ['i', 'n', 'f'];
    let infinity: [char; 8] = ['i', 'n', 'f', 'i', 'n', 'i', 't', 'y'];
    proof {
        assert(nan@ =~= seq!['n', 'a', 'n']);
        assert(inf@ =~= seq!['i', 'n', 'f']);
        assert(infinity@ =~= seq!['i', 'n', 'f', 'i', 'n', 'i', 't', 'y']);
    }
    if word_at(chars, from, nan.as_slice()) {
        return Some(
            match f {
                Format::Single => 0x7fc0_0000,
                Format::Double => 0x7ff8_0000_0000_0000,
            },
        );
    }
    if word_at(chars, from, inf.as_slice()) || word_at(chars, from, infinity.as_slice()) {
        return Some(infinity_of(f));
    }
    match read_number(chars, from) {
        Some((digits, exponent)) => Some(nearest_bits(f, &digits, exponent)),
        None => None,
    }
}

/// The bits of the magnitude nearest to `digits * 10^exponent`, for every
/// exponent that matters as little as this one.
fn nearest_bits(f: Format, digits: &Vec<char>, exponent: i128) -> (r: u64)
    requires
        forall|i: int| 0 <= i < digits@.len() ==> text::is_digit(#[trigger] digits@[i]),
    ensures
        forall|x: int|
            ({
                let k = digits@.len();
                x == exponent || (x >= exponent >= 400) || (x <= exponent <= -(k + 400))
            }) ==> r as nat == #[trigger] magnitude_bits(
                f,
                Meaning::Number { digits: digits@, exponent: x },
            ),
        r < 0x8000_0000_0000_0000,
        f is Single ==> r < 0x8000_0000,
{
    let r: u64 = round_decimal(f, digits, exponent);
    proof {
        let d = text::digits_value(digits@);
        lemma_digits_bound(digits@);
        assert forall|x: int|
            ({
                let k = digits@.len();
                x == exponent || (x >= exponent >= 400) || (x <= exponent <= -(k + 400))
            }) implies r as nat == #[trigger] magnitude_bits(
            f,
            Meaning::Number { digits: digits@, exponent: x },
        ) by {
            lemma_capped_exponent(f, d, digits@.len(), x, exponent as int, r as nat);
            let chosen = choose|b: nat| nearest(f, numerator(d, x), denominator(x), b);
            law_unique_rounding(f, d, x, r as nat, chosen);
        }
    }
    r
}

/// A decimal numeral rounds to one number only.
pub proof fn law_unique_rounding(f: Format, d: nat, e: int, a: nat, b: nat)
    requires
        nearest(f, numerator(d, e), denominator(e), a),
        nearest(f, numerator(d, e), denominator(e), b),
    ensures
        a == b,
{
    if e < 0 {
        lemma_ten_to_monotone(0, (-e) as nat);
    }
    law_nearest_is_unique(f, numerator(d, e), denominator(e), a, b);
}

/// The bits of the floating-point number that `chars[from..]` spells: an
/// optional sign, then `inf`, `infinity` or `nan` in any case, or digits with
/// an optional point and an optional exponent. The number nearest to the
/// numeral is taken, and the even one where two are equally near.
pub fn parse_real(f: Format, chars: &[char]) -> (r: Option<u64>)
    ensures
        match real_numeral(f, chars@) {
            Some(b) => r is Some && r->0 as nat == b && (f is Single ==> r->0 <= u32::MAX),
            None => r is None,
        },
{
    let mut from: usize = 0;
    let mut negative: bool = false;
    proof {
        assert(chars@.skip(0) =~= chars@);
    }
    if chars.len() > 0 && (chars[0] == '-' || chars[0] == '+') {
        negative = chars[0] == '-';
        from = 1;
    }
    match magnitude_of(f, chars, from) {
        Some(m) => Some(
            if negative {
                m + match f {
                    Format::Single => 0x8000_0000,
                    Format::Double => 0x8000_0000_0000_0000,
                }
            } else {
                m
            },
        ),
        None => None,
    }
}

proof fn lemma_run_is_all(d: Seq<char>, rest: Seq<char>)
    requires
        forall|i: int| 0 <= i < d.len() ==> text::is_digit(#[trigger] d[i]),
        rest.len() == 0 || !text::is_digit(rest[0]),
    ensures
        digit_run(d + rest) == d.len(),
    decreases d.len(),
{
    let s = d + rest;
    if d.len() > 0 {
        assert(s[0] == d[0]);
        assert(s.skip(1) =~= d.skip(1) + rest);
        assert forall|i: int| 0 <= i < d.skip(1).len() implies text::is_digit(
            #[trigger] d.skip(1)[i],
        ) by {
            assert(d.skip(1)[i] == d[i + 1]);
        }
        lemma_run_is_all(d.skip(1), rest);
    } else {
        assert(s =~= rest);
    }
}

/// The digits behind a point count as tenths: the point shifts the digits by
/// as many places as stand behind it.
pub proof fn law_point_shifts_the_digits(whole: Seq<char>, behind: Seq<char>)
    requires
        text::is_digits(whole),
        text::is_digits(behind),
    ensures
        number_meaning(whole + seq!['.'] + behind) == Some(
            (whole + behind, -(behind.len() as int)),
        ),
        number_meaning(whole) == Some((whole, 0int)),
{
    let s = whole + seq!['.'] + behind;
    let tail = seq!['.'] + behind;
    assert(s =~= whole + tail);
    lemma_run_is_all(whole, tail);
    let a = whole.len() as int;
    assert(s[a] == '.');
    assert(s.skip(a + 1) =~= behind + Seq::<char>::empty());
    lemma_run_is_all(behind, Seq::empty());
    assert(s.skip(a + 1 + behind.len()).len() == 0);
    assert(s.take(a) =~= whole);
    assert(s.subrange(a + 1, a + 1 + behind.len()) =~= behind);
    lemma_run_is_all(whole, Seq::empty());
    assert(whole + Seq::<char>::empty() =~= whole);
    assert(whole.skip(a).len() == 0);
    assert(whole.take(a) + whole.subrange(a, a) =~= whole);
}

/// An exponent multiplies by that power of ten, and a negative one divides.
pub proof fn law_exponent_is_a_power_of_ten(digits: Seq<char>, power: Seq<char>)
    requires
        text::is_digits(digits),
        text::is_digits(power),
    ensures
        number_meaning(digits + seq!['e'] + power) == Some(
            (digits, text::digits_value(power) as int),
        ),
        number_meaning(digits + seq!['e', '-'] + power) == Some(
            (digits, -(text::digits_value(power) as int)),
        ),
        numerator(text::digits_value(digits), text::digits_value(power) as int)
            == text::digits_value(digits) * ten_to(text::digits_value(power)),
        denominator(text::digits_value(power) as int) == 1,
        text::digits_value(power) > 0 ==> denominator(-(text::digits_value(power) as int)) == ten_to(
            text::digits_value(power),
        ),
{
    let a = digits.len() as int;
    let t = seq!['e'] + power;
    let s = digits + seq!['e'] + power;
    assert(s =~= digits + t);
    lemma_run_is_all(digits, t);
    assert(s[a] == 'e');
    assert(s.skip(a) =~= t);
    assert(t.skip(1) =~= power);
    assert(text::is_digit(power[0]));
    assert(s.take(a) + s.subrange(a, a) =~= digits);
    let u = seq!['e', '-'] + power;
    let r = digits + seq!['e', '-'] + power;
    assert(r =~= digits + u);
    lemma_run_is_all(digits, u);
    assert(r[a] == 'e');
    assert(r.skip(a) =~= u);
    assert(u.skip(1).skip(1) =~= power);
    assert(u.skip(1)[0] == '-');
    assert(r.take(a) + r.subrange(a, a) =~= digits);
}

/// A minus sign sets the sign bit and changes nothing else.
pub proof fn law_minus_sets_the_sign(f: Format, s: Seq<char>)
    requires
        s.len() > 0,
        s[0] != '-' && s[0] != '+',
    ensures
        real_numeral(f, seq!['-'] + s) == match real_numeral(f, s) {
            Some(b) => Some(f.sign_bit() + b),
            None => None,
        },
        real_numeral(f, seq!['+'] + s) == real_numeral(f, s),
{
    assert((seq!['-'] + s).skip(1) =~= s);
    assert((seq!['+'] + s).skip(1) =~= s);
}

/// A number that a format holds exactly is read as itself.
pub proof fn law_exact_values_are_kept(f: Format, num: nat, den: nat, b: nat)
    requires
        den > 0,
        b < f.infinity(),
        num * ieee::two_to(f.grain()) == den * magnitude(f, b),
    ensures
        nearest(f, num, den, b),
{
    let g = ieee::two_to(f.grain());
    let x = num * ieee::two_to(f.grain() + 1);
    assert(ieee::two_to(f.grain() + 1) == 2 * g);
    assert(x == 2 * (num * g)) by (nonlinear_arith)
        requires
            x == num * (2 * g),
    ;
    let m = magnitude(f, b);
    assert(x == den * (2 * m)) by (nonlinear_arith)
        requires
            x == 2 * (den * m),
    ;
    lemma_magnitude_grows(f, b);
    let above = midpoint(f, b + 1);
    assert(above == m + magnitude(f, b + 1));
    assert(den * (2 * m) < den * above) by (nonlinear_arith)
        requires
            2 * m < above,
            den > 0,
    ;
    if b > 0 {
        lemma_magnitude_grows(f, (b - 1) as nat);
        let below = midpoint(f, b);
        assert(den * below < den * (2 * m)) by (nonlinear_arith)
            requires
                below < 2 * m,
                den > 0,
        ;
    }
}

/// The decimal text of a whole number is read as the double of that number.
pub proof fn law_whole_numbers_are_read(n: nat)
    requires
        n < 0x20_0000_0000_0000,
    ensures
        real_numeral(Format::Double, text::decimal(n)) == Some(ieee::double_of_nat(n)),
{
    let f = Format::Double;
    let d = text::decimal(n);
    let b = ieee::double_of_nat(n);
    text::lemma_decimal_is_digits(n);
    text::lemma_decimal_value(n);
    assert(text::is_digit(d[0]));
    law_point_shifts_the_digits(d, d);
    assert(!is_word(d, seq!['n', 'a', 'n'])) by {
        assert(d.len() == 3 ==> lower(d[0]) == d[0]);
    }
    assert(!is_word(d, seq!['i', 'n', 'f'])) by {
        assert(d.len() == 3 ==> lower(d[0]) == d[0]);
    }
    assert(!is_word(d, seq!['i', 'n', 'f', 'i', 'n', 'i', 't', 'y'])) by {
        assert(d.len() == 8 ==> lower(d[0]) == d[0]);
    }
    assert(unsigned_part(d) == d);
    assert(numerator(n, 0) == n) by {
        assert(n * ten_to(0) == n) by (nonlinear_arith)
            requires
                ten_to(0) == 1,
        ;
    }
    ieee::law_small_integers_are_exact(n);
    assert(magnitude(f, b) == n * ieee::two_to(1074)) by {
        if n == 0 {
            assert(magnitude(f, 0) == 0);
            assert(0 * ieee::two_to(1074) == 0);
        } else {
            ieee::lemma_whole_number_parts(n);
            let k = ieee::log2(n);
            let p = ieee::two_to((52 - k) as nat);
            let m = n * p;
            let u = f.unit();
            assert(b / u == k + 1023 && b % u == m - u);
            let q = ieee::two_to(k + 1022);
            assert((u + (m - u) as nat) * q == m * q);
            ieee::lemma_two_to_add((52 - k) as nat, k + 1022);
            assert((52 - k) as nat + (k + 1022) == 1074);
            assert(m * q == n * (p * q)) by (nonlinear_arith)
                requires
                    m == n * p,
            ;
        }
    }
    assert(1 * magnitude(f, b) == magnitude(f, b));
    law_exact_values_are_kept(f, n, 1, b);
    let c = choose|c: nat| nearest(f, numerator(text::digits_value(d), 0), denominator(0), c);
    assert(nearest(f, numerator(text::digits_value(d), 0), denominator(0), b));
    law_nearest_is_unique(f, n, 1, b, c);
}

} // verus!
