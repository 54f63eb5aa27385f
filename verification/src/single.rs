//! IEEE 754 single-precision arithmetic on non-negative values, in integers.
//!
//! Pointer coordinates reach the relay in single precision and are scaled in
//! single precision. Every finite single is a whole multiple of the smallest
//! one, 2^-149, so a value is modelled by that multiple: a natural number of
//! *units*, with [`one`] units making up the number one. An operation is then
//! exact rational arithmetic followed by [`nearest`], the rounding to the
//! closest single with ties to the even significand.

use vstd::arithmetic::div_mod::{
    lemma_div_is_ordered, lemma_fundamental_div_mod, lemma_fundamental_div_mod_converse,
};
use vstd::arithmetic::mul::lemma_mul_basics;
use vstd::arithmetic::power2::{
    lemma2_to64, lemma2_to64_rest, lemma_pow2_adds, lemma_pow2_pos,
    lemma_pow2_strictly_increases, lemma_pow2_unfold, pow2,
};
use vstd::prelude::*;

verus! {

/// The number one, in units of 2^-149.
pub open spec fn one() -> nat {
    pow2(149)
}

/// The integer closest to `n / d`; a tie goes to the even one.
pub open spec fn round_half_even(n: nat, d: nat) -> nat {
    let q = n / d;
    let r = n % d;
    if 2 * r > d || (2 * r == d && q % 2 == 1) {
        q + 1
    } else {
        q
    }
}

/// The integer closest to `n / d`; a tie goes up.
pub open spec fn round_half_up(n: nat, d: nat) -> nat {
    (2 * n + d) / (2 * d)
}

/// The least exponent `s` for which `n / d` is below `2^(s + 24)`: the number
/// of low bits that a significand of 24 bits cannot hold.
pub open spec fn binade(n: nat, d: nat) -> nat
    decreases n - d,
{
    if d == 0 || n < d * 0x100_0000 {
        0
    } else {
        1 + binade(n, 2 * d)
    }
}

/// The single closest to `n / d` units, in units; ties to even.
pub open spec fn nearest(n: nat, d: nat) -> nat {
    let s = binade(n, d);
    round_half_even(n, d * pow2(s)) * pow2(s)
}

/// The single closest to the integer `v`.
pub open spec fn single_of(v: nat) -> nat {
    nearest(v * one(), 1)
}

/// The quotient of two singles, rounded to a single.
pub open spec fn quotient(a: nat, b: nat) -> nat {
    nearest(a * one(), b)
}

/// The product of two singles, rounded to a single.
pub open spec fn product(a: nat, b: nat) -> nat {
    nearest(a * b, one())
}

/// The integer closest to a single; a tie goes away from zero.
pub open spec fn rounded(a: nat) -> nat {
    round_half_up(a, one())
}

/// A position of `a` units on an axis of length `span`, carried over to an
/// axis of length `extent`: divided by the one length, multiplied by the other
/// and rounded to an integer, each step in single precision.
pub open spec fn proportion(a: nat, span: nat, extent: nat) -> nat {
    rounded(product(quotient(a, single_of(span)), single_of(extent)))
}

/// The units in the single whose sign bit is clear and whose remaining bits
/// are `magnitude`: eight bits of exponent above 23 bits of fraction.
pub open spec fn units(magnitude: u32) -> nat {
    let exponent = magnitude / 0x80_0000;
    let fraction = magnitude % 0x80_0000;
    if exponent == 0 {
        fraction as nat
    } else {
        (0x80_0000 + fraction) as nat * pow2((exponent - 1) as nat)
    }
}

/// Whether `magnitude` is the bit pattern of a finite number.
pub open spec fn is_finite(magnitude: u32) -> bool {
    magnitude < 0x7f80_0000
}

proof fn lemma_scaled_rounding(n: nat, d: nat, c: nat)
    requires
        d > 0,
        c > 0,
    ensures
        round_half_even(n * c, d * c) == round_half_even(n, d),
{
    let q = n / d;
    let r = n % d;
    lemma_fundamental_div_mod(n as int, d as int);
    assert(n * c == q * (d * c) + r * c) by (nonlinear_arith)
        requires
            n == d * q + r,
    ;
    assert(0 <= r * c < d * c) by (nonlinear_arith)
        requires
            0 <= r < d,
            c > 0,
    ;
    lemma_fundamental_div_mod_converse((n * c) as int, (d * c) as int, q as int, (r * c) as int);
    assert((2 * (r * c) > d * c) == (2 * r > d)) by (nonlinear_arith)
        requires
            c > 0,
    ;
    assert((2 * (r * c) == d * c) == (2 * r == d)) by (nonlinear_arith)
        requires
            c > 0,
    ;
}

proof fn lemma_positive_product(a: nat, b: nat)
    requires
        a > 0,
        b > 0,
    ensures
        a * b > 0,
{
    assert(a * b > 0) by (nonlinear_arith)
        requires
            a > 0,
            b > 0,
    ;
}

proof fn lemma_pow2_up_to_72(k: nat)
    requires
        k <= 72,
    ensures
        0 < pow2(k) <= 0x100_0000_0000_0000_0000,
        k == 72 ==> pow2(k) == 0x100_0000_0000_0000_0000,
{
    lemma2_to64();
    lemma2_to64_rest();
    lemma_pow2_adds(64, 8);
    lemma_pow2_pos(k);
    if k < 72 {
        lemma_pow2_strictly_increases(k, 72);
    }
}

proof fn lemma_nothing_rounds_to_nothing(d: nat)
    requires
        d > 0,
    ensures
        nearest(0, d) == 0,
{
    lemma2_to64();
    assert(d * pow2(0) == d);
    assert(binade(0, d) == 0);
    lemma_fundamental_div_mod_converse(0, d as int, 0, 0);
    assert(round_half_even(0, d) == 0);
}

/// [`binade`] is the only exponent that holds the quotient without a spare bit.
proof fn lemma_binade(n: nat, d: nat, s: nat)
    requires
        d > 0,
        n < d * pow2(s) * 0x100_0000,
        s > 0 ==> n >= d * pow2((s - 1) as nat) * 0x100_0000,
    ensures
        binade(n, d) == s,
    decreases s,
{
    lemma2_to64();
    if s > 0 {
        lemma_pow2_unfold(s);
        lemma_pow2_pos((s - 1) as nat);
        assert(d * pow2((s - 1) as nat) >= d) by (nonlinear_arith)
            requires
                pow2((s - 1) as nat) >= 1,
        ;
        assert(d * pow2(s) == (2 * d) * pow2((s - 1) as nat)) by (nonlinear_arith)
            requires
                pow2(s) == 2 * pow2((s - 1) as nat),
        ;
        if s > 1 {
            lemma_pow2_unfold((s - 1) as nat);
            assert(d * pow2((s - 1) as nat) == (2 * d) * pow2((s - 2) as nat)) by (nonlinear_arith)
                requires
                    pow2((s - 1) as nat) == 2 * pow2((s - 2) as nat),
            ;
        }
        lemma_binade(n, 2 * d, (s - 1) as nat);
    } else {
        assert(d * pow2(0) == d);
    }
}

/// What [`binade`] says of its quotient.
proof fn lemma_binade_bounds(n: nat, d: nat)
    requires
        d > 0,
    ensures
        n < d * pow2(binade(n, d)) * 0x100_0000,
        binade(n, d) > 0 ==> n >= d * pow2((binade(n, d) - 1) as nat) * 0x100_0000,
    decreases n - d,
{
    lemma2_to64();
    assert(d * pow2(0) == d);
    if n >= d * 0x100_0000 {
        let s = binade(n, 2 * d);
        lemma_binade_bounds(n, 2 * d);
        lemma_pow2_unfold(s + 1);
        assert(d * pow2(s + 1) == (2 * d) * pow2(s)) by (nonlinear_arith)
            requires
                pow2(s + 1) == 2 * pow2(s),
        ;
        if s > 0 {
            lemma_pow2_unfold(s);
            assert(d * pow2(s) == (2 * d) * pow2((s - 1) as nat)) by (nonlinear_arith)
                requires
                    pow2(s) == 2 * pow2((s - 1) as nat),
            ;
        }
    }
}

/// The significand of a rounded quotient has at most 24 bits, or is `2^24`;
/// above the smallest binade it has no fewer.
proof fn lemma_significand(n: nat, d: nat)
    requires
        d > 0,
    ensures
        round_half_even(n, d * pow2(binade(n, d))) <= 0x100_0000,
        binade(n, d) > 0 ==> round_half_even(n, d * pow2(binade(n, d))) >= 0x80_0000,
{
    let s = binade(n, d);
    let unit = d * pow2(s);
    let (q, r) = (n / unit, n % unit);
    lemma_binade_bounds(n, d);
    lemma_pow2_pos(s);
    lemma_positive_product(d, pow2(s));
    lemma_fundamental_div_mod(n as int, unit as int);
    assert(q < 0x100_0000) by (nonlinear_arith)
        requires
            n == unit * q + r,
            n < unit * 0x100_0000,
            unit > 0,
    ;
    if s > 0 {
        lemma_pow2_unfold(s);
        assert(unit == d * pow2((s - 1) as nat) * 2) by (nonlinear_arith)
            requires
                unit == d * pow2(s),
                pow2(s) == 2 * pow2((s - 1) as nat),
        ;
        assert(q >= 0x80_0000) by (nonlinear_arith)
            requires
                n == unit * q + r,
                n >= unit * 0x80_0000,
                0 <= r < unit,
                q >= 0,
        ;
    }
}

/// A greater quotient does not round to a smaller integer.
proof fn lemma_rounding_ordered(n1: nat, d1: nat, n2: nat, d2: nat)
    requires
        d1 > 0,
        d2 > 0,
        n1 * d2 <= n2 * d1,
    ensures
        round_half_even(n1, d1) <= round_half_even(n2, d2),
{
    let (q1, r1) = (n1 / d1, n1 % d1);
    let (q2, r2) = (n2 / d2, n2 % d2);
    lemma_fundamental_div_mod(n1 as int, d1 as int);
    lemma_fundamental_div_mod(n2 as int, d2 as int);
    assert(q1 <= q2) by (nonlinear_arith)
        requires
            n1 == d1 * q1 + r1,
            n2 == d2 * q2 + r2,
            r1 >= 0,
            r2 < d2,
            d1 > 0,
            d2 > 0,
            n1 * d2 <= n2 * d1,
    ;
    if q1 == q2 {
        assert(r1 * d2 <= r2 * d1) by (nonlinear_arith)
            requires
                n1 == d1 * q1 + r1,
                n2 == d2 * q2 + r2,
                q1 == q2,
                n1 * d2 <= n2 * d1,
        ;
        assert(2 * r1 > d1 ==> 2 * r2 > d2) by (nonlinear_arith)
            requires
                r1 * d2 <= r2 * d1,
                d1 > 0,
                d2 > 0,
        ;
        assert(2 * r1 == d1 ==> 2 * r2 >= d2) by (nonlinear_arith)
            requires
                r1 * d2 <= r2 * d1,
                d1 > 0,
                d2 > 0,
        ;
    }
}

/// Rounding to a single keeps the order of the quotients.
pub proof fn lemma_nearest_ordered(n1: nat, d1: nat, n2: nat, d2: nat)
    requires
        d1 > 0,
        d2 > 0,
        n1 * d2 <= n2 * d1,
    ensures
        nearest(n1, d1) <= nearest(n2, d2),
{
    let (s1, s2) = (binade(n1, d1), binade(n2, d2));
    let (p1, p2) = (pow2(s1), pow2(s2));
    let m1 = round_half_even(n1, d1 * p1);
    let m2 = round_half_even(n2, d2 * p2);
    lemma_binade_bounds(n1, d1);
    lemma_binade_bounds(n2, d2);
    lemma_significand(n1, d1);
    lemma_significand(n2, d2);
    lemma_pow2_pos(s1);
    lemma_pow2_pos(s2);
    if s1 > s2 {
        let p = pow2((s1 - 1) as nat);
        if s1 - 1 > s2 {
            lemma_pow2_strictly_increases(s2, (s1 - 1) as nat);
        }
        assert(n1 * d2 > n2 * d1) by (nonlinear_arith)
            requires
                n1 >= d1 * p * 0x100_0000,
                n2 < d2 * p2 * 0x100_0000,
                p >= p2,
                d1 > 0,
                d2 > 0,
        ;
    } else if s1 == s2 {
        lemma_positive_product(d1, p1);
        lemma_positive_product(d2, p1);
        assert(n1 * (d2 * p1) <= n2 * (d1 * p1)) by (nonlinear_arith)
            requires
                n1 * d2 <= n2 * d1,
        ;
        lemma_rounding_ordered(n1, d1 * p1, n2, d2 * p1);
        assert(m1 * p1 <= m2 * p1) by (nonlinear_arith)
            requires
                m1 <= m2,
        ;
    } else {
        lemma_pow2_unfold(s2);
        let p = pow2((s2 - 1) as nat);
        if s1 < s2 - 1 {
            lemma_pow2_strictly_increases(s1, (s2 - 1) as nat);
        }
        assert(m1 * p1 <= m2 * p2) by (nonlinear_arith)
            requires
                m1 <= 0x100_0000,
                m2 >= 0x80_0000,
                p2 == 2 * p,
                p1 <= p,
        ;
    }
}

/// A quotient that is a single already rounds to itself.
pub proof fn lemma_nearest_of_single(n: nat, d: nat, m: nat, s: nat)
    requires
        d > 0,
        m < 0x100_0000,
        n == d * (m * pow2(s)),
    ensures
        nearest(n, d) == m * pow2(s),
{
    let z = binade(n, d);
    lemma_binade_bounds(n, d);
    lemma_pow2_pos(s);
    lemma_pow2_pos(z);
    if z > s {
        let p = pow2((z - 1) as nat);
        if z - 1 > s {
            lemma_pow2_strictly_increases(s, (z - 1) as nat);
        }
        assert(n < d * p * 0x100_0000) by (nonlinear_arith)
            requires
                n == d * (m * pow2(s)),
                m < 0x100_0000,
                pow2(s) <= p,
                pow2(s) > 0,
                d > 0,
        ;
    }
    let k = m * pow2((s - z) as nat);
    lemma_pow2_adds((s - z) as nat, z);
    assert(m * pow2(s) == k * pow2(z)) by (nonlinear_arith)
        requires
            k == m * pow2((s - z) as nat),
            pow2(s) == pow2((s - z) as nat) * pow2(z),
    ;
    assert(n == k * (d * pow2(z))) by (nonlinear_arith)
        requires
            n == d * (m * pow2(s)),
            m * pow2(s) == k * pow2(z),
    ;
    lemma_positive_product(d, pow2(z));
    lemma_fundamental_div_mod_converse(n as int, (d * pow2(z)) as int, k as int, 0);
}

/// The order of bit patterns is the order of their values.
proof fn lemma_units_ordered(a: u32, b: u32)
    requires
        a < b,
    ensures
        units(a) < units(b),
{
    let (ea, eb) = (a / 0x80_0000, b / 0x80_0000);
    let (fa, fb) = (a % 0x80_0000, b % 0x80_0000);
    lemma2_to64();
    if ea == eb {
        if ea > 0 {
            let p = pow2((ea - 1) as nat);
            lemma_pow2_pos((ea - 1) as nat);
            assert((0x80_0000 + fa) * p < (0x80_0000 + fb) * p) by (nonlinear_arith)
                requires
                    fa < fb,
                    p > 0,
            ;
        }
    } else {
        let p = pow2((eb - 1) as nat);
        lemma_pow2_pos((eb - 1) as nat);
        assert((0x80_0000 + fb) * p >= 0x80_0000 * p) by (nonlinear_arith);
        if ea == 0 {
        } else {
            let r = pow2((ea - 1) as nat);
            lemma_pow2_unfold((eb - 1) as nat);
            let h = pow2((eb - 2) as nat);
            if ea < eb - 1 {
                lemma_pow2_strictly_increases((ea - 1) as nat, (eb - 2) as nat);
            }
            lemma_pow2_pos((ea - 1) as nat);
            assert((0x80_0000 + fa) * r < 0x80_0000 * p) by (nonlinear_arith)
                requires
                    fa < 0x80_0000,
                    r <= h,
                    r > 0,
                    p == 2 * h,
            ;
        }
    }
}

/// `n * 2^t` for a scale that is not negative, else `n`: with it,
/// `n / d * 2^t` is `scaled_up(n, t) / scaled_up(d, -t)` for either sign.
spec fn scaled_up(n: nat, t: int) -> nat {
    if t >= 0 {
        n * pow2(t as nat)
    } else {
        n
    }
}

/// Packing a significand over an exponent; a significand of 25 bits carries.
proof fn lemma_packed_units(m: u32, s: u32)
    requires
        m <= 0x100_0000,
        s > 0 ==> m >= 0x80_0000,
        s <= 252,
    ensures
        is_finite((s * 0x80_0000 + m) as u32),
        units((s * 0x80_0000 + m) as u32) == m * pow2(s as nat),
{
    lemma2_to64();
    if m == 0x100_0000 {
        lemma_pow2_unfold((s + 1) as nat);
        assert(0x80_0000 * pow2((s + 1) as nat) == m * pow2(s as nat)) by (nonlinear_arith)
            requires
                pow2((s + 1) as nat) == 2 * pow2(s as nat),
                m == 0x100_0000,
        ;
    } else if s == 0 && m < 0x80_0000 {
        assert(m * pow2(0) == m);
    }
}

/// What the exact quotient and its scaled stand-in have in common.
proof fn lemma_same_rounding(n: nat, d: nat, t: int, k: nat)
    requires
        0 < n,
        0 < d < 0x100_0000,
        k - 48 + t >= 0,
    ensures
        ({
            let s = (k - 48 + t) as nat;
            let (wide_n, wide_d) = (scaled_up(n, t), scaled_up(d, -t));
            &&& wide_d > 0
            &&& round_half_even(wide_n, wide_d * pow2(s)) == round_half_even(
                n * 0x1_0000_0000_0000,
                d * pow2(k),
            )
            &&& (wide_n < wide_d * pow2(s) * 0x100_0000) == (n * 0x1_0000_0000_0000 < d * pow2(k)
                * 0x100_0000)
        }),
{
    let s = (k - 48 + t) as nat;
    let (wide_n, wide_d) = (scaled_up(n, t), scaled_up(d, -t));
    let f: nat = 0x1_0000_0000_0000;
    lemma2_to64_rest();
    assert(pow2(48) == f);
    lemma_pow2_pos(k);
    lemma_pow2_pos(s);
    lemma2_to64();
    assert(d * pow2(0) == d);
    if t >= 0 {
        let c = pow2(t as nat);
        lemma_pow2_pos(t as nat);
        lemma_positive_product(d, pow2(k));
        lemma_pow2_adds(s, 48);
        lemma_pow2_adds(k, t as nat);
        assert(pow2(s) * f == pow2(k) * c);
        assert((d * pow2(s)) * f == (d * pow2(k)) * c) by (nonlinear_arith)
            requires
                pow2(s) * f == pow2(k) * c,
        ;
        assert((n * c) * f == (n * f) * c) by (nonlinear_arith);
        lemma_shared_scale(wide_n, d * pow2(s), f, n * f, d * pow2(k), c);
    } else {
        let c = pow2((-t) as nat);
        lemma_pow2_pos((-t) as nat);
        lemma_pow2_adds((-t) as nat, s);
        lemma_pow2_adds((k - 48) as nat, 48);
        assert(c * pow2(s) * f == pow2(k));
        assert(((d * c) * pow2(s)) * f == d * pow2(k)) by (nonlinear_arith)
            requires
                c * pow2(s) * f == pow2(k),
        ;
        lemma_positive_product(d, c);
        lemma_positive_product(d, pow2(k));
        lemma_shared_scale(wide_n, wide_d * pow2(s), f, n * f, d * pow2(k), 1);
    }
}

proof fn lemma_shared_scale(n1: nat, d1: nat, c1: nat, n2: nat, d2: nat, c2: nat)
    requires
        n1 * c1 == n2 * c2,
        d1 * c1 == d2 * c2,
        c1 > 0,
        c2 > 0,
        d2 > 0,
    ensures
        d1 > 0,
        round_half_even(n1, d1) == round_half_even(n2, d2),
        (n1 < d1 * 0x100_0000) == (n2 < d2 * 0x100_0000),
{
    assert(d1 > 0) by (nonlinear_arith)
        requires
            d1 * c1 == d2 * c2,
            d2 > 0,
            c2 > 0,
    ;
    lemma_scaled_rounding(n1, d1, c1);
    lemma_scaled_rounding(n2, d2, c2);
    assert((n1 < d1 * 0x100_0000) == (n1 * c1 < d1 * c1 * 0x100_0000)) by (nonlinear_arith)
        requires
            c1 > 0,
    ;
    assert((n2 < d2 * 0x100_0000) == (n2 * c2 < d2 * c2 * 0x100_0000)) by (nonlinear_arith)
        requires
            c2 > 0,
    ;
}

/// The single closest to `n / d * 2^t` units.
fn nearest_scaled(n: u64, d: u64, t: i32) -> (magnitude: u32)
    requires
        n < 0x1_0000_0000_0000,
        0 < d < 0x100_0000,
        -24 <= t <= 228,
    ensures
        is_finite(magnitude),
        units(magnitude) == nearest(scaled_up(n as nat, t as int), scaled_up(d as nat, -t)),
{
    proof {
        lemma2_to64();
        if t < 0 {
            lemma_pow2_pos((-t) as nat);
            lemma_positive_product(d as nat, pow2((-t) as nat));
        }
    }
    if n == 0 {
        proof {
            lemma_nothing_rounds_to_nothing(scaled_up(d as nat, -t));
            lemma_mul_basics(pow2(t as nat) as int);
        }
        return 0;
    }
    let dividend: u128 = n as u128 * 0x1_0000_0000_0000;
    let mut divisor: u128 = d as u128;
    let mut k: i32 = 0;
    assert(d * pow2(0) == d);
    while dividend >= divisor * 0x100_0000 || k - 48 + t < 0
        invariant
            0 < n < 0x1_0000_0000_0000,
            0 < d < 0x100_0000,
            -24 <= t <= 228,
            dividend == n * 0x1_0000_0000_0000,
            0 <= k <= 72,
            divisor == d * pow2(k as nat),
            divisor < 0x1_0000_0000_0000_0000_0000_0000,
            k > 0 ==> (dividend >= d * pow2((k - 1) as nat) * 0x100_0000 || k - 1 - 48 + t < 0),
        decreases 72 - k,
    {
        proof {
            lemma_pow2_up_to_72(k as nat);
            if k == 72 {
                assert(d * pow2(72) >= pow2(72)) by (nonlinear_arith)
                    requires
                        d >= 1,
                ;
            }
            lemma_pow2_unfold((k + 1) as nat);
            lemma_pow2_up_to_72((k + 1) as nat);
            assert(d * pow2((k + 1) as nat) == d * pow2(k as nat) * 2) by (nonlinear_arith)
                requires
                    pow2((k + 1) as nat) == 2 * pow2(k as nat),
            ;
            assert(d * pow2((k + 1) as nat) < 0x1_0000_0000_0000_0000_0000_0000) by (nonlinear_arith)
                requires
                    0 < d < 0x100_0000,
                    0 < pow2((k + 1) as nat) <= 0x100_0000_0000_0000_0000,
            ;
        }
        divisor = divisor * 2;
        k = k + 1;
    }
    let q: u128 = dividend / divisor;
    let r: u128 = dividend % divisor;
    let s: u32 = (k - 48 + t) as u32;
    proof {
        lemma_pow2_pos(k as nat);
        lemma_positive_product(d as nat, pow2(k as nat));
        lemma_fundamental_div_mod(dividend as int, divisor as int);
        assert(q < 0x100_0000) by (nonlinear_arith)
            requires
                dividend == divisor * q + r,
                dividend < divisor * 0x100_0000,
                r >= 0,
                divisor > 0,
        ;
        assert(k > 0) by {
            assert(d * pow2(0) == d);
        }
        if s > 0 {
            lemma_pow2_unfold(k as nat);
            assert(d * pow2(k as nat) == d * pow2((k - 1) as nat) * 2) by (nonlinear_arith)
                requires
                    pow2(k as nat) == 2 * pow2((k - 1) as nat),
            ;
            assert(q >= 0x80_0000) by (nonlinear_arith)
                requires
                    dividend == divisor * q + r,
                    dividend >= divisor * 0x80_0000,
                    r < divisor,
            ;
        }
    }
    let m: u32 = if 2 * r > divisor || (2 * r == divisor && q % 2 == 1) {
        q as u32 + 1
    } else {
        q as u32
    };
    proof {
        let (wide_n, wide_d) = (scaled_up(n as nat, t as int), scaled_up(d as nat, -t));
        lemma_same_rounding(n as nat, d as nat, t as int, k as nat);
        if s > 0 {
            lemma_same_rounding(n as nat, d as nat, t as int, (k - 1) as nat);
        }
        lemma_binade(wide_n, wide_d, s as nat);
        lemma_packed_units(m, s);
    }
    s * 0x80_0000 + m
}

/// Splits a finite magnitude into its significand and its exponent.
fn parts(magnitude: u32) -> (split: (u32, u32))
    requires
        is_finite(magnitude),
    ensures
        units(magnitude) == split.0 * pow2(split.1 as nat),
        split.0 < 0x100_0000,
        split.1 == (if magnitude < 0x80_0000 { 0 } else { magnitude / 0x80_0000 - 1 }),
        magnitude > 0 ==> split.0 > 0,
{
    proof {
        lemma2_to64();
        assert(magnitude * pow2(0) == magnitude);
    }
    let exponent: u32 = magnitude / 0x80_0000;
    let fraction: u32 = magnitude % 0x80_0000;
    if exponent == 0 {
        (fraction, 0)
    } else {
        (0x80_0000 + fraction, exponent - 1)
    }
}

/// The magnitude of the number one.
pub const ONE: u32 = 0x3f80_0000;

/// The magnitude of 2^32, to which the largest `u32` rounds.
pub const TWO_TO_32: u32 = 0x4f80_0000;

proof fn lemma_landmarks()
    ensures
        units(0) == 0,
        units(ONE) == one(),
        units(TWO_TO_32) == 0x1_0000_0000 * one(),
        single_of(1) == one(),
        single_of(0x1_0000_0000) == 0x1_0000_0000 * one(),
        one() > 0,
{
    lemma2_to64();
    lemma_pow2_pos(149);
    lemma_pow2_adds(23, 126);
    lemma_pow2_adds(23, 158);
    lemma_pow2_adds(32, 149);
    assert(0x3f80_0000u32 / 0x80_0000 == 127 && 0x3f80_0000u32 % 0x80_0000 == 0);
    assert(0x4f80_0000u32 / 0x80_0000 == 159 && 0x4f80_0000u32 % 0x80_0000 == 0);
    assert(pow2(23) == 0x80_0000);
    lemma_nearest_of_single(one(), 1, 1, 149);
    assert(0x80_0000nat * pow2(158) == 0x1_0000_0000nat * pow2(149));
    lemma_nearest_of_single(0x1_0000_0000nat * one(), 1, 0x80_0000, 158);
}

/// Converts an integer to single precision.
pub(crate) fn single_from_u32(v: u32) -> (magnitude: u32)
    ensures
        units(magnitude) == single_of(v as nat),
        v == 0 ==> magnitude == 0,
        v > 0 ==> ONE <= magnitude <= TWO_TO_32,
{
    let magnitude: u32 = nearest_scaled(v as u64, 1, 149);
    proof {
        lemma2_to64();
        lemma_landmarks();
        if v > 0 {
            assert(v * one() >= one()) by (nonlinear_arith)
                requires
                    v >= 1,
            ;
            lemma_nearest_ordered(one(), 1, v as nat * one(), 1);
            assert(v * one() <= 0x1_0000_0000 * one()) by (nonlinear_arith)
                requires
                    v <= 0x1_0000_0000,
            ;
            lemma_nearest_ordered(v as nat * one(), 1, 0x1_0000_0000 * one(), 1);
            if magnitude < ONE {
                lemma_units_ordered(magnitude, ONE);
            }
            if magnitude > TWO_TO_32 {
                lemma_units_ordered(TWO_TO_32, magnitude);
            }
        } else {
            lemma_mul_basics(one() as int);
            lemma_nothing_rounds_to_nothing(1);
            if magnitude > 0 {
                lemma_units_ordered(0, magnitude);
            }
        }
    }
    magnitude
}

/// Equal quotients round alike.
proof fn lemma_nearest_of_equal_quotients(n1: nat, d1: nat, n2: nat, d2: nat)
    requires
        d1 > 0,
        d2 > 0,
        n1 * d2 == n2 * d1,
    ensures
        nearest(n1, d1) == nearest(n2, d2),
{
    lemma_nearest_ordered(n1, d1, n2, d2);
    lemma_nearest_ordered(n2, d2, n1, d1);
}

/// Only the difference of two scales counts.
proof fn lemma_difference_of_scales(n: nat, d: nat, x: nat, y: nat)
    requires
        d > 0,
    ensures
        nearest(scaled_up(n, x - y), scaled_up(d, y - x)) == nearest(n * pow2(x), d * pow2(y)),
{
    let t = x - y;
    lemma2_to64();
    lemma_mul_basics(n as int);
    lemma_mul_basics(d as int);
    lemma_pow2_pos(y);
    lemma_positive_product(d, pow2(y));
    if t >= 0 {
        lemma_pow2_adds(t as nat, y);
        assert(n * pow2(t as nat) * (d * pow2(y)) == n * pow2(x) * d) by (nonlinear_arith)
            requires
                pow2(x) == pow2(t as nat) * pow2(y),
        ;
        lemma_nearest_of_equal_quotients(n * pow2(t as nat), d, n * pow2(x), d * pow2(y));
    } else {
        lemma_pow2_adds((-t) as nat, x);
        lemma_pow2_pos((-t) as nat);
        lemma_positive_product(d, pow2((-t) as nat));
        assert(n * (d * pow2(y)) == n * pow2(x) * (d * pow2((-t) as nat))) by (nonlinear_arith)
            requires
                pow2(y) == pow2((-t) as nat) * pow2(x),
        ;
        lemma_nearest_of_equal_quotients(n, d * pow2((-t) as nat), n * pow2(x), d * pow2(y));
    }
}

/// Divides a single by one that is no smaller.
pub(crate) fn fraction_of(a: u32, b: u32) -> (magnitude: u32)
    requires
        a <= b,
        ONE <= b <= TWO_TO_32,
    ensures
        units(magnitude) == quotient(units(a), units(b)),
        magnitude <= ONE,
{
    let (ma, sa) = parts(a);
    let (mb, sb) = parts(b);
    let magnitude: u32 = nearest_scaled(ma as u64, mb as u64, sa as i32 - sb as i32 + 149);
    proof {
        lemma_landmarks();
        lemma_pow2_adds(sa as nat, 149);
        assert(ma * pow2((sa + 149) as nat) == units(a) * one()) by (nonlinear_arith)
            requires
                units(a) == ma * pow2(sa as nat),
                pow2((sa + 149) as nat) == pow2(sa as nat) * one(),
        ;
        lemma_difference_of_scales(ma as nat, mb as nat, (sa + 149) as nat, sb as nat);
        lemma_pow2_pos(sb as nat);
        lemma_positive_product(mb as nat, pow2(sb as nat));
        if a < b {
            lemma_units_ordered(a, b);
        }
        lemma_fraction_at_most_one(units(a), units(b));
        if magnitude > ONE {
            lemma_units_ordered(ONE, magnitude);
        }
    }
    magnitude
}

/// A single divided by one that is no smaller is at most one, and exactly one
/// where the two are equal.
pub proof fn lemma_fraction_at_most_one(a: nat, b: nat)
    requires
        a <= b,
        b > 0,
    ensures
        quotient(a, b) <= one(),
        a == b ==> quotient(a, b) == one(),
{
    lemma_landmarks();
    assert(a * one() * 1 <= one() * b) by (nonlinear_arith)
        requires
            a <= b,
    ;
    lemma_nearest_ordered(a * one(), b, one(), 1);
    if a == b {
        assert(a * one() * 1 == one() * b) by (nonlinear_arith)
            requires
                a == b,
        ;
        lemma_nearest_of_equal_quotients(a * one(), b, one(), 1);
    }
}

/// Multiplies a single of at most one by one that an integer rounds to.
pub(crate) fn times(a: u32, b: u32) -> (magnitude: u32)
    requires
        a <= ONE,
        b == 0 || ONE <= b <= TWO_TO_32,
    ensures
        units(magnitude) == product(units(a), units(b)),
        magnitude <= TWO_TO_32,
{
    proof {
        lemma_landmarks();
        lemma_mul_basics(units(a) as int);
        lemma_nothing_rounds_to_nothing(one());
    }
    if b == 0 {
        return 0;
    }
    let (ma, sa) = parts(a);
    let (mb, sb) = parts(b);
    assert(ma * mb < 0x1_0000_0000_0000) by (nonlinear_arith)
        requires
            ma < 0x100_0000,
            mb < 0x100_0000,
    ;
    let magnitude: u32 = nearest_scaled(
        ma as u64 * mb as u64,
        1,
        sa as i32 + sb as i32 - 149,
    );
    proof {
        let (x, y) = (pow2(sa as nat), pow2(sb as nat));
        lemma_pow2_adds(sa as nat, sb as nat);
        assert((ma * mb) * (x * y) == (ma * x) * (mb * y)) by (nonlinear_arith);
        lemma_mul_basics(one() as int);
        lemma_difference_of_scales((ma * mb) as nat, 1, (sa + sb) as nat, 149);
        if a < ONE {
            lemma_units_ordered(a, ONE);
        }
        if b < TWO_TO_32 {
            lemma_units_ordered(b, TWO_TO_32);
        }
        assert(units(a) * units(b) * 1 <= (0x1_0000_0000 * one()) * one()) by (nonlinear_arith)
            requires
                units(a) <= one(),
                units(b) <= 0x1_0000_0000 * one(),
        ;
        lemma_nearest_ordered(units(a) * units(b), one(), 0x1_0000_0000 * one(), 1);
        if magnitude > TWO_TO_32 {
            lemma_units_ordered(TWO_TO_32, magnitude);
        }
    }
    magnitude
}

/// A small power of two.
fn power_of_two(k: u32) -> (p: u64)
    requires
        k <= 32,
    ensures
        p == pow2(k as nat),
        p <= 0x1_0000_0000,
{
    let mut p: u64 = 1;
    let mut i: u32 = 0;
    proof {
        lemma2_to64();
    }
    while i < k
        invariant
            i <= k <= 32,
            p == pow2(i as nat),
        decreases k - i,
    {
        proof {
            lemma_pow2_unfold((i + 1) as nat);
            lemma_pow2_up_to_32(i as nat);
        }
        p = p * 2;
        i = i + 1;
    }
    proof {
        lemma_pow2_up_to_32(k as nat);
    }
    p
}

proof fn lemma_pow2_up_to_32(k: nat)
    requires
        k <= 32,
    ensures
        0 < pow2(k) <= 0x1_0000_0000,
{
    lemma2_to64();
    lemma_pow2_pos(k);
    if k < 32 {
        lemma_pow2_strictly_increases(k, 32);
    }
}

/// Rounding a number of units whose exponent is below that of the number one.
proof fn lemma_rounded_fraction(m: nat, s: nat)
    requires
        s < 149,
        m < 0x100_0000,
    ensures
        rounded(m * pow2(s)) == (2 * m + pow2((149 - s) as nat)) / (2 * pow2((149 - s) as nat)),
        149 - s >= 25 ==> rounded(m * pow2(s)) == 0,
{
    let h = pow2((149 - s) as nat);
    let q = pow2(s);
    let w = (2 * m + h) / (2 * h);
    let r = (2 * m + h) % (2 * h);
    lemma2_to64();
    lemma_pow2_pos(s);
    lemma_pow2_pos((149 - s) as nat);
    lemma_pow2_adds(s, (149 - s) as nat);
    lemma_fundamental_div_mod((2 * m + h) as int, (2 * h) as int);
    assert(2 * (m * q) + q * h == w * (2 * (q * h)) + r * q) by (nonlinear_arith)
        requires
            2 * m + h == (2 * h) * w + r,
    ;
    assert(0 <= r * q < 2 * (q * h)) by (nonlinear_arith)
        requires
            0 <= r < 2 * h,
            q > 0,
    ;
    lemma_fundamental_div_mod_converse(
        (2 * (m * q) + q * h) as int,
        (2 * (q * h)) as int,
        w as int,
        (r * q) as int,
    );
    if 149 - s >= 25 {
        if 149 - s > 25 {
            lemma_pow2_strictly_increases(25, (149 - s) as nat);
        }
        lemma_fundamental_div_mod_converse(
            (2 * m + h) as int,
            (2 * h) as int,
            0,
            (2 * m + h) as int,
        );
    }
}

/// Rounding a number of units that is a whole number already.
pub proof fn lemma_rounded_integer(v: nat)
    ensures
        rounded(v * one()) == v,
{
    lemma_pow2_pos(149);
    assert(2 * (v * one()) + one() == v * (2 * one()) + one()) by (nonlinear_arith);
    lemma_fundamental_div_mod_converse(
        (2 * (v * one()) + one()) as int,
        (2 * one()) as int,
        v as int,
        one() as int,
    );
}

/// Rounding to an integer keeps the order.
pub proof fn lemma_rounded_ordered(a: nat, b: nat)
    requires
        a <= b,
    ensures
        rounded(a) <= rounded(b),
{
    lemma_pow2_pos(149);
    lemma_div_is_ordered(
        (2 * a + one()) as int,
        (2 * b + one()) as int,
        (2 * one()) as int,
    );
}

/// Rounds a single to the closest integer, a tie away from zero.
pub(crate) fn round_to_integer(a: u32) -> (v: u64)
    requires
        a <= TWO_TO_32,
    ensures
        v == rounded(units(a)),
        v <= 0x1_0000_0000,
{
    let (m, s) = parts(a);
    proof {
        lemma_landmarks();
        if a < TWO_TO_32 {
            lemma_units_ordered(a, TWO_TO_32);
        }
        lemma_rounded_ordered(units(a), 0x1_0000_0000 * one());
        lemma_rounded_integer(0x1_0000_0000);
    }
    if s >= 149 {
        let p: u64 = power_of_two(s - 149);
        proof {
            let v = (m * p) as nat;
            lemma_pow2_adds((s - 149) as nat, 149);
            assert(v * one() == m * pow2(s as nat)) by (nonlinear_arith)
                requires
                    v == m * p,
                    pow2(s as nat) == p * one(),
            ;
            lemma_rounded_integer(v);
        }
        m as u64 * p
    } else {
        proof {
            lemma_rounded_fraction(m as nat, s as nat);
        }
        if 149 - s >= 25 {
            0
        } else {
            let h: u64 = power_of_two(149 - s);
            proof {
                lemma_pow2_pos((149 - s) as nat);
            }
            (2 * m as u64 + h) / (2 * h)
        }
    }
}

/// Carries an integer position over from an axis of length `span` to one of
/// length `extent`.
pub(crate) fn project_integer(offset: u32, span: u32, extent: u32) -> (v: u64)
    requires
        offset <= span,
        span > 0,
    ensures
        v == proportion(single_of(offset as nat), span as nat, extent as nat),
{
    let position: u32 = single_from_u32(offset);
    let limit: u32 = single_from_u32(span);
    proof {
        lemma_single_of_ordered(offset as nat, span as nat);
        if position > limit {
            lemma_units_ordered(limit, position);
        }
    }
    round_to_integer(times(fraction_of(position, limit), single_from_u32(extent)))
}

/// Conversion to single precision keeps the order of integers.
pub proof fn lemma_single_of_ordered(a: nat, b: nat)
    requires
        a <= b,
    ensures
        single_of(a) <= single_of(b),
{
    assert(a * one() * 1 <= b * one() * 1) by (nonlinear_arith)
        requires
            a <= b,
    ;
    lemma_nearest_ordered(a * one(), 1, b * one(), 1);
}

/// An integer of at most 24 bits is a single.
pub proof fn lemma_single_of_small(v: nat)
    requires
        v < 0x100_0000,
    ensures
        single_of(v) == v * one(),
{
    lemma_nearest_of_single(v * one(), 1, v, 149);
}

/// A positive integer rounds to a positive single.
pub proof fn lemma_single_of_positive(v: nat)
    requires
        v > 0,
    ensures
        single_of(v) >= one() > 0,
{
    lemma_landmarks();
    lemma_single_of_ordered(1, v);
}

/// Carrying a position over keeps the order of positions.
pub proof fn lemma_proportion_ordered(a: nat, b: nat, span: nat, extent: nat)
    requires
        a <= b,
        span > 0,
    ensures
        proportion(a, span, extent) <= proportion(b, span, extent),
{
    let (x, y) = (single_of(span), single_of(extent));
    lemma_single_of_positive(span);
    assert(a * one() * x <= b * one() * x) by (nonlinear_arith)
        requires
            a <= b,
    ;
    lemma_nearest_ordered(a * one(), x, b * one(), x);
    let (p, q) = (quotient(a, x), quotient(b, x));
    assert(p * y * one() <= q * y * one()) by (nonlinear_arith)
        requires
            p <= q,
    ;
    lemma_nearest_ordered(p * y, one(), q * y, one());
    lemma_rounded_ordered(product(p, y), product(q, y));
}

/// The start of one axis is carried to the start of the other, the end to the
/// end, as far as single precision can hold it.
pub proof fn lemma_proportion_ends(span: nat, extent: nat)
    requires
        span > 0,
    ensures
        proportion(0, span, extent) == 0,
        proportion(single_of(span), span, extent) == rounded(single_of(extent)),
        extent < 0x100_0000 ==> proportion(single_of(span), span, extent) == extent,
{
    let (x, y) = (single_of(span), single_of(extent));
    lemma_landmarks();
    lemma_single_of_positive(span);
    lemma_mul_basics(one() as int);
    lemma_mul_basics(y as int);
    lemma_nothing_rounds_to_nothing(x);
    lemma_nothing_rounds_to_nothing(one());
    lemma_rounded_integer(0);
    lemma_fraction_at_most_one(x, x);
    assert(product(one(), y) == y) by {
        lemma_nearest_is_idempotent(extent * one(), 1);
        assert((one() * y) * 1 == y * one()) by (nonlinear_arith);
        lemma_nearest_of_equal_quotients(one() * y, one(), y, 1);
    }
    if extent < 0x100_0000 {
        lemma_single_of_small(extent);
        lemma_rounded_integer(extent);
    }
}

/// What has been rounded to a single stays as it is.
proof fn lemma_nearest_is_idempotent(n: nat, d: nat)
    requires
        d > 0,
    ensures
        nearest(nearest(n, d), 1) == nearest(n, d),
{
    let s = binade(n, d);
    let m = round_half_even(n, d * pow2(s));
    lemma_significand(n, d);
    if m < 0x100_0000 {
        lemma_nearest_of_single(m * pow2(s), 1, m, s);
    } else {
        lemma_pow2_unfold(s + 1);
        assert(m * pow2(s) == 0x80_0000 * pow2(s + 1)) by (nonlinear_arith)
            requires
                m == 0x100_0000,
                pow2(s + 1) == 2 * pow2(s),
        ;
        lemma_nearest_of_single(m * pow2(s), 1, 0x80_0000, s + 1);
    }
}

/// Rounding to a single is off by at most one part in 2^24, above the smallest
/// binade.
proof fn lemma_relative_error(n: nat, d: nat)
    requires
        d > 0,
        n >= d * 0x100_0000,
    ensures
        distance(nearest(n, d) * d, n) * 0x100_0000 <= n,
{
    let s = binade(n, d);
    let unit = d * pow2(s);
    let k = round_half_even(n, unit);
    let error = distance(k * unit, n);
    lemma2_to64();
    lemma_binade_bounds(n, d);
    lemma_pow2_pos(s);
    lemma_positive_product(d, pow2(s));
    lemma_rounding_error(n, unit);
    assert(s > 0) by {
        assert(d * pow2(0) == d);
    }
    lemma_pow2_unfold(s);
    assert(unit == d * pow2((s - 1) as nat) * 2) by (nonlinear_arith)
        requires
            unit == d * pow2(s),
            pow2(s) == 2 * pow2((s - 1) as nat),
    ;
    assert(k * pow2(s) * d == k * unit) by (nonlinear_arith)
        requires
            unit == d * pow2(s),
    ;
    assert(2 * error <= unit);
}

/// A pixel of an axis of at most 2^22 pixels, carried over to an axis of the
/// same length, stays the same pixel.
pub proof fn lemma_proportion_of_equal_lengths(v: nat, length: nat)
    requires
        v < length <= 0x40_0000,
    ensures
        proportion(v * one(), length, length) == v,
{
    let unit = one();
    lemma_landmarks();
    lemma_single_of_small(length);
    lemma_single_of_positive(length);
    if v == 0 {
        assert(v * unit == 0);
        lemma_proportion_ends(length, length);
        return;
    }
    let exact = v * unit;
    let q = quotient(exact, length * unit);
    let scaled = q * length;
    let p = product(q, length * unit);
    assert(exact >= unit) by (nonlinear_arith)
        requires
            exact == v * unit,
            v >= 1,
    ;
    assert(unit >= 0x1_0000_0000_0000) by {
        lemma2_to64();
        lemma2_to64_rest();
        lemma_pow2_strictly_increases(48, 149);
    }
    // The quotient, scaled back by the length, is close to the position.
    assert(exact * unit >= (length * unit) * 0x100_0000) by (nonlinear_arith)
        requires
            exact >= unit,
            unit >= 0x1_0000_0000_0000,
            length <= 0x40_0000,
    ;
    assert(length * unit > 0) by (nonlinear_arith)
        requires
            length > 0,
            unit > 0,
    ;
    lemma_relative_error(exact * unit, length * unit);
    assert(q * (length * unit) == scaled * unit) by (nonlinear_arith)
        requires
            scaled == q * length,
    ;
    lemma_common_factor(scaled, exact, unit);
    // So is the product, rounded once more.
    assert((q * (length * unit)) >= unit * 0x100_0000) by (nonlinear_arith)
        requires
            q * (length * unit) == scaled * unit,
            scaled >= 0x100_0000,
            unit > 0,
    ;
    lemma_relative_error(q * (length * unit), unit);
    lemma_common_factor(p, scaled, unit);
    assert(v * (2 * unit) == 2 * exact) by (nonlinear_arith)
        requires
            exact == v * unit,
    ;
    assert(4 * exact <= 0xff_fffc * unit) by (nonlinear_arith)
        requires
            exact == v * unit,
            v <= 0x3f_ffff,
    ;
    lemma_fundamental_div_mod_converse(
        (2 * p + unit) as int,
        (2 * unit) as int,
        v as int,
        2 * p + unit - 2 * exact,
    );
}

/// A bound on the distance of two multiples bounds the distance of the factors.
proof fn lemma_common_factor(a: nat, b: nat, factor: nat)
    requires
        factor > 0,
        distance(a * factor, b * factor) * 0x100_0000 <= b * factor,
    ensures
        distance(a, b) * 0x100_0000 <= b,
{
    let gap = distance(a, b);
    assert(distance(a * factor, b * factor) == gap * factor) by (nonlinear_arith)
        requires
            gap == (if a < b { b - a } else { a - b }),
            distance(a * factor, b * factor) == (if a * factor < b * factor {
                b * factor - a * factor
            } else {
                a * factor - b * factor
            }),
            factor > 0,
    ;
    assert(gap * 0x100_0000 <= b) by (nonlinear_arith)
        requires
            (gap * factor) * 0x100_0000 <= b * factor,
            factor > 0,
    ;
}

/// A single-precision number, as its bit pattern: a sign bit, eight bits of
/// exponent and 23 bits of fraction.
#[derive(Debug, Clone, Copy)]
pub struct Single {
    pub bits: u32,
}

impl Single {
    /// Whether this is not a number.
    pub open spec fn is_nan(self) -> bool {
        self.bits % 0x8000_0000 > 0x7f80_0000
    }

    /// The value in units, clamped to `0..=limit`; an infinity has no units of
    /// its own and is clamped like any number beyond the limit.
    pub open spec fn clamped(self, limit: nat) -> nat {
        let magnitude = self.bits % 0x8000_0000;
        if self.bits >= 0x8000_0000 {
            0
        } else if !is_finite(magnitude) || units(magnitude) > limit {
            limit
        } else {
            units(magnitude)
        }
    }

    /// How far along `extent` this position on an axis of length `span` lies
    /// once it is clamped to the axis. What is not a number lies at the start.
    pub open spec fn projected(self, span: nat, extent: nat) -> nat {
        if self.is_nan() {
            0
        } else {
            proportion(self.clamped(single_of(span)), span, extent)
        }
    }

    /// Whether this is the number `v`.
    pub open spec fn is_integer(self, v: nat) -> bool {
        is_finite(self.bits) && units(self.bits) == v * one()
    }

    /// The number with the bit pattern `bits`.
    pub fn from_bits(bits: u32) -> (single: Self)
        ensures
            single.bits == bits,
    {
        Single { bits }
    }

    /// Projects this position from an axis of length `span` to one of length
    /// `extent`.
    pub fn project(self, span: u32, extent: u32) -> (offset: u64)
        requires
            span > 0,
        ensures
            offset == self.projected(span as nat, extent as nat),
            offset <= 0x1_0000_0000,
    {
        let magnitude: u32 = self.bits % 0x8000_0000;
        if magnitude > 0x7f80_0000 {
            return 0;
        }
        let limit: u32 = single_from_u32(span);
        let clamped: u32 = if self.bits >= 0x8000_0000 {
            0
        } else if magnitude > limit {
            limit
        } else {
            magnitude
        };
        proof {
            lemma_landmarks();
            if magnitude > limit {
                lemma_units_ordered(limit, magnitude);
            } else if magnitude < limit {
                lemma_units_ordered(magnitude, limit);
            }
        }
        round_to_integer(times(fraction_of(clamped, limit), single_from_u32(extent)))
    }
}

/// The distance of two numbers.
pub open spec fn distance(a: nat, b: nat) -> nat {
    if a < b {
        (b - a) as nat
    } else {
        (a - b) as nat
    }
}

/// [`nearest`] rounds to a single, and none is closer to the quotient.
pub proof fn law_nearest_is_closest(n: nat, d: nat, m: nat, s: nat)
    requires
        d > 0,
        m < 0x100_0000,
    ensures
        exists|k: nat, t: nat| k < 0x100_0000 && nearest(n, d) == #[trigger] (k * pow2(t)),
        distance(nearest(n, d) * d, n) <= distance((m * pow2(s)) * d, n),
{
    let z = binade(n, d);
    let p = pow2(z);
    let unit = d * p;
    let (q, r) = (n / unit, n % unit);
    let k = round_half_even(n, unit);
    let v = m * pow2(s);
    lemma_significand(n, d);
    lemma_binade_bounds(n, d);
    lemma_pow2_pos(z);
    lemma_pow2_pos(s);
    lemma_positive_product(d, p);
    lemma_fundamental_div_mod(n as int, unit as int);
    if k < 0x100_0000 {
        assert(nearest(n, d) == k * pow2(z));
    } else {
        lemma_pow2_unfold(z + 1);
        assert(k * p == 0x80_0000nat * pow2(z + 1)) by (nonlinear_arith)
            requires
                k == 0x100_0000,
                pow2(z + 1) == 2 * p,
        ;
    }
    // A single is a whole number of units of the binade, or below the binade.
    lemma_singles_around(n, d, m, s);
    assert(k * p * d == k * unit) by (nonlinear_arith)
        requires
            unit == d * p,
    ;
    if v * d <= q * unit {
        assert(distance(k * unit, n) <= distance(v * d, n)) by {
            lemma_rounding_error(n, unit);
            assert(q * unit == unit * q) by (nonlinear_arith);
        }
    } else {
        assert(v * d >= (q + 1) * unit);
        lemma_rounding_error(n, unit);
        assert((q + 1) * unit == unit * q + unit) by (nonlinear_arith);
    }
}

/// A rounded quotient is off by no more than the two integers around it.
proof fn lemma_rounding_error(n: nat, d: nat)
    requires
        d > 0,
    ensures
        distance(round_half_even(n, d) * d, n) <= n % d,
        distance(round_half_even(n, d) * d, n) <= d - n % d,
{
    let (q, r) = (n / d, n % d);
    lemma_fundamental_div_mod(n as int, d as int);
    assert(q * d == d * q) by (nonlinear_arith);
    assert((q + 1) * d == d * q + d) by (nonlinear_arith);
}

/// No single lies strictly between two neighbouring multiples of the unit of
/// a binade.
proof fn lemma_singles_around(n: nat, d: nat, m: nat, s: nat)
    requires
        d > 0,
        m < 0x100_0000,
    ensures
        ({
            let unit = d * pow2(binade(n, d));
            let v = m * pow2(s);
            v * d <= (n / unit) * unit || v * d >= (n / unit + 1) * unit
        }),
{
    let z = binade(n, d);
    let p = pow2(z);
    let unit = d * p;
    let q = n / unit;
    let v = m * pow2(s);
    lemma_binade_bounds(n, d);
    lemma_pow2_pos(z);
    lemma_pow2_pos(s);
    lemma_positive_product(d, p);
    lemma_fundamental_div_mod(n as int, unit as int);
    if s >= z {
        let j = m * pow2((s - z) as nat);
        lemma_pow2_adds((s - z) as nat, z);
        assert(v * d == j * unit) by (nonlinear_arith)
            requires
                v == m * (pow2((s - z) as nat) * p),
                j == m * pow2((s - z) as nat),
                unit == d * p,
        ;
        if j <= q {
            assert(j * unit <= q * unit) by (nonlinear_arith)
                requires
                    j <= q,
            ;
        } else {
            assert(j * unit >= (q + 1) * unit) by (nonlinear_arith)
                requires
                    j >= q + 1,
            ;
        }
    } else {
        let half = pow2((z - 1) as nat);
        lemma_pow2_unfold(z);
        if s < z - 1 {
            lemma_pow2_strictly_increases(s, (z - 1) as nat);
        }
        assert(unit == d * half * 2) by (nonlinear_arith)
            requires
                unit == d * p,
                p == 2 * half,
        ;
        let r = n % unit;
        assert(q >= 0x80_0000) by (nonlinear_arith)
            requires
                n == unit * q + r,
                n >= unit * 0x80_0000,
                0 <= r < unit,
                q >= 0,
        ;
        assert(v * d <= q * unit) by (nonlinear_arith)
            requires
                v == m * pow2(s),
                m <= 0x100_0000,
                0 < pow2(s) <= half,
                unit == d * half * 2,
                q >= 0x80_0000,
                d > 0,
        ;
    }
}

/// Rounding to a single is off by at most one part in 2^24, and half a unit
/// more in the smallest binade.
proof fn lemma_absolute_error(n: nat, d: nat)
    requires
        d > 0,
    ensures
        distance(nearest(n, d) * d, n) * 0x100_0000 <= n + d * 0x80_0000,
{
    if n >= d * 0x100_0000 {
        lemma_relative_error(n, d);
        assert(d * 0x80_0000 >= 0) by (nonlinear_arith);
    } else {
        lemma2_to64();
        assert(binade(n, d) == 0);
        assert(d * pow2(0) == d);
        let k = round_half_even(n, d);
        assert(nearest(n, d) == k) by {
            assert(k * pow2(0) == k);
        }
        lemma_rounding_error(n, d);
        assert(2 * distance(k * d, n) <= d);
    }
}

proof fn lemma_cancel(x: nat, y: nat, bound: nat, factor: nat)
    requires
        factor > 0,
        distance(x * factor, y * factor) * 0x100_0000 <= bound * factor,
    ensures
        distance(x, y) * 0x100_0000 <= bound,
{
    let gap = distance(x, y);
    assert(distance(x * factor, y * factor) == gap * factor) by (nonlinear_arith)
        requires
            gap == (if x < y { y - x } else { x - y }),
            distance(x * factor, y * factor) == (if x * factor < y * factor {
                y * factor - x * factor
            } else {
                x * factor - y * factor
            }),
            factor > 0,
    ;
    assert(gap * 0x100_0000 <= bound) by (nonlinear_arith)
        requires
            (gap * factor) * 0x100_0000 <= bound * factor,
            factor > 0,
    ;
}

/// A position is carried over in proportion: on an axis of at most 2^20 pixels
/// the result is off the exact one by at most three quarters of a pixel, half a
/// pixel of which is the rounding to a whole one.
pub proof fn law_positions_are_carried_over_in_proportion(a: nat, span: nat, extent: nat)
    requires
        0 < span < 0x100_0000,
        extent <= 0x10_0000,
        a <= span * one(),
    ensures
        4 * distance(proportion(a, span, extent) * (span * one()), a * extent) <= 3 * (span
            * one()),
{
    let unit = one();
    lemma_landmarks();
    lemma_single_of_small(span);
    lemma_single_of_small(extent);
    lemma_single_of_positive(span);
    assert(unit >= 0x1_0000_0000_0000) by {
        lemma2_to64();
        lemma2_to64_rest();
        lemma_pow2_strictly_increases(48, 149);
    }
    let q = quotient(a, span * unit);
    let p = product(q, extent * unit);
    let r = proportion(a, span, extent);
    assert(r == rounded(p));
    // The quotient.
    assert(span * unit > 0) by (nonlinear_arith)
        requires
            span > 0,
            unit > 0,
    ;
    lemma_absolute_error(a * unit, span * unit);
    assert(q * (span * unit) == (q * span) * unit) by (nonlinear_arith);
    assert(a * unit + (span * unit) * 0x80_0000 == (a + span * 0x80_0000) * unit)
        by (nonlinear_arith);
    lemma_cancel(q * span, a, (a + span * 0x80_0000) as nat, unit);
    // The product.
    lemma_absolute_error(q * (extent * unit), unit);
    assert(q * (extent * unit) == (q * extent) * unit) by (nonlinear_arith);
    assert((q * extent) * unit + unit * 0x80_0000 == (q * extent + 0x80_0000) * unit)
        by (nonlinear_arith);
    lemma_cancel(p, q * extent, (q * extent + 0x80_0000) as nat, unit);
    // The whole pixel.
    lemma_fundamental_div_mod((2 * p + unit) as int, (2 * unit) as int);
    let rest = (2 * p + unit) % (2 * unit);
    assert(2 * p + unit == 2 * (r * unit) + rest) by (nonlinear_arith)
        requires
            2 * p + unit == (2 * unit) * r + rest,
    ;
    lemma_proportion_sum(a, span, extent, q, p, r * unit, unit);
    assert(r * (span * unit) == (r * unit) * span) by (nonlinear_arith);
}

proof fn lemma_proportion_sum(
    a: nat,
    span: nat,
    extent: nat,
    q: nat,
    p: nat,
    whole: nat,
    unit: nat,
)
    requires
        0 < span,
        extent <= 0x10_0000,
        a <= span * unit,
        unit >= 0x1_0000_0000_0000,
        distance(q * span, a) * 0x100_0000 <= a + span * 0x80_0000,
        distance(p, q * extent) * 0x100_0000 <= q * extent + 0x80_0000,
        2 * whole <= 2 * p + unit < 2 * whole + 2 * unit,
    ensures
        4 * distance(whole * span, a * extent) <= 3 * (span * unit),
{
    let scaled = (q * span) as int;
    let su = (span * unit) as int;
    // Everything is brought to the same scale and compared there.
    let e1 = scaled - a;
    let e2 = p - q * extent;
    let e3 = whole - p;
    assert(whole * span - a * extent == e3 * span + e2 * span + e1 * extent) by (nonlinear_arith)
        requires
            scaled == q * span,
            e1 == scaled - a,
            e2 == p - q * extent,
            e3 == whole - p,
    ;
    assert(-su <= 2 * (e3 * span) <= su) by (nonlinear_arith)
        requires
            -unit <= 2 * e3 <= unit,
            span > 0,
            su == span * unit,
    ;
    let b1 = a + span * 0x80_0000;
    assert(-(b1 * extent) <= (e1 * extent) * 0x100_0000 <= b1 * extent) by (nonlinear_arith)
        requires
            -b1 <= e1 * 0x100_0000 <= b1,
            extent >= 0,
    ;
    let b2 = q * extent + 0x80_0000;
    assert(-(b2 * span) <= (e2 * span) * 0x100_0000 <= b2 * span) by (nonlinear_arith)
        requires
            -b2 <= e2 * 0x100_0000 <= b2,
            span > 0,
    ;
    assert(scaled <= 2 * a + span);
    assert(b2 * span <= (2 * a + span) * extent + span * 0x80_0000) by (nonlinear_arith)
        requires
            b2 == q * extent + 0x80_0000,
            scaled == q * span,
            scaled <= 2 * a + span,
            extent >= 0,
    ;
    assert(a * extent <= su * 0x10_0000) by (nonlinear_arith)
        requires
            0 <= a <= su,
            0 <= extent <= 0x10_0000,
    ;
    assert(span * extent <= span * 0x10_0000) by (nonlinear_arith)
        requires
            extent <= 0x10_0000,
            span > 0,
    ;
    assert(span * 0x1_0000_0000_0000 <= su) by (nonlinear_arith)
        requires
            su == span * unit,
            unit >= 0x1_0000_0000_0000,
            span > 0,
    ;
    assert(b1 * extent == a * extent + (span * extent) * 0x80_0000) by (nonlinear_arith)
        requires
            b1 == a + span * 0x80_0000,
    ;
    assert((2 * a + span) * extent == 2 * (a * extent) + span * extent) by (nonlinear_arith);
    let (x1, x2, x3) = (e1 * extent, e2 * span, e3 * span);
    assert(-su <= 4 * (x1 + x2) <= su);
}

/// A tie between two singles goes to the one with the even significand.
pub proof fn law_ties_go_to_even(k: nat, d: nat)
    requires
        d > 0,
        k < 0xff_ffff,
    ensures
        nearest((2 * k + 1) * d, 2 * d) == if k % 2 == 0 {
            k
        } else {
            k + 1
        },
{
    let n = (2 * k + 1) * d;
    lemma2_to64();
    assert(n < (2 * d) * 0x100_0000) by (nonlinear_arith)
        requires
            n == (2 * k + 1) * d,
            k < 0xff_ffff,
            d > 0,
    ;
    assert(binade(n, 2 * d) == 0);
    assert((2 * d) * pow2(0) == 2 * d);
    assert(n == k * (2 * d) + d) by (nonlinear_arith)
        requires
            n == (2 * k + 1) * d,
    ;
    lemma_fundamental_div_mod_converse(n as int, (2 * d) as int, k as int, d as int);
    let m = round_half_even(n, 2 * d);
    assert(m * pow2(0) == m);
}

/// The bit patterns of finite singles are read in their order, evenly spaced up
/// to twice the smallest normal one, and doubled from one exponent to the next;
/// that of one is one.
pub proof fn law_bit_patterns_are_read_in_order(a: u32, b: u32)
    requires
        a < b < 0x7f80_0000,
    ensures
        units(a) < units(b),
        a <= 0x100_0000 ==> units(a) == a,
        a >= 0x80_0000 && a < 0x7f00_0000 ==> units((a + 0x80_0000) as u32) == 2 * units(a),
        units(0x3f80_0000) == one(),
{
    lemma_units_ordered(a, b);
    lemma2_to64();
    lemma2_to64_rest();
    if 0x80_0000 <= a && a < 0x7f00_0000 {
        let e = a / 0x80_0000;
        let f = a % 0x80_0000;
        assert((a + 0x80_0000) / 0x80_0000 == e + 1);
        assert((a + 0x80_0000) % 0x80_0000 == f);
        lemma_pow2_unfold(e as nat);
        assert((0x80_0000 + f) * pow2(e as nat) == 2 * ((0x80_0000 + f) * pow2((e - 1) as nat)))
            by (nonlinear_arith)
            requires
                pow2(e as nat) == 2 * pow2((e - 1) as nat),
        ;
    }
    if a < 0x80_0000 {
        assert(a / 0x80_0000 == 0 && a % 0x80_0000 == a);
    } else if a < 0x100_0000 {
        assert(a / 0x80_0000 == 1 && a % 0x80_0000 == a - 0x80_0000);
        assert((0x80_0000 + a % 0x80_0000) as nat * pow2(0) == a);
    } else if a == 0x100_0000 {
        assert(a / 0x80_0000 == 2 && a % 0x80_0000 == 0);
        assert((0x80_0000 + a % 0x80_0000) as nat * pow2(1) == a);
    }
    assert(0x3f80_0000u32 / 0x80_0000 == 127 && 0x3f80_0000u32 % 0x80_0000 == 0);
    lemma_pow2_adds(23, 126);
    assert(pow2(23) == 0x80_0000);
}

/// A position before the axis is taken for its start, one behind it for its
/// end, and what is not a number for the start; any other counts as it is.
pub proof fn law_positions_outside_count_as_the_ends(position: Single, span: nat, extent: nat)
    requires
        span > 0,
    ensures
        position.bits % 0x8000_0000 > 0x7f80_0000 ==> position.projected(span, extent) == 0,
        position.bits >= 0x8000_0000 ==> position.projected(span, extent) == 0,
        0x7f80_0000 == position.bits ==> position.projected(span, extent) == rounded(
            single_of(extent),
        ),
        position.bits < 0x7f80_0000 && units(position.bits) >= single_of(span)
            ==> position.projected(span, extent) == rounded(single_of(extent)),
        position.bits < 0x7f80_0000 && units(position.bits) <= single_of(span)
            ==> position.projected(span, extent) == proportion(units(position.bits), span, extent),
{
    lemma_proportion_ends(span, extent);
}

/// The whole number of a position is the closest one, and of two that are
/// equally close the greater.
pub proof fn law_whole_pixels_are_the_closest(a: nat, k: nat)
    ensures
        2 * distance(rounded(a) * one(), a) <= one(),
        a == (2 * k + 1) * pow2(148) ==> rounded(a) == k + 1,
{
    let unit = one();
    let r = rounded(a);
    lemma_pow2_pos(149);
    lemma_fundamental_div_mod((2 * a + unit) as int, (2 * unit) as int);
    let rest = (2 * a + unit) % (2 * unit);
    assert(2 * a + unit == 2 * (r * unit) + rest) by (nonlinear_arith)
        requires
            2 * a + unit == (2 * unit) * r + rest,
    ;
    if a == (2 * k + 1) * pow2(148) {
        lemma_pow2_unfold(149);
        assert(2 * a == (2 * k + 1) * unit) by (nonlinear_arith)
            requires
                a == (2 * k + 1) * pow2(148),
                unit == 2 * pow2(148),
        ;
        assert(2 * a + unit == (k + 1) * (2 * unit)) by (nonlinear_arith)
            requires
                2 * a == (2 * k + 1) * unit,
        ;
        lemma_fundamental_div_mod_converse((2 * a + unit) as int, (2 * unit) as int, k as int + 1, 0);
    }
}

} // verus!
