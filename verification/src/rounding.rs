//! Magnitudes of single-precision numbers, and rounding to the nearest one.
//!
//! A magnitude is the encoding of a non-negative number: the low 31 bits of
//! the IEEE 754 binary32 format. Values are counted in units of 2^-149, the
//! smallest positive number of the format, so every value is an integer.
use vstd::arithmetic::mul::{
    lemma_mul_inequality, lemma_mul_is_associative, lemma_mul_is_commutative,
    lemma_mul_is_distributive_add, lemma_mul_strict_inequality,
};
use vstd::arithmetic::power2::{
    lemma2_to64, lemma_pow2_adds, lemma_pow2_pos, lemma_pow2_strictly_increases,
    lemma_pow2_unfold, pow2,
};
use vstd::bits::{lemma_u64_shl_is_mul, lemma_u64_shr_is_div};
use vstd::prelude::*;

verus! {

/// Encoding of infinity. Every finite magnitude is below it.
pub const INFINITE: u32 = 0x7f80_0000;

/// Exponent of the distance between a magnitude and its successor.
pub open spec fn spacing_exponent(m: int) -> nat {
    if m < 0x100_0000 {
        0
    } else {
        (m / 0x80_0000 - 1) as nat
    }
}

/// The integer that the spacing is multiplied by.
pub open spec fn significand(m: int) -> int {
    if m < 0x100_0000 {
        m
    } else {
        m % 0x80_0000 + 0x80_0000
    }
}

/// Value of a magnitude in units of 2^-149. Infinity stands for 2^128, the
/// number that would follow the largest finite one.
pub open spec fn magnitude_value(m: int) -> int {
    significand(m) * pow2(spacing_exponent(m))
}

/// Distance between the value of `m` and `num / den`, times `den`.
pub open spec fn distance(m: int, num: int, den: int) -> int {
    if magnitude_value(m) * den >= num {
        magnitude_value(m) * den - num
    } else {
        num - magnitude_value(m) * den
    }
}

/// `m` is the magnitude nearest to `num / den` units; of two equally near
/// ones it is the one with an even encoding.
pub open spec fn is_nearest(m: int, num: int, den: int) -> bool {
    &&& 0 <= m <= INFINITE
    &&& forall|q: int|
        0 <= q <= INFINITE ==> distance(m, num, den) <= #[trigger] distance(q, num, den)
    &&& forall|q: int|
        0 <= q <= INFINITE && q != m && #[trigger] distance(q, num, den) == distance(
            m,
            num,
            den,
        ) ==> m % 2 == 0
}

/// The magnitude that `num / den` units round to.
pub open spec fn rounded(num: int, den: int) -> int {
    choose|m: int| is_nearest(m, num, den)
}

/// Two neighbouring magnitudes differ by the spacing of the smaller one.
pub proof fn lemma_successor(m: int)
    requires
        0 <= m,
    ensures
        magnitude_value(m + 1) == magnitude_value(m) + pow2(spacing_exponent(m)),
        pow2(spacing_exponent(m)) > 0,
{
    lemma_pow2_pos(spacing_exponent(m));
    lemma2_to64();
    if m + 1 < 0x100_0000 {
        assert(magnitude_value(m) == m * 1);
        assert(magnitude_value(m + 1) == (m + 1) * 1);
    } else if m + 1 == 0x100_0000 {
        assert(magnitude_value(m) == m * 1);
        assert(magnitude_value(m + 1) == 0x80_0000 * pow2(1));
    } else {
        let e = spacing_exponent(m);
        let p = pow2(e) as int;
        let s = significand(m);
        if m % 0x80_0000 == 0x7f_ffff {
            assert((m + 1) / 0x80_0000 == m / 0x80_0000 + 1);
            assert((m + 1) % 0x80_0000 == 0);
            assert(spacing_exponent(m + 1) == e + 1);
            lemma_pow2_unfold(e + 1);
            assert(magnitude_value(m + 1) == 0x80_0000 * (2 * p));
            assert(s * p == 0xff_ffff * p);
        } else {
            assert((m + 1) / 0x80_0000 == m / 0x80_0000);
            assert((m + 1) % 0x80_0000 == m % 0x80_0000 + 1);
            assert((s + 1) * p == s * p + p) by (nonlinear_arith);
        }
    }
}

/// A larger encoding has a larger value.
pub proof fn lemma_value_increases(a: int, b: int)
    requires
        0 <= a < b,
    ensures
        magnitude_value(a) < magnitude_value(b),
    decreases b - a,
{
    lemma_successor(a);
    if a + 1 < b {
        lemma_value_increases(a + 1, b);
    }
}

/// Values are never negative, and only the zero encoding has value zero.
pub proof fn lemma_value_sign(m: int)
    requires
        0 <= m,
    ensures
        magnitude_value(m) >= 0,
        magnitude_value(m) == 0 <==> m == 0,
        magnitude_value(0) == 0,
{
    lemma2_to64();
    assert(magnitude_value(0) == 0 * pow2(0));
    if m > 0 {
        lemma_value_increases(0, m);
    }
}

/// At most one magnitude is nearest to `num / den`.
pub proof fn lemma_nearest_is_unique(a: int, b: int, num: int, den: int)
    requires
        den > 0,
        is_nearest(a, num, den),
        is_nearest(b, num, den),
    ensures
        a == b,
{
    if a != b {
        let (lo, hi) = if a < b {
            (a, b)
        } else {
            (b, a)
        };
        assert(distance(lo, num, den) == distance(hi, num, den));
        assert(lo % 2 == 0 && hi % 2 == 0);
        let mid = lo + 1;
        lemma_value_increases(lo, mid);
        lemma_value_increases(mid, hi);
        lemma_mul_strict_inequality(magnitude_value(lo), magnitude_value(mid), den);
        lemma_mul_strict_inequality(magnitude_value(mid), magnitude_value(hi), den);
        assert(distance(mid, num, den) < distance(lo, num, den));
    }
}

/// A nearest magnitude is the one that the value rounds to.
pub proof fn lemma_rounded_is(m: int, num: int, den: int)
    requires
        den > 0,
        is_nearest(m, num, den),
    ensures
        rounded(num, den) == m,
{
    lemma_nearest_is_unique(rounded(num, den), m, num, den);
}

/// Between two neighbours the nearer one is the nearest of all magnitudes.
proof fn lemma_nearest_of_neighbours(m: int, r: int, num: int, den: int)
    requires
        den > 0,
        0 <= m,
        m + 1 <= INFINITE,
        magnitude_value(m) * den <= num < magnitude_value(m + 1) * den,
        r == m || r == m + 1,
        r == m ==> {
            ||| 2 * (num - magnitude_value(m) * den) < pow2(spacing_exponent(m)) * den
            ||| 2 * (num - magnitude_value(m) * den) == pow2(spacing_exponent(m)) * den && m % 2
                == 0
        },
        r == m + 1 ==> {
            ||| 2 * (num - magnitude_value(m) * den) > pow2(spacing_exponent(m)) * den
            ||| 2 * (num - magnitude_value(m) * den) == pow2(spacing_exponent(m)) * den && m % 2
                == 1
        },
    ensures
        is_nearest(r, num, den),
{
    lemma_successor(m);
    let p = pow2(spacing_exponent(m)) as int;
    assert((magnitude_value(m) + p) * den == magnitude_value(m) * den + p * den)
        by (nonlinear_arith);
    assert forall|q: int| 0 <= q <= INFINITE implies {
        &&& distance(r, num, den) <= #[trigger] distance(q, num, den)
        &&& (q != r && distance(q, num, den) == distance(r, num, den) ==> r % 2 == 0)
    } by {
        if q < m {
            lemma_value_increases(q, m);
            lemma_mul_strict_inequality(magnitude_value(q), magnitude_value(m), den);
        } else if q > m + 1 {
            lemma_value_increases(m + 1, q);
            lemma_mul_strict_inequality(magnitude_value(m + 1), magnitude_value(q), den);
        }
    }
}

/// From 2^128 on, everything rounds to infinity.
proof fn lemma_nearest_beyond(num: int, den: int)
    requires
        den > 0,
        num >= magnitude_value(INFINITE as int) * den,
    ensures
        is_nearest(INFINITE as int, num, den),
{
    let top = INFINITE as int;
    assert forall|q: int| 0 <= q <= INFINITE implies {
        &&& distance(top, num, den) <= #[trigger] distance(q, num, den)
        &&& (q != top && distance(q, num, den) == distance(top, num, den) ==> top % 2 == 0)
    } by {
        if q < top {
            lemma_value_increases(q, top);
            lemma_mul_strict_inequality(magnitude_value(q), magnitude_value(top), den);
        }
    }
}

/// A value that a magnitude has exactly rounds to that magnitude.
pub proof fn lemma_exact_is_nearest(m: int, num: int, den: int)
    requires
        den > 0,
        0 <= m <= INFINITE,
        num == magnitude_value(m) * den,
    ensures
        is_nearest(m, num, den),
        rounded(num, den) == m,
{
    assert forall|q: int| 0 <= q <= INFINITE implies {
        &&& distance(m, num, den) <= #[trigger] distance(q, num, den)
        &&& (q != m && distance(q, num, den) == distance(m, num, den) ==> m % 2 == 0)
    } by {
        if q < m {
            lemma_value_increases(q, m);
            lemma_mul_strict_inequality(magnitude_value(q), magnitude_value(m), den);
        } else if q > m {
            lemma_value_increases(m, q);
            lemma_mul_strict_inequality(magnitude_value(m), magnitude_value(q), den);
        }
    }
    lemma_rounded_is(m, num, den);
}

/// The largest magnitude up to `top` whose value is not above `num / den`.
proof fn lemma_floor_exists(num: int, den: int, top: int) -> (m: int)
    requires
        den > 0,
        num >= 0,
        0 <= top,
    ensures
        0 <= m <= top,
        magnitude_value(m) * den <= num,
        m < top ==> num < magnitude_value(m + 1) * den,
    decreases top,
{
    if magnitude_value(top) * den <= num {
        top
    } else if top == 0 {
        lemma_value_sign(0);
        assert(0 * den == 0) by (nonlinear_arith);
        0
    } else {
        let m = lemma_floor_exists(num, den, top - 1);
        m
    }
}

/// Every non-negative value rounds to its nearest magnitude.
pub proof fn lemma_rounded_is_nearest(num: int, den: int)
    requires
        den > 0,
        num >= 0,
    ensures
        is_nearest(rounded(num, den), num, den),
{
    let top = INFINITE as int;
    let m = lemma_floor_exists(num, den, top);
    if m == top {
        lemma_nearest_beyond(num, den);
    } else {
        let twice = 2 * (num - magnitude_value(m) * den);
        let gap = pow2(spacing_exponent(m)) * den;
        let r = if twice < gap || (twice == gap && m % 2 == 0) {
            m
        } else {
            m + 1
        };
        lemma_nearest_of_neighbours(m, r, num, den);
    }
}

/// A value that is not above that of `m` does not round above `m`.
pub proof fn lemma_rounded_at_most(num: int, den: int, m: int)
    requires
        den > 0,
        0 <= num <= magnitude_value(m) * den,
        0 <= m <= INFINITE,
    ensures
        0 <= rounded(num, den) <= m,
{
    lemma_rounded_is_nearest(num, den);
    let r = rounded(num, den);
    if r > m {
        lemma_value_increases(m, r);
        lemma_mul_strict_inequality(magnitude_value(m), magnitude_value(r), den);
        assert(distance(m, num, den) < distance(r, num, den));
    }
}

/// A value that is not below that of `m` does not round below `m`.
pub proof fn lemma_rounded_at_least(num: int, den: int, m: int)
    requires
        den > 0,
        magnitude_value(m) * den <= num,
        0 <= m <= INFINITE,
    ensures
        m <= rounded(num, den) <= INFINITE,
{
    lemma_value_sign(m);
    lemma_mul_inequality(0, magnitude_value(m), den);
    lemma_rounded_is_nearest(num, den);
    let r = rounded(num, den);
    if r < m {
        lemma_value_increases(r, m);
        lemma_mul_strict_inequality(magnitude_value(r), magnitude_value(m), den);
        assert(distance(m, num, den) < distance(r, num, den));
    }
}

/// Rounding is off by at most half a spacing: for a value up to that of `top`,
/// half the spacing there.
pub proof fn law_rounding_error_is_half_a_spacing(num: int, top: int)
    requires
        0 <= top <= INFINITE,
        0 <= num <= magnitude_value(top),
    ensures
        2 * distance(rounded(num, 1), num, 1) <= pow2(spacing_exponent(top)),
{
    let m = lemma_floor_exists(num, 1, top);
    lemma_rounded_is_nearest(num, 1);
    assert(distance(rounded(num, 1), num, 1) <= distance(m, num, 1));
    lemma_pow2_pos(spacing_exponent(top));
    if m < top {
        lemma_successor(m);
        assert(distance(rounded(num, 1), num, 1) <= distance(m + 1, num, 1));
        if spacing_exponent(m) < spacing_exponent(top) {
            lemma_pow2_strictly_increases(spacing_exponent(m), spacing_exponent(top));
        }
    }
}

/// The error of rounding `num / den`, for a quotient up to the value of `top`.
pub proof fn law_rounding_error_of_a_quotient(num: int, den: int, top: int)
    requires
        den > 0,
        0 <= top <= INFINITE,
        0 <= num <= magnitude_value(top) * den,
    ensures
        2 * distance(rounded(num, den), num, den) <= pow2(spacing_exponent(top)) * den,
{
    let m = lemma_floor_exists(num, den, top);
    lemma_rounded_is_nearest(num, den);
    assert(distance(rounded(num, den), num, den) <= distance(m, num, den));
    lemma_pow2_pos(spacing_exponent(top));
    let q = pow2(spacing_exponent(top)) as int;
    assert(q * den >= 0) by (nonlinear_arith)
        requires
            q > 0,
            den > 0,
    ;
    if m < top {
        lemma_successor(m);
        assert(distance(rounded(num, den), num, den) <= distance(m + 1, num, den));
        if spacing_exponent(m) < spacing_exponent(top) {
            lemma_pow2_strictly_increases(spacing_exponent(m), spacing_exponent(top));
        }
        let (v, p) = (magnitude_value(m), pow2(spacing_exponent(m)) as int);
        assert((v + p) * den == v * den + p * den) by (nonlinear_arith);
        assert(p * den <= q * den) by (nonlinear_arith)
            requires
                p <= q,
                den > 0,
        ;
    }
}

/// A quotient that is not tiny is rounded with an error of at most one part in
/// 2^24.
pub proof fn law_rounding_error_is_relative(num: int, den: int)
    requires
        den > 0,
        0x80_0000 * den <= num <= magnitude_value(INFINITE as int) * den,
    ensures
        0x100_0000 * distance(rounded(num, den), num, den) <= num,
{
    lemma2_to64();
    let top = INFINITE as int;
    let m = lemma_floor_exists(num, den, top);
    lemma_rounded_is_nearest(num, den);
    assert(distance(rounded(num, den), num, den) <= distance(m, num, den));
    let low: int = 0x80_0000;
    let (sl, ql) = (significand(low), pow2(0) as int);
    assert(sl * ql == low) by (nonlinear_arith)
        requires
            sl == low,
            ql == 1,
    ;
    if m < low {
        lemma_value_increases(m, low);
        assert(m + 1 <= low);
        if m + 1 < low {
            lemma_value_increases(m + 1, low);
        }
        lemma_mul_inequality(magnitude_value(m + 1), low, den);
        assert(false);
    }
    if m < top {
        lemma_successor(m);
        assert(distance(rounded(num, den), num, den) <= distance(m + 1, num, den));
        let (v, s, p) = (magnitude_value(m), significand(m), pow2(spacing_exponent(m)) as int);
        assert((v + p) * den == v * den + p * den) by (nonlinear_arith);
        assert(s >= 0x80_0000);
        assert(v * den >= 0x80_0000 * (p * den)) by (nonlinear_arith)
            requires
                v == s * p,
                s >= 0x80_0000,
                p > 0,
                den > 0,
        ;
    }
}

/// Multiplying dividend and divisor by the same number leaves the nearest
/// magnitude as it is.
pub proof fn lemma_nearest_scales(m: int, num: int, den: int, c: int)
    requires
        c > 0,
        is_nearest(m, num * c, den * c),
    ensures
        is_nearest(m, num, den),
{
    assert forall|q: int| #[trigger] distance(q, num * c, den * c) == distance(q, num, den) * c by {
        let v = magnitude_value(q);
        assert(v * (den * c) == (v * den) * c) by (nonlinear_arith);
        assert((v * den) * c - num * c == (v * den - num) * c) by (nonlinear_arith);
        assert(((v * den) * c >= num * c) == (v * den >= num)) by (nonlinear_arith)
            requires
                c > 0,
        ;
        assert((num - v * den) * c == num * c - (v * den) * c) by (nonlinear_arith);
    }
    assert forall|q: int| 0 <= q <= INFINITE implies {
        &&& distance(m, num, den) <= #[trigger] distance(q, num, den)
        &&& (q != m && distance(q, num, den) == distance(m, num, den) ==> m % 2 == 0)
    } by {
        let (a, b) = (distance(m, num, den), distance(q, num, den));
        assert(distance(m, num * c, den * c) == a * c);
        assert(distance(q, num * c, den * c) == b * c);
        assert(a * c <= b * c);
        assert(a <= b) by (nonlinear_arith)
            requires
                a * c <= b * c,
                c > 0,
        ;
    }
}

/// An integer of up to 24 bits times a power of two is the value of a
/// magnitude.
pub proof fn lemma_short_integer_is_exact(n: int, s: nat) -> (m: int)
    requires
        0 <= n < 0x100_0000,
        s <= 200,
    ensures
        0 <= m < INFINITE,
        magnitude_value(m) == n * pow2(s),
    decreases s,
{
    lemma2_to64();
    if s == 0 {
        let p = pow2(0) as int;
        assert(significand(n) * pow2(spacing_exponent(n)) == n * p);
        n
    } else if n >= 0x80_0000 {
        let m = (s + 1) * 0x80_0000 + (n - 0x80_0000);
        assert(m / 0x80_0000 == s + 1);
        assert(m % 0x80_0000 == n - 0x80_0000);
        assert(spacing_exponent(m) == s);
        m
    } else {
        lemma_pow2_unfold(s);
        let p = pow2((s - 1) as nat) as int;
        assert((2 * n) * p == n * (2 * p)) by (nonlinear_arith);
        lemma_short_integer_is_exact(2 * n, (s - 1) as nat)
    }
}

/// Rounding keeps the order of values.
pub proof fn law_rounding_is_monotone(a: int, b: int, den: int)
    requires
        den > 0,
        0 <= a <= b,
    ensures
        rounded(a, den) <= rounded(b, den),
{
    lemma_rounded_is_nearest(a, den);
    lemma_rounded_is_nearest(b, den);
    let (r, s) = (rounded(a, den), rounded(b, den));
    if r > s {
        lemma_value_increases(s, r);
        lemma_mul_strict_inequality(magnitude_value(s), magnitude_value(r), den);
        assert(distance(r, a, den) <= distance(s, a, den));
        assert(distance(s, b, den) <= distance(r, b, den));
        // `a` is at least as near to the larger one and `b` to the smaller
        // one, so both lie in the middle, where the tie rule decides alike.
        assert(a == b);
    }
}

/// Number of binary digits of `x`.
pub(crate) fn bit_length(x: u64) -> (n: u32)
    ensures
        n <= 64,
        x == 0 <==> n == 0,
        x < pow2(n as nat),
        n > 0 ==> pow2((n - 1) as nat) <= x,
{
    let mut n: u32 = 0;
    let mut rest: u64 = x;
    proof {
        lemma2_to64();
    }
    while rest > 0
        invariant
            n <= 64,
            rest < pow2((64 - n) as nat),
            rest * pow2(n as nat) <= x < (rest + 1) * pow2(n as nat),
            n == 0 ==> rest == x,
            n > 0 ==> pow2((n - 1) as nat) <= x,
        decreases rest,
    {
        proof {
            let p = pow2(n as nat) as int;
            if n == 64 {
                lemma2_to64();
                assert(false);
            }
            lemma_pow2_unfold((n + 1) as nat);
            lemma_pow2_unfold((64 - n) as nat);
            lemma_pow2_pos(n as nat);
            let half = (rest / 2) as int;
            assert((half * 2) * p <= rest * p) by (nonlinear_arith)
                requires
                    half * 2 <= rest,
                    p >= 0,
            ;
            assert((rest + 1) * p <= (half * 2 + 2) * p) by (nonlinear_arith)
                requires
                    rest + 1 <= half * 2 + 2,
                    p >= 0,
            ;
            assert((half * 2) * p == half * (2 * p)) by (nonlinear_arith);
            assert((half * 2 + 2) * p == (half + 1) * (2 * p)) by (nonlinear_arith);
            assert(p <= rest * p) by (nonlinear_arith)
                requires
                    rest >= 1,
                    p >= 0,
            ;
        }
        rest = rest / 2;
        n = n + 1;
    }
    proof {
        let p = pow2(n as nat) as int;
        assert((rest + 1) * p == p) by (nonlinear_arith)
            requires
                rest == 0,
        ;
        if n > 0 {
            lemma_pow2_pos((n - 1) as nat);
        }
    }
    n
}

/// `2^k` for a positive `k`, else 1.
pub open spec fn scale_up(k: int) -> int {
    pow2(if k > 0 {
        k as nat
    } else {
        0
    }) as int
}

/// The value `num / den` is `sig * 2^k`, or, when `inexact`, lies strictly
/// between that and `(sig + 1) * 2^k`.
pub open spec fn brackets(sig: int, k: int, inexact: bool, num: int, den: int) -> bool {
    let low = sig * (scale_up(k) * den);
    let x = num * scale_up(-k);
    if inexact {
        low < x < low + scale_up(k) * den
    } else {
        x == low
    }
}

/// Multiplying both sides by a positive factor keeps an order.
pub(crate) proof fn lemma_cancel(a: int, b: int, w: int)
    requires
        w > 0,
    ensures
        a * w <= b * w <==> a <= b,
        a * w < b * w <==> a < b,
        a * w == b * w <==> a == b,
{
    assert(a * w <= b * w <==> a <= b) by (nonlinear_arith)
        requires
            w > 0,
    ;
    assert(a * w < b * w <==> a < b) by (nonlinear_arith)
        requires
            w > 0,
    ;
}

/// Dropping `d` low digits of a bracketed value leaves the floor `lo` at
/// spacing `2^e`, and the dropped part decides on which side of the middle
/// the value lies.
proof fn lemma_drop_digits(
    sig: int,
    k: int,
    inexact: bool,
    num: int,
    den: int,
    d: nat,
    e: nat,
    lo: int,
    rest: int,
    half: int,
)
    requires
        den > 0,
        brackets(sig, k, inexact, num, den),
        d >= 1,
        e == d + k,
        0 <= lo,
        sig == lo * pow2(d) + rest,
        0 <= rest < pow2(d),
        half == pow2((d - 1) as nat),
    ensures
        (lo * pow2(e)) * den <= num < (lo * pow2(e) + pow2(e)) * den,
        rest < half ==> 2 * (num - (lo * pow2(e)) * den) < pow2(e) * den,
        rest > half || (rest == half && inexact) ==> 2 * (num - (lo * pow2(e)) * den) > pow2(e)
            * den,
        rest == half && !inexact ==> 2 * (num - (lo * pow2(e)) * den) == pow2(e) * den,
{
    let u = scale_up(k);
    let w = scale_up(-k);
    let p = pow2(d) as int;
    let q = pow2(e) as int;
    let t = u * den;
    let x = num * w;
    lemma_pow2_pos(if k > 0 {
        k as nat
    } else {
        0
    });
    lemma_pow2_pos(if k < 0 {
        (-k) as nat
    } else {
        0
    });
    lemma2_to64();
    lemma_pow2_unfold(d);
    if k >= 0 {
        lemma_pow2_adds(d, k as nat);
        assert(u == pow2(k as nat));
        assert(q * w == q) by (nonlinear_arith)
            requires
                w == 1,
        ;
    } else {
        lemma_pow2_adds(e, (-k) as nat);
        assert(w == pow2((-k) as nat));
        assert(p * u == p) by (nonlinear_arith)
            requires
                u == 1,
        ;
    }
    assert(q * w == p * u);
    assert(t > 0) by (nonlinear_arith)
        requires
            u > 0,
            den > 0,
            t == u * den,
    ;
    // Everything below is compared after multiplication by `w`.
    assert(((lo * q) * den) * w == lo * (p * t)) by (nonlinear_arith)
        requires
            q * w == p * u,
            t == u * den,
    ;
    assert((q * den) * w == p * t) by (nonlinear_arith)
        requires
            q * w == p * u,
            t == u * den,
    ;
    assert((lo * q + q) * den == (lo * q) * den + q * den) by (nonlinear_arith);
    assert(sig * t == lo * (p * t) + rest * t) by (nonlinear_arith)
        requires
            sig == lo * p + rest,
    ;
    let a = (lo * q) * den;
    let b = q * den;
    assert((a + b) * w == a * w + b * w) by (nonlinear_arith);
    assert((2 * (num - a)) * w == 2 * (x - a * w)) by (nonlinear_arith)
        requires
            x == num * w,
    ;
    assert(rest * t + t <= p * t) by (nonlinear_arith)
        requires
            rest + 1 <= p,
            t > 0,
    ;
    assert(rest * t >= 0) by (nonlinear_arith)
        requires
            rest >= 0,
            t > 0,
    ;
    assert(p * t == 2 * (half * t)) by (nonlinear_arith)
        requires
            p == 2 * half,
    ;
    lemma_cancel(a, num, w);
    lemma_cancel(num, a + b, w);
    lemma_cancel(2 * (num - a), b, w);
    if rest < half {
        assert(rest * t + t <= half * t) by (nonlinear_arith)
            requires
                rest + 1 <= half,
                t > 0,
        ;
    } else if rest > half {
        assert(half * t + t <= rest * t) by (nonlinear_arith)
            requires
                half + 1 <= rest,
                t > 0,
        ;
    }
}

/// The magnitude with significand `lo` at spacing `2^e`.
proof fn lemma_assemble(lo: int, e: nat)
    requires
        0 <= lo < 0x100_0000,
        e > 0 ==> lo >= 0x80_0000,
    ensures
        spacing_exponent(e * 0x80_0000 + lo) == e,
        significand(e * 0x80_0000 + lo) == lo,
        magnitude_value(e * 0x80_0000 + lo) == lo * pow2(e),
{
}

/// Appending `s` zero digits to an exact value changes nothing.
proof fn lemma_append_digits(sig: int, k: int, num: int, den: int, s: nat, e: nat, lo: int)
    requires
        den > 0,
        brackets(sig, k, false, num, den),
        e + s == k,
        lo == sig * pow2(s),
    ensures
        num == (lo * pow2(e)) * den,
{
    lemma2_to64();
    lemma_pow2_adds(s, e);
    let u = scale_up(k);
    let (p, q) = (pow2(s) as int, pow2(e) as int);
    assert(u == p * q);
    let w = scale_up(-k);
    assert(num * w == num) by (nonlinear_arith)
        requires
            w == 1,
    ;
    assert((lo * q) * den == sig * (u * den)) by (nonlinear_arith)
        requires
            lo == sig * p,
            u == p * q,
    ;
}

/// A value below half a unit rounds to zero.
proof fn lemma_tiny(sig: int, k: int, inexact: bool, num: int, den: int)
    requires
        den > 0,
        0 <= sig < 0x8000_0000_0000_0000,
        k <= -64,
        brackets(sig, k, inexact, num, den),
    ensures
        is_nearest(0, num, den),
{
    lemma2_to64();
    let w = scale_up(-k);
    if -k > 64 {
        lemma_pow2_strictly_increases(64, (-k) as nat);
    }
    assert(1 * den == den);
    let x = num * w;
    let half: int = 0x8000_0000_0000_0000;
    assert(sig * den + den <= half * den) by (nonlinear_arith)
        requires
            sig + 1 <= half,
            den > 0,
    ;
    assert(sig * den >= 0) by (nonlinear_arith)
        requires
            sig >= 0,
            den > 0,
    ;
    assert(2 * (half * den) <= den * w) by (nonlinear_arith)
        requires
            2 * half <= w,
            den > 0,
    ;
    assert((2 * num) * w == 2 * x) by (nonlinear_arith)
        requires
            x == num * w,
    ;
    lemma_cancel(0, num, w);
    lemma_cancel(2 * num, den, w);
    lemma_value_sign(0);
    lemma_successor(0);
    lemma_nearest_of_neighbours(0, 0, num, den);
}

/// How many digits are left when `d` are dropped.
proof fn lemma_digits_left(sig: int, length: nat, d: nat, lo: int)
    requires
        0 <= sig < pow2(length),
        length > 0 ==> pow2((length - 1) as nat) <= sig,
        lo == sig / pow2(d) as int,
        length <= 24 + d,
    ensures
        0 <= lo < 0x100_0000,
        length == 24 + d ==> lo >= 0x80_0000,
{
    lemma2_to64();
    lemma_pow2_pos(d);
    lemma_pow2_adds(24, d);
    lemma_pow2_adds(23, d);
    if length < 24 + d {
        lemma_pow2_strictly_increases(length, 24 + d);
    }
    let p = pow2(d) as int;
    vstd::arithmetic::div_mod::lemma_fundamental_div_mod(sig, p);
    vstd::arithmetic::div_mod::lemma_mod_pos_bound(sig, p);
    vstd::arithmetic::div_mod::lemma_div_pos_is_pos(sig, p);
    if lo >= 0x100_0000 {
        assert(p * lo >= p * 0x100_0000) by (nonlinear_arith)
            requires
                lo >= 0x100_0000,
                p > 0,
        ;
    }
    if length == 24 + d && lo < 0x80_0000 {
        assert(p * lo + p <= p * 0x80_0000) by (nonlinear_arith)
            requires
                lo + 1 <= 0x80_0000,
                p > 0,
        ;
    }
}

/// A spacing of at least `2^254` is beyond the finite magnitudes.
proof fn lemma_too_wide(lo: int, e: nat, num: int, den: int)
    requires
        den > 0,
        e >= 254,
        lo >= 0x80_0000,
        (lo * pow2(e)) * den <= num,
    ensures
        is_nearest(INFINITE as int, num, den),
        rounded(num, den) == INFINITE,
{
    if e > 254 {
        lemma_pow2_strictly_increases(254, e);
    }
    let (p, q) = (pow2(254) as int, pow2(e) as int);
    lemma_pow2_pos(254);
    assert(0x80_0000 * p <= lo * q) by (nonlinear_arith)
        requires
            lo >= 0x80_0000,
            q >= p,
            p > 0,
    ;
    lemma_mul_inequality(0x80_0000 * p, lo * q, den);
    assert(magnitude_value(INFINITE as int) == 0x80_0000 * p);
    lemma_nearest_beyond(num, den);
    lemma_rounded_is(INFINITE as int, num, den);
}

/// Rounds `sig * 2^k` units, or a value just above it, to the nearest
/// magnitude.
pub(crate) fn nearest_magnitude(
    sig: u64,
    k: i32,
    inexact: bool,
    Ghost(num): Ghost<int>,
    Ghost(den): Ghost<int>,
) -> (m: u32)
    requires
        den > 0,
        sig < 0x8000_0000_0000_0000,
        -1000 <= k <= 1000,
        brackets(sig as int, k as int, inexact, num, den),
        inexact ==> sig >= 0x100_0000 || k < 0,
    ensures
        is_nearest(m as int, num, den),
        m == rounded(num, den),
{
    proof {
        lemma2_to64();
    }
    if sig == 0 && !inexact {
        proof {
            let w = scale_up(-(k as int));
            lemma_pow2_pos(if k < 0 {
                (-k) as nat
            } else {
                0
            });
            lemma_cancel(num, 0, w);
            lemma_value_sign(0);
            lemma_exact_is_nearest(0, num, den);
        }
        return 0;
    }
    let length: i32 = bit_length(sig) as i32;
    let e: i32 = if length + k > 24 {
        length + k - 24
    } else {
        0
    };
    let d: i32 = e - k;
    proof {
        if length <= 24 && length > 0 && length != 24 {
            lemma_pow2_strictly_increases(length as nat, 24);
        }
    }
    if d <= 0 {
        let s: u32 = (-d) as u32;
        proof {
            // The significand fills 24 digits, or the spacing is already 1.
            lemma_pow2_adds(length as nat, s as nat);
            lemma_pow2_adds((length - 1) as nat, s as nat);
            lemma_pow2_pos(s as nat);
            lemma_mul_strict_inequality(sig as int, pow2(length as nat) as int, pow2(s as nat) as int);
            lemma_mul_inequality(pow2((length - 1) as nat) as int, sig as int, pow2(s as nat) as int);
            if length + s < 24 {
                lemma_pow2_strictly_increases((length + s) as nat, 24);
            }
            lemma_u64_shl_is_mul(sig, s as u64);
        }
        let lo: u64 = sig << (s as u64);
        proof {
            lemma_append_digits(sig as int, k as int, num, den, s as nat, e as nat, lo as int);
            assert(e > 0 ==> length + s == 24);
        }
        if e >= 254 {
            proof {
                lemma_too_wide(lo as int, e as nat, num, den);
            }
            return INFINITE;
        }
        let m: u32 = e as u32 * 0x80_0000 + lo as u32;
        proof {
            lemma_assemble(lo as int, e as nat);
            lemma_exact_is_nearest(m as int, num, den);
        }
        return m;
    }
    if d >= 64 {
        proof {
            lemma_tiny(sig as int, k as int, inexact, num, den);
            lemma_rounded_is(0, num, den);
        }
        return 0;
    }
    let lo: u64 = sig >> (d as u64);
    proof {
        lemma_u64_shr_is_div(sig, d as u64);
        lemma_pow2_pos(d as nat);
        vstd::arithmetic::div_mod::lemma_fundamental_div_mod(sig as int, pow2(d as nat) as int);
        vstd::arithmetic::div_mod::lemma_mod_pos_bound(sig as int, pow2(d as nat) as int);
        lemma_mul_is_commutative(lo as int, pow2(d as nat) as int);
        lemma_digits_left(sig as int, length as nat, d as nat, lo as int);
        lemma_u64_shl_is_mul(lo, d as u64);
        lemma_pow2_unfold(d as nat);
        lemma_pow2_strictly_increases((d - 1) as nat, 64);
        lemma_u64_shl_is_mul(1, (d - 1) as u64);
    }
    let rest: u64 = sig - (lo << (d as u64));
    let half: u64 = 1u64 << ((d - 1) as u64);
    proof {
        lemma_drop_digits(
            sig as int,
            k as int,
            inexact,
            num,
            den,
            d as nat,
            e as nat,
            lo as int,
            rest as int,
            half as int,
        );
        lemma_assemble(lo as int, e as nat);
    }
    if e >= 254 {
        proof {
            lemma_too_wide(lo as int, e as nat, num, den);
        }
        return INFINITE;
    }
    let base: u32 = e as u32 * 0x80_0000 + lo as u32;
    let up: bool = rest > half || (rest == half && (inexact || lo % 2 == 1));
    let m: u32 = if up {
        base + 1
    } else {
        base
    };
    proof {
        lemma_successor(base as int);
        lemma_nearest_of_neighbours(base as int, m as int, num, den);
        lemma_rounded_is(m as int, num, den);
    }
    m
}

} // verus!
