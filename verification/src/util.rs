//! Arithmetic on durations.
use vstd::prelude::*;

use crate::float32::Float32;
use crate::time::Duration;

verus! {

/// What is left of `lhs` after as many whole `rhs` as fit.
pub fn rem(lhs: Duration, rhs: Duration) -> (r: Duration)
    requires
        rhs.ticks > 0,
    ensures
        r.ticks == lhs.ticks % rhs.ticks,
{
    Duration { ticks: lhs.ticks % rhs.ticks }
}

/// How many whole `rhs` fit in `lhs`.
pub fn div_int(lhs: Duration, rhs: Duration) -> (n: u64)
    requires
        rhs.ticks > 0,
    ensures
        n == lhs.ticks / rhs.ticks,
{
    lhs.ticks / rhs.ticks
}

/// The quotient of the two tick counts, each rounded to single precision.
pub open spec fn spec_div(lhs: Duration, rhs: Duration) -> Float32 {
    Float32::spec_from_u64(lhs.ticks).spec_divided_by(Float32::spec_from_u64(rhs.ticks))
}

/// `lhs` as a fraction of `rhs`.
pub fn div(lhs: Duration, rhs: Duration) -> (r: Float32)
    ensures
        r == spec_div(lhs, rhs),
{
    Float32::from_u64(lhs.ticks).divided_by(Float32::from_u64(rhs.ticks))
}

/// `lhs - rhs`, if it is not negative.
pub fn const_checked_sub(lhs: Duration, rhs: Duration) -> (r: Option<Duration>)
    ensures
        r == (if rhs.ticks <= lhs.ticks {
            Some(Duration { ticks: (lhs.ticks - rhs.ticks) as u64 })
        } else {
            None
        }),
{
    match lhs.ticks.checked_sub(rhs.ticks) {
        Some(ticks) => Some(Duration { ticks }),
        None => None,
    }
}

/// `lhs + rhs`, if it fits.
pub fn const_checked_add(lhs: Duration, rhs: Duration) -> (r: Option<Duration>)
    ensures
        r == (if lhs.ticks + rhs.ticks <= u64::MAX {
            Some(Duration { ticks: (lhs.ticks + rhs.ticks) as u64 })
        } else {
            None
        }),
{
    match lhs.ticks.checked_add(rhs.ticks) {
        Some(ticks) => Some(Duration { ticks }),
        None => None,
    }
}

/// `rhs` times `lhs`, if it fits.
pub fn const_checked_mul(lhs: Duration, rhs: u64) -> (r: Option<Duration>)
    ensures
        r == (if lhs.ticks * rhs <= u64::MAX {
            Some(Duration { ticks: (lhs.ticks * rhs) as u64 })
        } else {
            None
        }),
{
    match lhs.ticks.checked_mul(rhs) {
        Some(ticks) => Some(Duration { ticks }),
        None => None,
    }
}

/// A fraction of two durations is off by at most one part in 2^22.
pub proof fn law_fraction_is_accurate(lhs: Duration, rhs: Duration, r: Float32)
    requires
        rhs.ticks > 0,
        call_ensures(div, (lhs, rhs), r),
    ensures
        !r.is_negative(),
        ({
            let (exact, got) = (
                lhs.ticks * vstd::arithmetic::power2::pow2(149),
                r.size() * rhs.ticks,
            );
            0x40_0000 * (got - exact) <= exact && 0x40_0000 * (exact - got) <= exact
        }),
{
    let (p, k, n) = (
        vstd::arithmetic::power2::pow2(149) as int,
        lhs.ticks as int,
        rhs.ticks as int,
    );
    let (a, b) = (Float32::spec_from_u64(lhs.ticks), Float32::spec_from_u64(rhs.ticks));
    vstd::arithmetic::power2::lemma_pow2_pos(149);
    crate::anim::lemma_integer_is_finite(lhs.ticks);
    crate::anim::lemma_integer_is_finite(rhs.ticks);
    crate::anim::lemma_integer_is_accurate(lhs.ticks);
    crate::anim::lemma_integer_is_accurate(rhs.ticks);
    let (sa, sb, s) = (a.size(), b.size(), r.size());
    crate::rounding::lemma_value_sign(a.magnitude());
    crate::rounding::lemma_value_sign(b.magnitude());
    assert(sa * p >= 0) by (nonlinear_arith)
        requires
            sa >= 0,
            p > 0,
    ;
    crate::rounding::lemma_rounded_is_nearest(sa * p, sb);
    if k == 0 {
        assert(k * p == 0) by (nonlinear_arith)
            requires
                k == 0,
        ;
        assert(sa * p == 0) by (nonlinear_arith)
            requires
                sa == 0,
        ;
        crate::rounding::lemma_value_sign(0);
        crate::rounding::lemma_rounded_at_most(0, sb, 0);
        assert(s * n == 0) by (nonlinear_arith)
            requires
                s == 0,
        ;
    } else {
        vstd::arithmetic::power2::lemma2_to64();
        vstd::arithmetic::power2::lemma_pow2_adds(64, 85);
        vstd::arithmetic::power2::lemma_pow2_strictly_increases(25, 85);
        vstd::arithmetic::power2::lemma_pow2_adds(23, 254);
        let top = crate::rounding::magnitude_value(crate::rounding::INFINITE as int);
        assert(top == vstd::arithmetic::power2::pow2(277));
        vstd::arithmetic::power2::lemma_pow2_adds(64, 149);
        vstd::arithmetic::power2::lemma_pow2_unfold(214);
        vstd::arithmetic::power2::lemma_pow2_unfold(215);
        vstd::arithmetic::power2::lemma_pow2_strictly_increases(215, 277);
        let w = vstd::arithmetic::power2::pow2(85) as int;
        assert(p <= k * p <= 0x1_0000_0000_0000_0000 * p) by (nonlinear_arith)
            requires
                1 <= k <= 0x1_0000_0000_0000_0000,
                p > 0,
        ;
        assert(p <= n * p <= 0x1_0000_0000_0000_0000 * p) by (nonlinear_arith)
            requires
                1 <= n <= 0x1_0000_0000_0000_0000,
                p > 0,
        ;
        assert(2 * sa >= p && 2 * sb >= p && sa <= 0x2_0000_0000_0000_0000 * p && sb
            <= 0x2_0000_0000_0000_0000 * p);
        assert(0x80_0000 * sb <= sa * p) by (nonlinear_arith)
            requires
                2 * sa >= p,
                sb <= 0x2_0000_0000_0000_0000 * p,
                p == 0x1_0000_0000_0000_0000 * w,
                w >= 0x200_0000,
                p > 0,
        ;
        assert(sa * p <= top * sb) by (nonlinear_arith)
            requires
                sa <= 0x2_0000_0000_0000_0000 * p,
                2 * sb >= p,
                top >= 0x4_0000_0000_0000_0000 * p,
                p > 0,
        ;
        crate::rounding::law_rounding_error_is_relative(sa * p, sb);
        lemma_fraction_error(s, sa, sb, k, n, p);
    }
}

/// Relative errors of two integers and of their quotient together.
proof fn lemma_fraction_error(s: int, sa: int, sb: int, k: int, n: int, p: int)
    requires
        k >= 1,
        n >= 1,
        p > 0,
        s >= 0,
        0x100_0000 * (s * sb - sa * p) <= sa * p,
        0x100_0000 * (sa * p - s * sb) <= sa * p,
        0x100_0000 * (sa - k * p) <= k * p,
        0x100_0000 * (k * p - sa) <= k * p,
        0x100_0000 * (sb - n * p) <= n * p,
        0x100_0000 * (n * p - sb) <= n * p,
    ensures
        0x40_0000 * (s * n - k * p) <= k * p,
        0x40_0000 * (k * p - s * n) <= k * p,
{
    let (x, y) = (s * n, k * p);
    let (xp, yp) = (x * p, y * p);
    assert(s * (n * p) == xp) by (nonlinear_arith)
        requires
            xp == (s * n) * p,
    ;
    assert(0x100_0000 * (s * sb - xp) <= xp && 0x100_0000 * (xp - s * sb) <= xp)
        by (nonlinear_arith)
        requires
            s * (n * p) == xp,
            0x100_0000 * (sb - n * p) <= n * p,
            0x100_0000 * (n * p - sb) <= n * p,
            s >= 0,
    ;
    assert(0x100_0000 * (sa * p - yp) <= yp && 0x100_0000 * (yp - sa * p) <= yp)
        by (nonlinear_arith)
        requires
            yp == y * p,
            0x100_0000 * (sa - y) <= y,
            0x100_0000 * (y - sa) <= y,
            p > 0,
    ;
    assert(0x40_0000 * (xp - yp) <= yp && 0x40_0000 * (yp - xp) <= yp);
    assert(0x40_0000 * (x - y) <= y && 0x40_0000 * (y - x) <= y) by (nonlinear_arith)
        requires
            xp == x * p,
            yp == y * p,
            0x40_0000 * (xp - yp) <= yp,
            0x40_0000 * (yp - xp) <= yp,
            p > 0,
    ;
}

} // verus!
