//! Single-precision numbers, carried as their IEEE 754 encoding.
//!
//! Arithmetic is done on the encoding in integers, and each operation is
//! proved to give the number nearest to the exact result, ties to even.
use vstd::arithmetic::div_mod::{lemma_fundamental_div_mod, lemma_mod_pos_bound};
use vstd::arithmetic::mul::{lemma_mul_inequality, lemma_mul_strict_inequality};
use vstd::arithmetic::power2::{
    lemma2_to64, lemma_pow2_adds, lemma_pow2_pos, lemma_pow2_strictly_increases,
    lemma_pow2_unfold, pow2,
};
use vstd::bits::{lemma_u64_shl_is_mul, lemma_u64_shr_is_div};
use vstd::prelude::*;

use crate::rounding::{bit_length, nearest_magnitude, INFINITE};

verus! {

/// Added to a magnitude, this makes the number negative.
pub const SIGN: u32 = 0x8000_0000;

/// The encoding that stands for "not a number".
pub const NAN: u32 = 0x7fc0_0000;

/// Encoding of the number one.
pub const ONE: u32 = 0x3f80_0000;

/// A single-precision number. `==` compares encodings, not values.
#[derive(Clone, Copy, Debug, PartialEq, Eq, Structural)]
pub struct Float32 {
    pub bits: u32,
}

/// The number with the given sign and magnitude.
pub open spec fn encode(negative: bool, magnitude: int) -> Float32 {
    Float32 {
        bits: (if negative {
            SIGN + magnitude
        } else {
            magnitude
        }) as u32,
    }
}

/// `num / den` rounded to the nearest integer, ties to even.
pub open spec fn half_even(num: int, den: int) -> int {
    let q = num / den;
    let r = num % den;
    if 2 * r < den || (2 * r == den && q % 2 == 0) {
        q
    } else {
        q + 1
    }
}

impl Float32 {
    pub open spec fn is_negative(self) -> bool {
        self.bits >= SIGN
    }

    pub open spec fn magnitude(self) -> int {
        if self.bits >= SIGN {
            self.bits - SIGN
        } else {
            self.bits as int
        }
    }

    pub open spec fn is_nan(self) -> bool {
        self.magnitude() > INFINITE
    }

    pub open spec fn is_infinite(self) -> bool {
        self.magnitude() == INFINITE
    }

    pub open spec fn is_finite(self) -> bool {
        self.magnitude() < INFINITE
    }

    pub open spec fn is_zero(self) -> bool {
        self.magnitude() == 0
    }

    /// Absolute value in units of 2^-149.
    pub open spec fn size(self) -> int {
        crate::rounding::magnitude_value(self.magnitude())
    }

    /// Value in units of 2^-149. The infinities are placed beyond every
    /// finite number.
    pub open spec fn value(self) -> int {
        if self.is_negative() {
            -self.size()
        } else {
            self.size()
        }
    }

    pub open spec fn spec_negated(self) -> Float32 {
        encode(!self.is_negative(), self.magnitude())
    }

    pub open spec fn spec_absolute(self) -> Float32 {
        encode(false, self.magnitude())
    }

    /// `self < other`, false when either is not a number.
    pub open spec fn spec_less_than(self, other: Float32) -> bool {
        !self.is_nan() && !other.is_nan() && self.value() < other.value()
    }

    pub open spec fn spec_times(self, other: Float32) -> Float32 {
        let negative = self.is_negative() != other.is_negative();
        if self.is_nan() || other.is_nan() || (self.is_infinite() && other.is_zero()) || (
        self.is_zero() && other.is_infinite()) {
            Float32 { bits: NAN }
        } else if self.is_infinite() || other.is_infinite() {
            encode(negative, INFINITE as int)
        } else {
            encode(
                negative,
                crate::rounding::rounded(self.size() * other.size(), pow2(149) as int),
            )
        }
    }

    pub open spec fn spec_plus(self, other: Float32) -> Float32 {
        let sum = self.value() + other.value();
        if self.is_nan() || other.is_nan() || (self.is_infinite() && other.is_infinite()
            && self.is_negative() != other.is_negative()) {
            Float32 { bits: NAN }
        } else if self.is_infinite() {
            self
        } else if other.is_infinite() {
            other
        } else if sum == 0 {
            encode(self.is_negative() && other.is_negative(), 0)
        } else if sum < 0 {
            encode(true, crate::rounding::rounded(-sum, 1))
        } else {
            encode(false, crate::rounding::rounded(sum, 1))
        }
    }

    pub open spec fn spec_minus(self, other: Float32) -> Float32 {
        self.spec_plus(other.spec_negated())
    }

    pub open spec fn spec_divided_by(self, other: Float32) -> Float32 {
        let negative = self.is_negative() != other.is_negative();
        if self.is_nan() || other.is_nan() || (self.is_infinite() && other.is_infinite()) || (
        self.is_zero() && other.is_zero()) {
            Float32 { bits: NAN }
        } else if self.is_infinite() || other.is_zero() {
            encode(negative, INFINITE as int)
        } else if other.is_infinite() {
            encode(negative, 0)
        } else {
            encode(
                negative,
                crate::rounding::rounded(self.size() * pow2(149), other.size()),
            )
        }
    }

    /// What division with the quotient truncated leaves over; it has the
    /// sign of `self`.
    pub open spec fn spec_remainder(self, other: Float32) -> Float32 {
        if self.is_nan() || other.is_nan() || self.is_infinite() || other.is_zero() {
            Float32 { bits: NAN }
        } else if other.is_infinite() {
            self
        } else {
            encode(
                self.is_negative(),
                crate::rounding::rounded(self.size() % other.size(), 1),
            )
        }
    }

    pub open spec fn spec_clamp(self, low: Float32, high: Float32) -> Float32 {
        if self.spec_less_than(low) {
            low
        } else if high.spec_less_than(self) {
            high
        } else {
            self
        }
    }

    /// The smaller one; a number when only one of the two is a number.
    pub open spec fn spec_minimum(self, other: Float32) -> Float32 {
        if self.is_nan() || other.spec_less_than(self) {
            other
        } else {
            self
        }
    }

    /// The larger one; a number when only one of the two is a number.
    pub open spec fn spec_maximum(self, other: Float32) -> Float32 {
        if self.is_nan() || self.spec_less_than(other) {
            other
        } else {
            self
        }
    }

    /// Truncated toward zero and held in 0..=65535; 0 when not a number.
    pub open spec fn spec_to_u16(self) -> u16 {
        let whole = self.size() / pow2(149) as int;
        if self.is_nan() || self.is_negative() {
            0
        } else if whole > 0xffff {
            0xffff
        } else {
            whole as u16
        }
    }

    pub open spec fn spec_from_u64(n: u64) -> Float32 {
        encode(false, crate::rounding::rounded(n * pow2(149), 1))
    }

    pub open spec fn spec_from_i64(n: i64) -> Float32 {
        encode(
            n < 0,
            crate::rounding::rounded((if n < 0 {
                -n
            } else {
                n as int
            }) * pow2(149), 1),
        )
    }

    /// The number nearest to `bits / 2^32`.
    pub open spec fn spec_from_fixed(bits: i64) -> Float32 {
        encode(
            bits < 0,
            crate::rounding::rounded((if bits < 0 {
                -bits
            } else {
                bits as int
            }) * pow2(117), 1),
        )
    }

    /// The integer nearest to the value times `2^32`.
    pub open spec fn spec_to_fixed(self) -> int {
        if self.is_negative() {
            -half_even(self.size(), pow2(117) as int)
        } else {
            half_even(self.size(), pow2(117) as int)
        }
    }

    /// The number can be written with 32 integer and 32 fraction bits.
    pub open spec fn fits_fixed(self) -> bool {
        self.is_finite() && i64::MIN <= self.spec_to_fixed() <= i64::MAX
    }

    fn sign_bit(self) -> (negative: bool)
        ensures
            negative == self.is_negative(),
    {
        self.bits >= SIGN
    }

    fn low_bits(self) -> (m: u32)
        ensures
            m == self.magnitude(),
            m < SIGN,
    {
        if self.bits >= SIGN {
            self.bits - SIGN
        } else {
            self.bits
        }
    }

    fn assembled(negative: bool, m: u32) -> (r: Float32)
        requires
            m < SIGN,
        ensures
            r == encode(negative, m as int),
            r.is_negative() == negative,
            r.magnitude() == m,
    {
        if negative {
            Float32 { bits: SIGN + m }
        } else {
            Float32 { bits: m }
        }
    }

    /// The opposite number.
    pub fn negated(self) -> (r: Float32)
        ensures
            r == self.spec_negated(),
    {
        Float32::assembled(!self.sign_bit(), self.low_bits())
    }

    /// The number without its sign.
    pub fn absolute(self) -> (r: Float32)
        ensures
            r == self.spec_absolute(),
    {
        Float32::assembled(false, self.low_bits())
    }

    /// Whether `self < other`.
    pub fn less_than(self, other: Float32) -> (b: bool)
        ensures
            b == self.spec_less_than(other),
    {
        let (m, n) = (self.low_bits(), other.low_bits());
        proof {
            crate::rounding::lemma_value_sign(m as int);
            crate::rounding::lemma_value_sign(n as int);
            if m < n {
                crate::rounding::lemma_value_increases(m as int, n as int);
            } else if n < m {
                crate::rounding::lemma_value_increases(n as int, m as int);
            }
        }
        if m > INFINITE || n > INFINITE {
            false
        } else if self.sign_bit() {
            if other.sign_bit() {
                n < m
            } else {
                m > 0 || n > 0
            }
        } else {
            !other.sign_bit() && m < n
        }
    }

    /// Held between `low` and `high`; not a number stays as it is.
    pub fn clamp(self, low: Float32, high: Float32) -> (r: Float32)
        requires
            !low.is_nan() && !high.is_nan() && low.value() <= high.value(),
        ensures
            r == self.spec_clamp(low, high),
    {
        if self.less_than(low) {
            low
        } else if high.less_than(self) {
            high
        } else {
            self
        }
    }

    /// The smaller of two numbers.
    pub fn minimum(self, other: Float32) -> (r: Float32)
        ensures
            r == self.spec_minimum(other),
    {
        if self.low_bits() > INFINITE || other.less_than(self) {
            other
        } else {
            self
        }
    }

    /// The larger of two numbers.
    pub fn maximum(self, other: Float32) -> (r: Float32)
        ensures
            r == self.spec_maximum(other),
    {
        if self.low_bits() > INFINITE || self.less_than(other) {
            other
        } else {
            self
        }
    }
}

/// Splits a finite magnitude into significand and spacing exponent.
fn parts(m: u32) -> (p: (u64, i32))
    requires
        m < INFINITE,
    ensures
        p.0 == crate::rounding::significand(m as int),
        p.1 == crate::rounding::spacing_exponent(m as int),
        0 <= p.0 < 0x100_0000,
        0 <= p.1 <= 253,
        p.1 > 0 ==> p.0 >= 0x80_0000,
        p.0 == 0 <==> m == 0,
{
    if m < 0x100_0000 {
        (m as u64, 0)
    } else {
        ((m % 0x80_0000 + 0x80_0000) as u64, (m / 0x80_0000 - 1) as i32)
    }
}

/// The product of two significands, with their exponents added, is the
/// product of the values.
proof fn lemma_product(sa: int, ea: nat, sb: int, eb: nat)
    ensures
        crate::rounding::brackets(
            sa * sb,
            ea + eb - 149,
            false,
            (sa * pow2(ea)) * (sb * pow2(eb)),
            pow2(149) as int,
        ),
{
    let k = ea + eb - 149;
    let (pa, pb, den) = (pow2(ea) as int, pow2(eb) as int, pow2(149) as int);
    let u = crate::rounding::scale_up(k);
    let w = crate::rounding::scale_up(-k);
    lemma2_to64();
    lemma_pow2_adds(ea, eb);
    if k >= 0 {
        lemma_pow2_adds(k as nat, 149);
        assert(pow2(k as nat) * pow2(149) == pow2(ea + eb));
        assert((pa * pb) * w == pa * pb) by (nonlinear_arith)
            requires
                w == 1,
        ;
    } else {
        lemma_pow2_adds(ea + eb, (-k) as nat);
        assert(pow2(ea + eb) * pow2((-k) as nat) == pow2(149));
        assert(u * den == den) by (nonlinear_arith)
            requires
                u == 1,
        ;
    }
    assert(u * den == (pa * pb) * w);
    assert((sa * sb) * (u * den) == ((sa * pa) * (sb * pb)) * w) by (nonlinear_arith)
        requires
            u * den == (pa * pb) * w,
    ;
}

/// Absolute value of an integer.
fn unsigned(n: i64) -> (r: u64)
    ensures
        r == (if n < 0 {
            -n
        } else {
            n as int
        }),
{
    if n == i64::MIN {
        0x8000_0000_0000_0000
    } else if n < 0 {
        (-n) as u64
    } else {
        n as u64
    }
}

/// Rounds `n * 2^k` units.
fn round_integer(n: u64, k: i32) -> (m: u32)
    requires
        0 <= k <= 500,
    ensures
        crate::rounding::is_nearest(m as int, n * pow2(k as nat), 1),
        m == crate::rounding::rounded(n * pow2(k as nat), 1),
{
    let ghost num = n * pow2(k as nat);
    proof {
        lemma2_to64();
        lemma_pow2_unfold((k + 1) as nat);
        assert(num * 1 == num);
        let p = pow2(k as nat) as int;
        lemma_pow2_pos(k as nat);
        assert(p * 1 == p);
        if n >= 0x8000_0000_0000_0000u64 {
            let h = (n / 2) as int;
            assert(h * (2 * p) == (2 * h) * p) by (nonlinear_arith);
            if n % 2 == 1 {
                assert((2 * h + 1) * p == (2 * h) * p + p) by (nonlinear_arith);
            }
        }
    }
    if n >= 0x8000_0000_0000_0000 {
        nearest_magnitude(n / 2, k + 1, n % 2 == 1, Ghost(num), Ghost(1))
    } else {
        nearest_magnitude(n, k, false, Ghost(num), Ghost(1))
    }
}

impl Float32 {
    /// `self * other`.
    pub fn times(self, other: Float32) -> (r: Float32)
        ensures
            r == self.spec_times(other),
    {
        let (m, n) = (self.low_bits(), other.low_bits());
        let negative = self.sign_bit() != other.sign_bit();
        if m > INFINITE || n > INFINITE || (m == INFINITE && n == 0) || (m == 0 && n == INFINITE) {
            return Float32 { bits: NAN };
        }
        if m == INFINITE || n == INFINITE {
            return Float32::assembled(negative, INFINITE);
        }
        let (sa, ea) = parts(m);
        let (sb, eb) = parts(n);
        assert(sa * sb < 0x1_0000_0000_0000) by (nonlinear_arith)
            requires
                0 <= sa < 0x100_0000,
                0 <= sb < 0x100_0000,
        ;
        proof {
            lemma_pow2_pos(149);
            lemma_product(sa as int, ea as nat, sb as int, eb as nat);
        }
        let product = nearest_magnitude(
            sa * sb,
            ea + eb - 149,
            false,
            Ghost(self.size() * other.size()),
            Ghost(pow2(149) as int),
        );
        Float32::assembled(negative, product)
    }

    /// The number nearest to an integer.
    pub fn from_u64(n: u64) -> (r: Float32)
        ensures
            r == Float32::spec_from_u64(n),
    {
        let m = round_integer(n, 149);
        Float32::assembled(false, m)
    }

    /// The number nearest to a signed integer.
    pub fn from_i64(n: i64) -> (r: Float32)
        ensures
            r == Float32::spec_from_i64(n),
    {
        let m = round_integer(unsigned(n), 149);
        Float32::assembled(n < 0, m)
    }

    /// The number nearest to `bits / 2^32`.
    pub fn from_fixed(bits: i64) -> (r: Float32)
        ensures
            r == Float32::spec_from_fixed(bits),
    {
        let m = round_integer(unsigned(bits), 117);
        Float32::assembled(bits < 0, m)
    }
}

/// Shifting a significand left by the difference of two exponents keeps its
/// value.
proof fn lemma_align(sig: int, shifted: int, d: nat, k: nat)
    requires
        shifted == sig * pow2(d),
    ensures
        shifted * pow2(k) == sig * pow2(k + d),
{
    lemma_pow2_adds(k, d);
    let (p, q) = (pow2(d) as int, pow2(k) as int);
    assert((sig * p) * q == sig * (q * p)) by (nonlinear_arith);
}

/// Dropping `t` digits of a significand leaves the floor at the coarser
/// exponent.
proof fn lemma_drop(sig: int, kept: int, t: nat, e: nat)
    requires
        0 <= sig,
        kept == sig / pow2(t) as int,
    ensures
        kept * pow2(e + t) <= sig * pow2(e) < kept * pow2(e + t) + pow2(e + t),
        sig % pow2(t) as int == 0 <==> kept * pow2(e + t) == sig * pow2(e),
{
    lemma_pow2_adds(e, t);
    lemma_pow2_pos(e);
    lemma_pow2_pos(t);
    let (p, q) = (pow2(t) as int, pow2(e) as int);
    let r = sig % p;
    lemma_fundamental_div_mod(sig, p);
    lemma_mod_pos_bound(sig, p);
    assert(sig * q == (p * kept) * q + r * q) by (nonlinear_arith)
        requires
            sig == p * kept + r,
    ;
    assert((p * kept) * q == kept * (q * p)) by (nonlinear_arith);
    assert(0 <= r * q < p * q) by (nonlinear_arith)
        requires
            0 <= r < p,
            q > 0,
    ;
    assert(r * q == 0 <==> r == 0) by (nonlinear_arith)
        requires
            q > 0,
    ;
    assert(p * q == q * p) by (nonlinear_arith);
}

/// Rounds `sa * 2^ea + sb * 2^eb`, or the difference, where the first term
/// is at least as large and has at least the same exponent.
fn combine(sa: u64, ea: i32, sb: u64, eb: i32, subtract: bool) -> (m: u32)
    requires
        0 <= sb < 0x100_0000,
        0 <= sa < 0x100_0000,
        0 <= eb <= ea <= 253,
        ea > 0 ==> sa >= 0x80_0000,
        sb * pow2(eb as nat) <= sa * pow2(ea as nat),
    ensures
        subtract ==> m == crate::rounding::rounded(
            sa * pow2(ea as nat) - sb * pow2(eb as nat),
            1,
        ),
        !subtract ==> m == crate::rounding::rounded(
            sa * pow2(ea as nat) + sb * pow2(eb as nat),
            1,
        ),
        m <= INFINITE,
{
    let d: i32 = ea - eb;
    let ghost (x, y) = (sa * pow2(ea as nat), sb * pow2(eb as nat));
    let ghost num = if subtract {
        x - y
    } else {
        x + y
    };
    proof {
        lemma2_to64();
        assert(num * 1 == num);
    }
    if d <= 38 {
        let ghost p = pow2(eb as nat) as int;
        proof {
            lemma_pow2_pos(d as nat);
            if d < 38 {
                lemma_pow2_strictly_increases(d as nat, 38);
            }
            lemma_pow2_adds(6, 32);
            lemma_shifted_bound(sa as int, pow2(d as nat) as int);
            lemma_u64_shl_is_mul(sa, d as u64);
            assert(sa * pow2(d as nat) == (sa << (d as u64)));
            lemma_align(sa as int, (sa << (d as u64)) as int, d as nat, eb as nat);
            lemma_pow2_pos(eb as nat);
            assert(p * 1 == p);
        }
        let wide: u64 = sa << (d as u64);
        proof {
            if subtract {
                assert((wide - sb) * p == wide * p - sb * p) by (nonlinear_arith);
                crate::rounding::lemma_cancel(sb as int, wide as int, p);
            } else {
                assert((wide + sb) * p == wide * p + sb * p) by (nonlinear_arith);
            }
        }
        let sig: u64 = if subtract {
            wide - sb
        } else {
            wide + sb
        };
        return nearest_magnitude(sig, eb, false, Ghost(num), Ghost(1));
    }
    let t: i32 = d - 38;
    let k: i32 = eb + t;
    let ghost p = pow2(k as nat) as int;
    proof {
        lemma_pow2_adds(6, 32);
        lemma_pow2_adds(23, 38);
        lemma_shifted_bound(sa as int, pow2(38) as int);
        lemma_u64_shl_is_mul(sa, 38);
        lemma_align(sa as int, (sa << 38u64) as int, 38, k as nat);
        lemma_pow2_pos(t as nat);
        lemma_pow2_pos(k as nat);
        assert(p * 1 == p);
    }
    let wide: u64 = sa << 38u64;
    let kept: u64;
    let lost: bool;
    if t >= 24 {
        proof {
            if t > 24 {
                lemma_pow2_strictly_increases(24, t as nat);
            }
            vstd::arithmetic::div_mod::lemma_small_mod(sb as nat, pow2(t as nat));
            vstd::arithmetic::div_mod::lemma_basic_div(sb as int, pow2(t as nat) as int);
        }
        kept = 0;
        lost = sb != 0;
    } else {
        proof {
            lemma_u64_shr_is_div(sb, t as u64);
            lemma_fundamental_div_mod(sb as int, pow2(t as nat) as int);
            lemma_mod_pos_bound(sb as int, pow2(t as nat) as int);
            assert(pow2(t as nat) * (sb as int / pow2(t as nat) as int) == (sb as int / pow2(
                t as nat,
            ) as int) * pow2(t as nat)) by (nonlinear_arith);
            vstd::arithmetic::div_mod::lemma_div_nonincreasing(sb as int, pow2(t as nat) as int);
        }
        kept = sb >> (t as u64);
        proof {
            lemma_u64_shl_is_mul(kept, t as u64);
        }
        lost = (kept << (t as u64)) != sb;
    }
    proof {
        lemma_drop(sb as int, kept as int, t as nat, eb as nat);
        lemma_mul_inequality(0x80_0000, sa as int, pow2(38) as int);
        assert((wide + kept) * p == wide * p + kept * p) by (nonlinear_arith);
        assert((wide - kept) * p == wide * p - kept * p) by (nonlinear_arith);
        assert((wide - kept - 1) * p == wide * p - kept * p - p) by (nonlinear_arith);
    }
    let sig: u64 = if subtract {
        if lost {
            wide - kept - 1
        } else {
            wide - kept
        }
    } else {
        wide + kept
    };
    nearest_magnitude(sig, k, lost, Ghost(num), Ghost(1))
}

/// A significand shifted by at most 38 digits stays below `2^62`.
proof fn lemma_shifted_bound(sig: int, p: int)
    requires
        0 <= sig < 0x100_0000,
        0 < p <= 0x40_0000_0000,
    ensures
        0 <= sig * p < 0x4000_0000_0000_0000,
{
    assert(0 <= sig * p < 0x100_0000 * 0x40_0000_0000) by (nonlinear_arith)
        requires
            0 <= sig < 0x100_0000,
            0 < p <= 0x40_0000_0000,
    ;
}

/// A magnitude that is not smaller has an exponent that is not smaller.
proof fn lemma_exponent_order(m: int, n: int)
    requires
        0 <= n <= m,
    ensures
        crate::rounding::spacing_exponent(n) <= crate::rounding::spacing_exponent(m),
        crate::rounding::magnitude_value(n) <= crate::rounding::magnitude_value(m),
{
    if n < m {
        crate::rounding::lemma_value_increases(n, m);
    }
}

impl Float32 {
    /// `self + other`.
    pub fn plus(self, other: Float32) -> (r: Float32)
        ensures
            r == self.spec_plus(other),
    {
        let (m, n) = (self.low_bits(), other.low_bits());
        let (a, b) = (self.sign_bit(), other.sign_bit());
        if m > INFINITE || n > INFINITE || (m == INFINITE && n == INFINITE && a != b) {
            return Float32 { bits: NAN };
        }
        if m == INFINITE {
            return self;
        }
        if n == INFINITE {
            return other;
        }
        let (sa, ea) = parts(m);
        let (sb, eb) = parts(n);
        proof {
            crate::rounding::lemma_value_sign(m as int);
            crate::rounding::lemma_value_sign(n as int);
            if m >= n {
                lemma_exponent_order(m as int, n as int);
            } else {
                lemma_exponent_order(n as int, m as int);
            }
            if m < n {
                crate::rounding::lemma_value_increases(m as int, n as int);
            } else if n < m {
                crate::rounding::lemma_value_increases(n as int, m as int);
            }
        }
        if m == n && a != b {
            return Float32::assembled(false, 0);
        }
        if m == 0 && n == 0 {
            return Float32::assembled(a && b, 0);
        }
        let magnitude = if m >= n {
            combine(sa, ea, sb, eb, a != b)
        } else {
            combine(sb, eb, sa, ea, a != b)
        };
        Float32::assembled(if m >= n {
            a
        } else {
            b
        }, magnitude)
    }

    /// `self - other`.
    pub fn minus(self, other: Float32) -> (r: Float32)
        ensures
            r == self.spec_minus(other),
    {
        self.plus(other.negated())
    }
}

/// The quotient of two significands, the first one extended by `z` digits,
/// brackets the quotient of the values.
proof fn lemma_quotient(sa: int, ea: nat, sb: int, eb: nat, z: nat, q: int, k: int)
    requires
        0 < sb,
        0 <= sa,
        q == (sa * pow2(z)) / sb,
        k == ea - z - eb + 149,
    ensures
        crate::rounding::brackets(
            q,
            k,
            (sa * pow2(z)) % sb != 0,
            (sa * pow2(ea)) * pow2(149),
            sb * pow2(eb),
        ),
        sb * pow2(eb) > 0,
{
    let wide = sa * pow2(z);
    let r = wide % sb;
    let u = crate::rounding::scale_up(k);
    let w = crate::rounding::scale_up(-k);
    let (pa, pb, pz, unit) = (
        pow2(ea) as int,
        pow2(eb) as int,
        pow2(z) as int,
        pow2(149) as int,
    );
    lemma2_to64();
    lemma_pow2_pos(ea);
    lemma_pow2_pos(eb);
    lemma_pow2_pos(z);
    lemma_pow2_pos(149);
    lemma_fundamental_div_mod(wide, sb);
    lemma_mod_pos_bound(wide, sb);
    // Both sides have the same power of two.
    let c = (pa * unit) * w;
    lemma_pow2_adds(ea, 149);
    lemma_pow2_adds(eb, z);
    if k >= 0 {
        lemma_pow2_adds(eb + z, k as nat);
        assert((pa * unit) * w == pa * unit) by (nonlinear_arith)
            requires
                w == 1,
        ;
        assert((pb * pz) * u == c);
    } else {
        lemma_pow2_adds(ea + 149, (-k) as nat);
        assert((pb * pz) * u == pb * pz) by (nonlinear_arith)
            requires
                u == 1,
        ;
        assert((pb * pz) * u == c);
    }
    lemma_pow2_pos(if k < 0 {
        (-k) as nat
    } else {
        0
    });
    assert(c > 0) by (nonlinear_arith)
        requires
            pa > 0,
            unit > 0,
            w > 0,
            c == (pa * unit) * w,
    ;
    let den = sb * pb;
    let num = (sa * pa) * unit;
    assert(den > 0) by (nonlinear_arith)
        requires
            sb > 0,
            pb > 0,
            den == sb * pb,
    ;
    assert((num * w) * pz == wide * c) by (nonlinear_arith)
        requires
            num == (sa * pa) * unit,
            wide == sa * pz,
            c == (pa * unit) * w,
    ;
    assert((q * (u * den)) * pz == (sb * q) * c) by (nonlinear_arith)
        requires
            den == sb * pb,
            c == (pb * pz) * u,
    ;
    assert((u * den) * pz == sb * c) by (nonlinear_arith)
        requires
            den == sb * pb,
            c == (pb * pz) * u,
    ;
    assert((q * (u * den) + u * den) * pz == (q * (u * den)) * pz + (u * den) * pz)
        by (nonlinear_arith);
    assert(wide * c == (sb * q) * c + r * c) by (nonlinear_arith)
        requires
            wide == sb * q + r,
    ;
    assert(0 <= r * c < sb * c) by (nonlinear_arith)
        requires
            0 <= r < sb,
            c > 0,
    ;
    assert(r != 0 ==> r * c > 0) by (nonlinear_arith)
        requires
            0 <= r,
            c > 0,
    ;
    assert(r == 0 ==> r * c == 0);
    crate::rounding::lemma_cancel(num * w, q * (u * den), pz);
    crate::rounding::lemma_cancel(q * (u * den), num * w, pz);
    crate::rounding::lemma_cancel(num * w, q * (u * den) + u * den, pz);
}

/// A common factor of both operands can be taken out of a remainder.
proof fn lemma_remainder_factor(x: int, y: int, c: int)
    requires
        0 <= x,
        0 < y,
        0 < c,
    ensures
        (x * c) % (y * c) == (x % y) * c,
{
    let (q, r) = (x / y, x % y);
    lemma_fundamental_div_mod(x, y);
    lemma_mod_pos_bound(x, y);
    assert(x * c == q * (y * c) + r * c) by (nonlinear_arith)
        requires
            x == y * q + r,
    ;
    assert(0 <= r * c < y * c) by (nonlinear_arith)
        requires
            0 <= r < y,
            c > 0,
    ;
    vstd::arithmetic::div_mod::lemma_fundamental_div_mod_converse(x * c, y * c, q, r * c);
}

impl Float32 {
    /// `self / other`.
    pub fn divided_by(self, other: Float32) -> (r: Float32)
        ensures
            r == self.spec_divided_by(other),
    {
        let (m, n) = (self.low_bits(), other.low_bits());
        let negative = self.sign_bit() != other.sign_bit();
        if m > INFINITE || n > INFINITE || (m == INFINITE && n == INFINITE) || (m == 0 && n == 0) {
            return Float32 { bits: NAN };
        }
        if m == INFINITE || n == 0 {
            return Float32::assembled(negative, INFINITE);
        }
        if n == INFINITE {
            return Float32::assembled(negative, 0);
        }
        let (sa, ea) = parts(m);
        let (sb, eb) = parts(n);
        if sa == 0 {
            proof {
                crate::rounding::lemma_value_sign(0);
                crate::rounding::lemma_value_sign(n as int);
                assert(0 * pow2(149) == 0);
                crate::rounding::lemma_exact_is_nearest(0, 0, other.size());
            }
            return Float32::assembled(negative, 0);
        }
        let length: u32 = bit_length(sa);
        proof {
            lemma2_to64();
            if length > 24 {
                if length > 25 {
                    lemma_pow2_strictly_increases(24, (length - 1) as nat);
                }
            }
        }
        // Extend the dividend to 62 digits.
        let z: u32 = 62 - length;
        proof {
            lemma_pow2_adds(length as nat, z as nat);
            lemma_pow2_adds((length - 1) as nat, z as nat);
            lemma_pow2_adds(30, 32);
            lemma_pow2_adds(29, 32);
            lemma_pow2_pos(z as nat);
            lemma_mul_strict_inequality(sa as int, pow2(length as nat) as int, pow2(z as nat) as int);
            lemma_mul_inequality(
                pow2((length - 1) as nat) as int,
                sa as int,
                pow2(z as nat) as int,
            );
            lemma_u64_shl_is_mul(sa, z as u64);
        }
        let wide: u64 = sa << (z as u64);
        let q: u64 = wide / sb;
        let k: i32 = ea - z as i32 - eb + 149;
        proof {
            lemma_quotient(
                sa as int,
                ea as nat,
                sb as int,
                eb as nat,
                z as nat,
                q as int,
                k as int,
            );
            lemma_fundamental_div_mod(wide as int, sb as int);
            if q < 0x100_0000 {
                assert(sb * q + sb < 0x100_0000 * 0x200_0000) by (nonlinear_arith)
                    requires
                        0 <= q < 0x100_0000,
                        0 < sb < 0x100_0000,
                ;
            }
            vstd::arithmetic::div_mod::lemma_div_nonincreasing(wide as int, sb as int);
        }
        let quotient = nearest_magnitude(
            q,
            k,
            wide % sb != 0,
            Ghost(self.size() * pow2(149)),
            Ghost(other.size()),
        );
        Float32::assembled(negative, quotient)
    }

    /// `self % other`.
    pub fn remainder(self, other: Float32) -> (r: Float32)
        ensures
            r == self.spec_remainder(other),
    {
        let (m, n) = (self.low_bits(), other.low_bits());
        if m >= INFINITE || n > INFINITE || n == 0 {
            return Float32 { bits: NAN };
        }
        if n == INFINITE {
            return self;
        }
        if m < n {
            proof {
                crate::rounding::lemma_value_increases(m as int, n as int);
                crate::rounding::lemma_value_sign(m as int);
                vstd::arithmetic::div_mod::lemma_small_mod(self.size() as nat, other.size() as nat);
                crate::rounding::lemma_exact_is_nearest(m as int, self.size(), 1);
            }
            return self;
        }
        let (sa, ea) = parts(m);
        let (sb, eb) = parts(n);
        proof {
            lemma_exponent_order(m as int, n as int);
        }
        let mut left: u64 = sa % sb;
        let mut i: i32 = eb;
        proof {
            lemma2_to64();
            assert(sa * pow2(0) == sa);
        }
        while i < ea
            invariant
                0 <= eb <= i <= ea <= 253,
                0 < sb < 0x100_0000,
                left == (sa * pow2((i - eb) as nat)) % (sb as int),
                left < sb,
            decreases ea - i,
        {
            proof {
                let x = sa * pow2((i - eb) as nat);
                lemma_pow2_unfold((i + 1 - eb) as nat);
                assert(sa * (2 * pow2((i - eb) as nat)) == 2 * x) by (nonlinear_arith)
                    requires
                        x == sa * pow2((i - eb) as nat),
                ;
                vstd::arithmetic::div_mod::lemma_mul_mod_noop_right(2, x, sb as int);
            }
            left = (2 * left) % sb;
            i = i + 1;
        }
        proof {
            let d = (ea - eb) as nat;
            lemma_pow2_pos(d);
            lemma_pow2_pos(eb as nat);
            assert(sa * pow2(d) >= 0) by (nonlinear_arith)
                requires
                    sa >= 0,
                    pow2(d) > 0,
            ;
            lemma_remainder_factor(sa * pow2(d), sb as int, pow2(eb as nat) as int);
            lemma_align(sa as int, sa * pow2(d), d, eb as nat);
        }
        let rest = round_integer(left, eb);
        Float32::assembled(self.sign_bit(), rest)
    }
}

/// Scaling numerator and denominator by the same power of two keeps
/// quotient and remainder.
proof fn lemma_reduce(sig: int, e: nat, total: nat)
    requires
        0 <= sig,
        e <= total,
    ensures
        (sig * pow2(e)) / pow2(total) as int == sig / pow2((total - e) as nat) as int,
        (sig * pow2(e)) % pow2(total) as int == (sig % pow2((total - e) as nat) as int) * pow2(e),
{
    let d = (total - e) as nat;
    lemma_pow2_adds(d, e);
    lemma_pow2_pos(d);
    lemma_pow2_pos(e);
    let (p, c) = (pow2(d) as int, pow2(e) as int);
    let (q, r) = (sig / p, sig % p);
    lemma_remainder_factor(sig, p, c);
    lemma_fundamental_div_mod(sig, p);
    lemma_mod_pos_bound(sig, p);
    assert(sig * c == q * (p * c) + r * c) by (nonlinear_arith)
        requires
            sig == p * q + r,
    ;
    assert(0 <= r * c < p * c) by (nonlinear_arith)
        requires
            0 <= r < p,
            c > 0,
    ;
    vstd::arithmetic::div_mod::lemma_fundamental_div_mod_converse(sig * c, p * c, q, r * c);
}

impl Float32 {
    /// Truncated toward zero and held in 0..=65535.
    pub fn to_u16(self) -> (n: u16)
        ensures
            n == self.spec_to_u16(),
    {
        let m = self.low_bits();
        if m > INFINITE || self.sign_bit() {
            return 0;
        }
        proof {
            lemma2_to64();
            lemma_pow2_pos(149);
        }
        if m == INFINITE {
            proof {
                lemma_pow2_adds(149, 105);
                lemma_pow2_strictly_increases(1, 105);
                let (p, q) = (pow2(105) as int, pow2(149) as int);
                assert(0x80_0000 * (q * p) == (0x80_0000 * p) * q) by (nonlinear_arith);
                vstd::arithmetic::div_mod::lemma_div_by_multiple(0x80_0000 * p, q);
            }
            return 0xffff;
        }
        let (sig, e) = parts(m);
        if e >= 149 {
            proof {
                let c = (e - 149) as nat;
                lemma_pow2_adds(149, c);
                lemma_pow2_pos(c);
                let (p, q) = (pow2(c) as int, pow2(149) as int);
                assert(sig * (q * p) == (sig * p) * q) by (nonlinear_arith);
                assert(sig * p >= 0x80_0000) by (nonlinear_arith)
                    requires
                        sig >= 0x80_0000,
                        p >= 1,
                ;
                vstd::arithmetic::div_mod::lemma_div_by_multiple(sig * p, q);
            }
            return 0xffff;
        }
        let d: i32 = 149 - e;
        proof {
            lemma_reduce(sig as int, e as nat, 149);
        }
        if d >= 24 {
            proof {
                if d > 24 {
                    lemma_pow2_strictly_increases(24, d as nat);
                }
                vstd::arithmetic::div_mod::lemma_basic_div(sig as int, pow2(d as nat) as int);
            }
            return 0;
        }
        proof {
            lemma_u64_shr_is_div(sig, d as u64);
        }
        let whole: u64 = sig >> (d as u64);
        if whole > 0xffff {
            0xffff
        } else {
            whole as u16
        }
    }

    /// The magnitude of the nearest multiple of `2^-32`, or `None` when it
    /// is `2^63` multiples or more, but for exactly `2^63`.
    fn fixed_magnitude(self) -> (r: Option<u64>)
        requires
            self.is_finite(),
        ensures
            r matches Some(n) ==> n == half_even(self.size(), pow2(117) as int) && n
                <= 0x8000_0000_0000_0000,
            r is None ==> half_even(self.size(), pow2(117) as int) > 0x8000_0000_0000_0000,
            half_even(self.size(), pow2(117) as int) >= 0,
    {
        let (sig, e) = parts(self.low_bits());
        proof {
            lemma2_to64();
            lemma_pow2_pos(117);
            lemma_pow2_adds(23, 40);
            lemma_pow2_adds(24, 40);
            lemma_pow2_adds(8, 32);
        }
        if e >= 117 {
            let s: i32 = e - 117;
            proof {
                lemma_pow2_adds(117, s as nat);
                lemma_pow2_pos(s as nat);
                let (p, q) = (pow2(s as nat) as int, pow2(117) as int);
                assert(sig * (q * p) == (sig * p) * q) by (nonlinear_arith);
                vstd::arithmetic::div_mod::lemma_div_by_multiple(sig * p, q);
                vstd::arithmetic::div_mod::lemma_mod_multiples_basic(sig * p, q);
                if s < 40 {
                    lemma_pow2_strictly_increases(s as nat, 40);
                } else if s > 40 {
                    lemma_pow2_strictly_increases(40, s as nat);
                    lemma_pow2_unfold(41);
                    if s > 41 {
                        lemma_pow2_strictly_increases(41, s as nat);
                    }
                    assert(sig * p >= 0x80_0000 * 0x200_0000_0000) by (nonlinear_arith)
                        requires
                            sig >= 0x80_0000,
                            p >= 0x200_0000_0000,
                    ;
                }
                if s <= 40 {
                    assert(0 <= sig * p < 0x100_0000 * 0x100_0000_0000) by (nonlinear_arith)
                        requires
                            0 <= sig < 0x100_0000,
                            0 < p <= 0x100_0000_0000,
                    ;
                    lemma_u64_shl_is_mul(sig, s as u64);
                }
            }
            if s > 40 {
                return None;
            }
            let n: u64 = sig << (s as u64);
            if n > 0x8000_0000_0000_0000 {
                None
            } else {
                Some(n)
            }
        } else {
            let d: i32 = 117 - e;
            let ghost p = pow2(d as nat) as int;
            let ghost c = pow2(e as nat) as int;
            proof {
                lemma_reduce(sig as int, e as nat, 117);
                lemma_pow2_adds(d as nat, e as nat);
                lemma_pow2_pos(d as nat);
                lemma_pow2_pos(e as nat);
                let r = sig as int % p;
                assert((2 * r) * c == 2 * (r * c)) by (nonlinear_arith);
                crate::rounding::lemma_cancel(2 * r, p, c);
                lemma_pow2_unfold(d as nat);
                lemma_fundamental_div_mod(sig as int, p);
                lemma_mod_pos_bound(sig as int, p);
            }
            if d >= 26 {
                proof {
                    lemma_pow2_strictly_increases(25, d as nat);
                    vstd::arithmetic::div_mod::lemma_small_mod(sig as nat, p as nat);
                    vstd::arithmetic::div_mod::lemma_basic_div(sig as int, p);
                }
                return Some(0);
            }
            proof {
                lemma_u64_shr_is_div(sig, d as u64);
                let quotient = sig as int / p;
                assert(p * quotient == quotient * p) by (nonlinear_arith);
                vstd::arithmetic::div_mod::lemma_div_nonincreasing(sig as int, p);
                lemma_pow2_strictly_increases((d - 1) as nat, 32);
            }
            let n: u64 = sig >> (d as u64);
            proof {
                lemma_u64_shl_is_mul(n, d as u64);
                lemma_u64_shl_is_mul(1, (d - 1) as u64);
            }
            let rest: u64 = sig - (n << (d as u64));
            let half: u64 = 1u64 << ((d - 1) as u64);
            if rest > half || (rest == half && n % 2 == 1) {
                Some(n + 1)
            } else {
                Some(n)
            }
        }
    }

    /// Whether the number can be written with 32 integer and 32 fraction
    /// bits.
    pub fn has_fixed(self) -> (b: bool)
        ensures
            b == self.fits_fixed(),
    {
        if self.low_bits() >= INFINITE {
            return false;
        }
        match self.fixed_magnitude() {
            Some(n) => self.sign_bit() || n < 0x8000_0000_0000_0000,
            None => false,
        }
    }

    /// The nearest multiple of `2^-32`, counted in such multiples.
    pub fn to_fixed(self) -> (bits: i64)
        requires
            self.fits_fixed(),
        ensures
            bits == self.spec_to_fixed(),
    {
        match self.fixed_magnitude() {
            Some(n) => if self.sign_bit() {
                if n == 0x8000_0000_0000_0000 {
                    i64::MIN
                } else {
                    -(n as i64)
                }
            } else {
                n as i64
            },
            None => 0,
        }
    }
}

/// The size of one.
pub(crate) proof fn lemma_one()
    ensures
        (Float32 { bits: ONE }).size() == pow2(149),
{
    lemma2_to64();
    lemma_pow2_adds(23, 126);
    assert(pow2(23) == 0x80_0000);
}

/// Multiplying by a number from minus one to one does not enlarge a number,
/// and the signs multiply.
pub proof fn law_fraction_does_not_enlarge(a: Float32, b: Float32)
    requires
        a.is_finite(),
        b.magnitude() <= ONE,
    ensures
        a.spec_times(b).is_negative() == (a.is_negative() != b.is_negative()),
        a.spec_times(b).magnitude() <= a.magnitude(),
{
    let den = pow2(149) as int;
    lemma_one();
    lemma_pow2_pos(149);
    crate::rounding::lemma_value_sign(a.magnitude());
    crate::rounding::lemma_value_sign(b.magnitude());
    if b.magnitude() < ONE {
        crate::rounding::lemma_value_increases(b.magnitude(), ONE as int);
    }
    let (sa, sb) = (a.size(), b.size());
    assert(0 <= sa * sb <= sa * den) by (nonlinear_arith)
        requires
            0 <= sa,
            0 <= sb <= den,
    ;
    crate::rounding::lemma_rounded_at_most(sa * sb, den, a.magnitude());
}

/// Multiplying by a number that is not negative keeps the order of two others.
pub proof fn law_multiplying_is_monotone(c: Float32, a: Float32, b: Float32)
    requires
        c.is_finite(),
        !c.is_negative(),
        !a.is_negative(),
        !b.is_negative(),
        a.magnitude() <= b.magnitude() < INFINITE,
    ensures
        !c.spec_times(a).is_negative(),
        !c.spec_times(b).is_negative(),
        c.spec_times(a).magnitude() <= c.spec_times(b).magnitude() <= INFINITE,
{
    lemma_pow2_pos(149);
    crate::rounding::lemma_value_sign(c.magnitude());
    crate::rounding::lemma_value_sign(a.magnitude());
    if a.magnitude() < b.magnitude() {
        crate::rounding::lemma_value_increases(a.magnitude(), b.magnitude());
    }
    let (sc, sa, sb) = (c.size(), a.size(), b.size());
    assert(0 <= sc * sa <= sc * sb) by (nonlinear_arith)
        requires
            0 <= sc,
            0 <= sa <= sb,
    ;
    crate::rounding::law_rounding_is_monotone(sc * sa, sc * sb, pow2(149) as int);
    crate::rounding::lemma_rounded_is_nearest(sc * sa, pow2(149) as int);
    crate::rounding::lemma_rounded_is_nearest(sc * sb, pow2(149) as int);
}

/// Of two numbers that are not negative, the smaller has the smaller whole
/// part.
pub proof fn law_whole_part_is_monotone(a: Float32, b: Float32)
    requires
        !a.is_negative(),
        !b.is_negative(),
        a.magnitude() <= b.magnitude() <= INFINITE,
    ensures
        a.spec_to_u16() <= b.spec_to_u16(),
{
    if a.magnitude() < b.magnitude() {
        crate::rounding::lemma_value_increases(a.magnitude(), b.magnitude());
    }
    lemma_pow2_pos(149);
    vstd::arithmetic::div_mod::lemma_div_is_ordered(a.size(), b.size(), pow2(149) as int);
}

/// Absolute value of an integer.
pub open spec fn magnitude_of(n: int) -> int {
    if n < 0 {
        -n
    } else {
        n
    }
}

/// A product is the number nearest to the exact product, and the signs
/// multiply.
pub proof fn law_product_is_nearest(a: Float32, b: Float32, r: Float32)
    requires
        a.is_finite(),
        b.is_finite(),
        call_ensures(Float32::times, (a, b), r),
    ensures
        r.is_negative() == (a.is_negative() != b.is_negative()),
        crate::rounding::is_nearest(r.magnitude(), a.size() * b.size(), pow2(149) as int),
{
    lemma_pow2_pos(149);
    crate::rounding::lemma_value_sign(a.magnitude());
    crate::rounding::lemma_value_sign(b.magnitude());
    let (p, q) = (a.size(), b.size());
    assert(p * q >= 0) by (nonlinear_arith)
        requires
            p >= 0,
            q >= 0,
    ;
    crate::rounding::lemma_rounded_is_nearest(p * q, pow2(149) as int);
}

/// A sum is the number nearest to the exact sum.
pub proof fn law_sum_is_nearest(a: Float32, b: Float32, r: Float32)
    requires
        a.is_finite(),
        b.is_finite(),
        call_ensures(Float32::plus, (a, b), r),
    ensures
        crate::rounding::is_nearest(r.magnitude(), magnitude_of(a.value() + b.value()), 1),
        a.value() + b.value() > 0 ==> !r.is_negative(),
        a.value() + b.value() < 0 ==> r.is_negative(),
{
    let sum = a.value() + b.value();
    crate::rounding::lemma_value_sign(0);
    crate::rounding::lemma_exact_is_nearest(0, 0, 1);
    crate::rounding::lemma_rounded_is_nearest(magnitude_of(sum), 1);
}

/// A difference is the number nearest to the exact difference.
pub proof fn law_difference_is_nearest(a: Float32, b: Float32, r: Float32)
    requires
        a.is_finite(),
        b.is_finite(),
        call_ensures(Float32::minus, (a, b), r),
    ensures
        crate::rounding::is_nearest(r.magnitude(), magnitude_of(a.value() - b.value()), 1),
        a.value() > b.value() ==> !r.is_negative(),
        a.value() < b.value() ==> r.is_negative(),
{
    let difference = a.value() - b.value();
    assert(b.spec_negated().value() == -b.value());
    crate::rounding::lemma_value_sign(0);
    crate::rounding::lemma_exact_is_nearest(0, 0, 1);
    crate::rounding::lemma_rounded_is_nearest(magnitude_of(difference), 1);
}

/// A quotient is the number nearest to the exact quotient, and the signs
/// multiply.
pub proof fn law_quotient_is_nearest(a: Float32, b: Float32, r: Float32)
    requires
        a.is_finite(),
        b.is_finite(),
        !b.is_zero(),
        call_ensures(Float32::divided_by, (a, b), r),
    ensures
        r.is_negative() == (a.is_negative() != b.is_negative()),
        crate::rounding::is_nearest(r.magnitude(), a.size() * pow2(149), b.size()),
{
    lemma_pow2_pos(149);
    crate::rounding::lemma_value_sign(a.magnitude());
    crate::rounding::lemma_value_sign(b.magnitude());
    let (p, q) = (a.size(), pow2(149) as int);
    assert(p * q >= 0) by (nonlinear_arith)
        requires
            p >= 0,
            q >= 0,
    ;
    crate::rounding::lemma_rounded_is_nearest(p * q, b.size());
}

/// A remainder is smaller than the divisor, differs from the dividend by a
/// multiple of it, and has the sign of the dividend.
pub proof fn law_remainder_is_what_is_left(a: Float32, b: Float32, r: Float32)
    requires
        a.is_finite(),
        b.is_finite(),
        !b.is_zero(),
        call_ensures(Float32::remainder, (a, b), r),
    ensures
        r.is_negative() == a.is_negative(),
        exists|left: int|
            0 <= left < b.size() && (a.size() - left) % b.size() == 0
                && #[trigger] crate::rounding::is_nearest(r.magnitude(), left, 1),
{
    crate::rounding::lemma_value_sign(a.magnitude());
    crate::rounding::lemma_value_sign(b.magnitude());
    let left = a.size() % b.size();
    lemma_fundamental_div_mod(a.size(), b.size());
    lemma_mod_pos_bound(a.size(), b.size());
    let q = a.size() / b.size();
    assert(a.size() - left == b.size() * q);
    assert((a.size() - left) % b.size() == 0) by {
        vstd::arithmetic::div_mod::lemma_mod_multiples_basic(q, b.size());
        assert(b.size() * q == q * b.size()) by (nonlinear_arith);
    }
    crate::rounding::lemma_rounded_is_nearest(left, 1);
    assert(crate::rounding::is_nearest(r.magnitude(), left, 1));
}

/// Arithmetic with something that is not a number gives no number.
pub proof fn law_nan_stays(a: Float32, b: Float32, r: Float32)
    requires
        a.is_nan() || b.is_nan(),
        call_ensures(Float32::times, (a, b), r) || call_ensures(Float32::plus, (a, b), r)
            || call_ensures(Float32::minus, (a, b), r) || call_ensures(
            Float32::divided_by,
            (a, b),
            r,
        ) || call_ensures(Float32::remainder, (a, b), r),
    ensures
        r.is_nan(),
{
}

/// Numbers are compared by value, and what is not a number compares with
/// nothing.
pub proof fn law_comparison_is_by_value(a: Float32, b: Float32, less: bool)
    requires
        call_ensures(Float32::less_than, (a, b), less),
    ensures
        less <==> !a.is_nan() && !b.is_nan() && a.value() < b.value(),
{
}

/// The opposite and the absolute value.
pub proof fn law_signs(a: Float32, opposite: Float32, absolute: Float32)
    requires
        call_ensures(Float32::negated, (a,), opposite),
        call_ensures(Float32::absolute, (a,), absolute),
    ensures
        opposite.value() == -a.value(),
        opposite.magnitude() == a.magnitude(),
        opposite.is_negative() != a.is_negative(),
        absolute.magnitude() == a.magnitude(),
        !absolute.is_negative(),
{
}

/// A clamped number is in the range, and is the number itself where that is in
/// the range already, and else the end that is nearer.
pub proof fn law_clamped_number_is_in_range(
    x: Float32,
    low: Float32,
    high: Float32,
    r: Float32,
)
    requires
        !x.is_nan(),
        !low.is_nan(),
        !high.is_nan(),
        low.value() <= high.value(),
        call_ensures(Float32::clamp, (x, low, high), r),
    ensures
        low.value() <= r.value() <= high.value(),
        low.value() <= x.value() <= high.value() ==> r == x,
        x.value() < low.value() ==> r == low,
        x.value() > high.value() ==> r == high,
{
}

/// The smaller and the larger of two; a number is preferred to none.
pub proof fn law_smaller_and_larger(a: Float32, b: Float32, smaller: Float32, larger: Float32)
    requires
        call_ensures(Float32::minimum, (a, b), smaller),
        call_ensures(Float32::maximum, (a, b), larger),
    ensures
        smaller == a || smaller == b,
        larger == a || larger == b,
        !a.is_nan() && !b.is_nan() ==> smaller.value() <= a.value() && smaller.value()
            <= b.value() && larger.value() >= a.value() && larger.value() >= b.value(),
        a.is_nan() ==> smaller == b && larger == b,
        b.is_nan() && !a.is_nan() ==> smaller == a && larger == a,
{
}

/// The whole part of a number is not above it, and one more is above it.
pub proof fn law_whole_part(x: Float32, n: u16)
    requires
        !x.is_nan(),
        call_ensures(Float32::to_u16, (x,), n),
    ensures
        x.is_negative() ==> n == 0,
        !x.is_negative() && x.size() < 0x1_0000 * pow2(149) ==> n * pow2(149) <= x.size() < (n + 1)
            * pow2(149),
        !x.is_negative() && x.size() >= 0x1_0000 * pow2(149) ==> n == 0xffff,
{
    let p = pow2(149) as int;
    lemma_pow2_pos(149);
    crate::rounding::lemma_value_sign(x.magnitude());
    let w = x.size() / p;
    lemma_fundamental_div_mod(x.size(), p);
    lemma_mod_pos_bound(x.size(), p);
    assert(p * w == w * p) by (nonlinear_arith);
    assert((w + 1) * p == w * p + p) by (nonlinear_arith);
    vstd::arithmetic::div_mod::lemma_div_pos_is_pos(x.size(), p);
    if x.size() < 0x1_0000 * p {
        if w >= 0x1_0000 {
            lemma_mul_inequality(0x1_0000, w, p);
        }
    } else {
        if w < 0x1_0000 {
            lemma_mul_inequality(w + 1, 0x1_0000, p);
        }
    }
}

/// Integers and fixed-point numbers become the number nearest to them.
pub proof fn law_conversions_are_nearest(
    n: u64,
    of_n: Float32,
    i: i64,
    of_i: Float32,
    of_bits: Float32,
)
    requires
        call_ensures(Float32::from_u64, (n,), of_n),
        call_ensures(Float32::from_i64, (i,), of_i),
        call_ensures(Float32::from_fixed, (i,), of_bits),
    ensures
        !of_n.is_negative(),
        crate::rounding::is_nearest(of_n.magnitude(), n * pow2(149), 1),
        of_i.is_negative() == (i < 0),
        crate::rounding::is_nearest(of_i.magnitude(), magnitude_of(i as int) * pow2(149), 1),
        of_bits.is_negative() == (i < 0),
        crate::rounding::is_nearest(of_bits.magnitude(), magnitude_of(i as int) * pow2(117), 1),
{
    let (p, q) = (pow2(149) as int, pow2(117) as int);
    lemma_pow2_pos(149);
    lemma_pow2_pos(117);
    let a = magnitude_of(i as int);
    lemma_mul_inequality(0, n as int, p);
    lemma_mul_inequality(0, a, p);
    lemma_mul_inequality(0, a, q);
    crate::rounding::lemma_rounded_is_nearest(n * p, 1);
    crate::rounding::lemma_rounded_is_nearest(a * p, 1);
    crate::rounding::lemma_rounded_is_nearest(a * q, 1);
}

/// A number can be written in fixed point exactly when it is at least `-2^31`
/// and below `2^31`, and what is written is off by at most half a unit.
pub proof fn law_fixed_point_is_nearest(x: Float32, fits: bool, bits: i64)
    requires
        call_ensures(Float32::has_fixed, (x,), fits),
        fits ==> call_ensures(Float32::to_fixed, (x,), bits),
    ensures
        fits <==> in_angle_range(x),
        fits ==> is_nearest_fixed(x, bits as int),
{
    lemma_fits_fixed(x);
    if fits {
        lemma_fixed_is_nearest(x);
    }
}

/// Size of an integer of up to 24 bits, which is a number exactly.
pub(crate) proof fn lemma_short_integer(n: u64)
    requires
        n < 0x100_0000,
    ensures
        Float32::spec_from_u64(n).size() == n * pow2(149),
        Float32::spec_from_u64(n).is_finite(),
        !Float32::spec_from_u64(n).is_negative(),
        Float32::spec_from_u64(n).is_zero() <==> n == 0,
{
    let m = crate::rounding::lemma_short_integer_is_exact(n as int, 149);
    crate::rounding::lemma_exact_is_nearest(m, n * pow2(149), 1);
    crate::rounding::lemma_value_sign(m);
    lemma_pow2_pos(149);
    let p = pow2(149) as int;
    assert(n * p == 0 <==> n == 0) by (nonlinear_arith)
        requires
            p > 0,
    ;
}

/// The number is at least `-2^31` and below `2^31`.
pub open spec fn in_angle_range(x: Float32) -> bool {
    x.is_finite() && -pow2(180) <= x.value() < pow2(180)
}

/// `bits` units of `2^-32` are within half a unit of the number; of two equally
/// near counts it is the even one.
pub open spec fn is_nearest_fixed(x: Float32, bits: int) -> bool {
    let off = 2 * (bits * pow2(117) - x.value());
    &&& -pow2(117) <= off <= pow2(117)
    &&& off == pow2(117) || off == -pow2(117) ==> bits % 2 == 0
}

/// The numbers that can be written in fixed point.
pub(crate) proof fn lemma_fits_fixed(x: Float32)
    ensures
        x.fits_fixed() <==> in_angle_range(x),
{
    let (c, n, m) = (pow2(117) as int, x.size(), x.magnitude());
    lemma_pow2_pos(117);
    lemma2_to64();
    vstd::arithmetic::power2::lemma2_to64_rest();
    lemma_pow2_adds(63, 117);
    lemma_pow2_adds(23, 157);
    lemma_pow2_adds(39, 117);
    let top: int = 0x4f00_0000;
    assert(crate::rounding::magnitude_value(top) == pow2(180));
    crate::rounding::lemma_successor(top - 1);
    crate::rounding::lemma_value_sign(m);
    lemma_fundamental_div_mod(n, c);
    lemma_mod_pos_bound(n, c);
    let a = n / c;
    assert(c * a == a * c) by (nonlinear_arith);
    if m < top {
        if m < top - 1 {
            crate::rounding::lemma_value_increases(m, top - 1);
        }
        assert(a < 0x7fff_ffff_ffff_ffff) by (nonlinear_arith)
            requires
                a * c <= 0x7fff_ff80_0000_0000 * c,
                c > 0,
        ;
        assert(a >= 0) by (nonlinear_arith)
            requires
                a * c > -c,
                c > 0,
        ;
    } else if m == top {
        assert(a == 0x8000_0000_0000_0000 && n % c == 0) by {
            vstd::arithmetic::div_mod::lemma_fundamental_div_mod_converse(
                n,
                c,
                0x8000_0000_0000_0000,
                0,
            );
        }
    } else if m < INFINITE {
        crate::rounding::lemma_successor(top);
        if m > top + 1 {
            crate::rounding::lemma_value_increases(top + 1, m);
        }
        lemma_pow2_adds(40, 117);
        assert(a > 0x8000_0000_0000_0000) by (nonlinear_arith)
            requires
                a * c > 0x8000_0000_0000_0000 * c,
                c > 0,
        ;
    }
}

/// A number in fixed point is off by at most half a unit.
pub(crate) proof fn lemma_fixed_is_nearest(x: Float32)
    requires
        x.fits_fixed(),
    ensures
        is_nearest_fixed(x, x.spec_to_fixed()),
{
    let (n, c) = (x.size(), pow2(117) as int);
    lemma_pow2_pos(117);
    crate::rounding::lemma_value_sign(x.magnitude());
    lemma_fundamental_div_mod(n, c);
    lemma_mod_pos_bound(n, c);
    let a = n / c;
    assert(c * a == a * c) by (nonlinear_arith);
    assert((a + 1) * c == a * c + c) by (nonlinear_arith);
    let h = half_even(n, c);
    assert((-h) * c == -(h * c)) by (nonlinear_arith);
}

/// Arithmetic with the infinities, and division by zero.
pub proof fn law_infinities(
    a: Float32,
    b: Float32,
    product: Float32,
    sum: Float32,
    quotient: Float32,
    left: Float32,
)
    requires
        !a.is_nan(),
        !b.is_nan(),
        call_ensures(Float32::times, (a, b), product),
        call_ensures(Float32::plus, (a, b), sum),
        call_ensures(Float32::divided_by, (a, b), quotient),
        call_ensures(Float32::remainder, (a, b), left),
    ensures
        a.is_infinite() && !b.is_zero() || b.is_infinite() && !a.is_zero() ==> product.is_infinite()
            && product.is_negative() == (a.is_negative() != b.is_negative()),
        a.is_infinite() && b.is_zero() || b.is_infinite() && a.is_zero() ==> product.is_nan(),
        a.is_infinite() && b.is_finite() ==> sum == a && quotient.is_infinite()
            && quotient.is_negative() == (a.is_negative() != b.is_negative()),
        a.is_finite() && b.is_infinite() ==> sum == b && quotient.is_zero() && left == a,
        a.is_infinite() && b.is_infinite() ==> quotient.is_nan() && (if a.is_negative()
            == b.is_negative() {
            sum == a
        } else {
            sum.is_nan()
        }),
        a.is_infinite() || b.is_zero() ==> left.is_nan(),
        a.is_finite() && !a.is_zero() && b.is_zero() ==> quotient.is_infinite(),
        a.is_zero() && b.is_zero() ==> quotient.is_nan(),
{
}

} // verus!
