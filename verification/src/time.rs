//! Durations and instants, in ticks of a 1 MHz clock.
use vstd::prelude::*;

verus! {

/// Ticks of the clock in a second.
pub const TICK_HZ: u64 = 1_000_000;

/// A span of time.
#[derive(Clone, Copy, Debug, PartialEq, Eq, Structural)]
pub struct Duration {
    pub ticks: u64,
}

/// A point in time, counted from the start of the clock.
#[derive(Clone, Copy, Debug, PartialEq, Eq, Structural)]
pub struct Instant {
    pub ticks: u64,
}

/// Ticks between two beats at `hz`, to the nearest tick but at least one.
pub open spec fn period_ticks(hz: u64) -> int {
    if hz >= TICK_HZ {
        1
    } else {
        (TICK_HZ + hz / 2) / (hz as int)
    }
}

/// `embassy_time::Duration::from_hz` at the 1 MHz tick rate: the ticks of one
/// period, rounded to the nearest, and one tick for any faster rate. A rate
/// of zero, for which it divides by zero, is left out.
#[verifier::external_body]
fn embassy_from_hz(hz: u64) -> (ticks: u64)
    requires
        hz > 0,
    ensures
        ticks == period_ticks(hz),
{
    embassy_time::Duration::from_hz(hz).as_ticks()
}

/// `embassy_time::Duration::from_millis` at the 1 MHz tick rate: a thousand
/// ticks for each millisecond. What does not fit is left out.
#[verifier::external_body]
fn embassy_from_millis(millis: u64) -> (ticks: u64)
    requires
        millis * 1000 < u64::MAX,
    ensures
        ticks == millis * 1000,
{
    embassy_time::Duration::from_millis(millis).as_ticks()
}

/// `embassy_time::Duration::from_secs` at the 1 MHz tick rate: a million ticks
/// for each second. What does not fit is left out.
#[verifier::external_body]
fn embassy_from_secs(secs: u64) -> (ticks: u64)
    requires
        secs * TICK_HZ <= u64::MAX,
    ensures
        ticks == secs * TICK_HZ,
{
    embassy_time::Duration::from_secs(secs).as_ticks()
}

/// `embassy_time::Duration::checked_mul`: the product, or `None` when it does
/// not fit.
#[verifier::external_body]
fn embassy_checked_mul(ticks: u64, n: u32) -> (r: Option<u64>)
    ensures
        r == (if ticks * n <= u64::MAX {
            Some((ticks * n) as u64)
        } else {
            None
        }),
{
    embassy_time::Duration::from_ticks(ticks).checked_mul(n).map(|d| d.as_ticks())
}

/// `embassy_time::Duration::as_micros` at the 1 MHz tick rate, where a tick is
/// a microsecond.
#[verifier::external_body]
fn embassy_as_micros(ticks: u64) -> (micros: u64)
    ensures
        micros == ticks,
{
    embassy_time::Duration::from_ticks(ticks).as_micros()
}

/// `-` of `embassy_time::Duration`. It panics where the second operand is
/// larger; that is left out.
#[verifier::external_body]
fn embassy_duration_difference(a: u64, b: u64) -> (ticks: u64)
    requires
        b <= a,
    ensures
        ticks == a - b,
{
    (embassy_time::Duration::from_ticks(a) - embassy_time::Duration::from_ticks(b)).as_ticks()
}

/// `+` of an `embassy_time::Instant` and a `Duration`. It panics where the sum
/// does not fit; that is left out.
#[verifier::external_body]
fn embassy_instant_sum(instant: u64, duration: u64) -> (ticks: u64)
    requires
        instant + duration <= u64::MAX,
    ensures
        ticks == instant + duration,
{
    (embassy_time::Instant::from_ticks(instant) + embassy_time::Duration::from_ticks(duration))
        .as_ticks()
}

/// `-` of two `embassy_time::Instant`s. It panics where the second is later;
/// that is left out.
#[verifier::external_body]
fn embassy_instant_difference(later: u64, earlier: u64) -> (ticks: u64)
    requires
        earlier <= later,
    ensures
        ticks == later - earlier,
{
    (embassy_time::Instant::from_ticks(later) - embassy_time::Instant::from_ticks(earlier))
        .as_ticks()
}

impl Duration {
    /// One period at `hz`.
    pub fn from_hz(hz: u64) -> (d: Duration)
        requires
            hz > 0,
        ensures
            d.ticks == period_ticks(hz),
    {
        Duration { ticks: embassy_from_hz(hz) }
    }

    pub fn from_millis(millis: u64) -> (d: Duration)
        requires
            millis * 1000 < u64::MAX,
        ensures
            d.ticks == millis * 1000,
    {
        Duration { ticks: embassy_from_millis(millis) }
    }

    pub fn from_secs(secs: u64) -> (d: Duration)
        requires
            secs * TICK_HZ <= u64::MAX,
        ensures
            d.ticks == secs * TICK_HZ,
    {
        Duration { ticks: embassy_from_secs(secs) }
    }

    /// `n` times the duration, if it fits.
    pub fn checked_mul(self, n: u32) -> (r: Option<Duration>)
        ensures
            r == (if self.ticks * n <= u64::MAX {
                Some(Duration { ticks: (self.ticks * n) as u64 })
            } else {
                None
            }),
    {
        match embassy_checked_mul(self.ticks, n) {
            Some(ticks) => Some(Duration { ticks }),
            None => None,
        }
    }

    pub fn as_micros(self) -> (micros: u64)
        ensures
            micros == self.ticks,
    {
        embassy_as_micros(self.ticks)
    }

    /// `self - other`.
    pub fn minus(self, other: Duration) -> (d: Duration)
        requires
            other.ticks <= self.ticks,
        ensures
            d.ticks == self.ticks - other.ticks,
    {
        Duration { ticks: embassy_duration_difference(self.ticks, other.ticks) }
    }
}

impl Instant {
    /// `self + duration`.
    pub fn plus(self, duration: Duration) -> (i: Instant)
        requires
            self.ticks + duration.ticks <= u64::MAX,
        ensures
            i.ticks == self.ticks + duration.ticks,
    {
        Instant { ticks: embassy_instant_sum(self.ticks, duration.ticks) }
    }

    /// Time from `earlier` to `self`.
    pub fn since(self, earlier: Instant) -> (d: Duration)
        requires
            earlier.ticks <= self.ticks,
        ensures
            d.ticks == self.ticks - earlier.ticks,
    {
        Duration { ticks: embassy_instant_difference(self.ticks, earlier.ticks) }
    }
}

/// A period is the whole number of ticks nearest to a second divided by the
/// rate.
pub proof fn law_period_is_nearest(hz: u64, d: Duration)
    requires
        0 < hz <= 1_000_000,
        call_ensures(Duration::from_hz, (hz,), d),
    ensures
        -(hz as int) <= 2 * (d.ticks * hz - 1_000_000) <= hz,
{
    let n = 1_000_000 + hz / 2;
    vstd::arithmetic::div_mod::lemma_fundamental_div_mod(n, hz as int);
    vstd::arithmetic::div_mod::lemma_mod_pos_bound(n, hz as int);
    let q = n / (hz as int);
    assert((hz as int) * q == q * (hz as int)) by (nonlinear_arith);
    if hz == 1_000_000 {
        assert(1 * (hz as int) == hz) by (nonlinear_arith);
    }
}

} // verus!
