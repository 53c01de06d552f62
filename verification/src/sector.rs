//! The six commutation sectors of the motor, and the shaft angle in sectors.
use vstd::prelude::*;

use crate::float32::Float32;

verus! {

/// Single-precision 2 pi.
pub const TWO_PI: u32 = 0x40c9_0fdb;

/// One sixth of an electrical turn. The numbers grow counter-clockwise.
#[derive(Clone, Copy, Debug, PartialEq, Eq, Structural)]
pub enum Sector {
    S0,
    S1,
    S2,
    S3,
    S4,
    S5,
}

impl Sector {
    /// Position of the sector in the turn.
    pub open spec fn index(self) -> int {
        match self {
            Sector::S0 => 0,
            Sector::S1 => 1,
            Sector::S2 => 2,
            Sector::S3 => 3,
            Sector::S4 => 4,
            Sector::S5 => 5,
        }
    }

    /// What the three Hall sensors read in the sector.
    pub open spec fn hall(self) -> (bool, bool, bool) {
        match self {
            Sector::S0 => (true, true, false),
            Sector::S1 => (true, false, false),
            Sector::S2 => (true, false, true),
            Sector::S3 => (false, false, true),
            Sector::S4 => (false, true, true),
            Sector::S5 => (false, true, false),
        }
    }

    /// The sector in which the Hall sensors give these readings. Three equal
    /// readings occur in no sector.
    pub fn from_hall(a: bool, b: bool, c: bool) -> (r: Result<Self, &'static str>)
        ensures
            r is Err <==> a == b && b == c,
            r matches Ok(sector) ==> sector.hall() == (a, b, c),
            r matches Err(message) ==> message@
                == "Hall sensor readings are inconsistent. Make sure hall sensor is powered and connected."@,
    {
        match (a, b, c) {
            (true, true, false) => Ok(Sector::S0),
            (true, false, false) => Ok(Sector::S1),
            (true, false, true) => Ok(Sector::S2),
            (false, false, true) => Ok(Sector::S3),
            (false, true, true) => Ok(Sector::S4),
            (false, true, false) => Ok(Sector::S5),
            (_, _, _) => Err(
                "Hall sensor readings are inconsistent. Make sure hall sensor is powered and connected.",
            ),
        }
    }

    pub fn get_number(&self) -> (n: u8)
        ensures
            n == self.index(),
    {
        match self {
            Sector::S0 => 0,
            Sector::S1 => 1,
            Sector::S2 => 2,
            Sector::S3 => 3,
            Sector::S4 => 4,
            Sector::S5 => 5,
        }
    }
}

/// A shaft angle that counts sectors, over any number of turns.
#[derive(Clone, Copy, Debug, PartialEq, Eq, Structural)]
pub struct SectorAngle(pub i64);

impl Default for SectorAngle {
    fn default() -> (r: Self)
        ensures
            r.0 == 0,
    {
        SectorAngle(0)
    }
}

/// The step that takes sector number `from` to its neighbour or itself.
pub open spec fn sector_step(from: int, to: int) -> Option<int> {
    if (to - from) % 6 == 0 {
        Some(0)
    } else if (to - from) % 6 == 1 {
        Some(1)
    } else if (to - from) % 6 == 5 {
        Some(-1)
    } else {
        None
    }
}

impl SectorAngle {
    pub fn rotate_by(self, angle: i64) -> (r: SectorAngle)
        requires
            i64::MIN <= self.0 + angle <= i64::MAX,
        ensures
            r.0 == self.0 + angle,
    {
        SectorAngle(self.0 + angle)
    }

    pub fn to_sector(self) -> (s: Sector)
        ensures
            s.index() == self.0 as int % 6,
    {
        match self.0.checked_rem_euclid(6) {
            Some(0) => Sector::S0,
            Some(1) => Sector::S1,
            Some(2) => Sector::S2,
            Some(3) => Sector::S3,
            Some(4) => Sector::S4,
            Some(5) => Sector::S5,
            _ => Sector::S0,
        }
    }

    /// The angle in radians of the last whole turn at or below this one.
    pub fn angle_rel_to_zero(self) -> (r: Float32)
        ensures
            r == (Float32 { bits: TWO_PI }).spec_times(
                Float32::spec_from_i64((self.0 as int / 6) as i64),
            ),
    {
        match self.0.checked_div_euclid(6) {
            Some(turns) => (Float32 { bits: TWO_PI }).times(Float32::from_i64(turns)),
            None => Float32 { bits: 0 },
        }
    }

    /// Follows the shaft into `new_sector`, which must be the current sector
    /// or one next to it.
    pub fn update_angle(self, new_sector: Sector) -> (r: Result<SectorAngle, &'static str>)
        requires
            sector_step(self.0 as int, new_sector.index()) matches Some(step) ==> i64::MIN
                <= self.0 + step <= i64::MAX,
        ensures
            r is Ok <==> sector_step(self.0 as int, new_sector.index()) is Some,
            r matches Ok(angle) ==> angle.0 == self.0 + sector_step(
                self.0 as int,
                new_sector.index(),
            )->0,
            r matches Err(message) ==> message@ == "Failed to track hall sensor commutation"@,
    {
        let old_sector = self.to_sector();
        match (old_sector, new_sector) {
            // no rotation
            (Sector::S0, Sector::S0) => Ok(self),
            (Sector::S1, Sector::S1) => Ok(self),
            (Sector::S2, Sector::S2) => Ok(self),
            (Sector::S3, Sector::S3) => Ok(self),
            (Sector::S4, Sector::S4) => Ok(self),
            (Sector::S5, Sector::S5) => Ok(self),
            // counter-clockwise rotations
            (Sector::S0, Sector::S1) => Ok(self.rotate_by(1)),
            (Sector::S1, Sector::S2) => Ok(self.rotate_by(1)),
            (Sector::S2, Sector::S3) => Ok(self.rotate_by(1)),
            (Sector::S3, Sector::S4) => Ok(self.rotate_by(1)),
            (Sector::S4, Sector::S5) => Ok(self.rotate_by(1)),
            (Sector::S5, Sector::S0) => Ok(self.rotate_by(1)),
            // clockwise rotations
            (Sector::S0, Sector::S5) => Ok(self.rotate_by(-1)),
            (Sector::S1, Sector::S0) => Ok(self.rotate_by(-1)),
            (Sector::S2, Sector::S1) => Ok(self.rotate_by(-1)),
            (Sector::S3, Sector::S2) => Ok(self.rotate_by(-1)),
            (Sector::S4, Sector::S3) => Ok(self.rotate_by(-1)),
            (Sector::S5, Sector::S4) => Ok(self.rotate_by(-1)),
            // error
            (_, _) => Err("Failed to track hall sensor commutation"),
        }
    }
}

/// An angle that followed the shaft into a sector lies in that sector.
pub proof fn law_update_lands_in_sector(angle: int, new_sector: Sector)
    ensures
        sector_step(angle, new_sector.index()) matches Some(step) ==> (angle + step) % 6
            == new_sector.index(),
{
}

/// A step into a neighbouring sector and back leaves the angle as it was.
pub proof fn law_update_is_reversible(angle: int, new_sector: Sector)
    ensures
        sector_step(angle, new_sector.index()) matches Some(step) ==> sector_step(
            angle + step,
            angle % 6,
        ) == Some(-step),
{
}

/// Different sectors give different Hall readings.
pub proof fn law_hall_readings_tell_sectors_apart(a: Sector, b: Sector)
    ensures
        a.hall() == b.hall() ==> a == b,
{
}

/// Each sensor reads high over half a turn: the first one in the sectors 0 to
/// 2, the second one in 4 to 0 and the third one in 2 to 4.
pub proof fn law_sensors_are_high_over_half_a_turn(
    a: bool,
    b: bool,
    c: bool,
    r: Result<Sector, &'static str>,
    n: u8,
)
    requires
        call_ensures(Sector::from_hall, (a, b, c), r),
        r matches Ok(sector) ==> call_ensures(Sector::get_number, (&sector,), n),
    ensures
        r is Err <==> a == b && b == c,
        r is Ok ==> n < 6,
        r is Ok ==> (a <==> n < 3),
        r is Ok ==> (b <==> (n + 2) % 6 < 3),
        r is Ok ==> (c <==> 2 <= n <= 4),
{
}

/// The number of the sector of an angle is what is left of the angle after
/// whole turns of six sectors.
pub proof fn law_sector_number_is_the_rest_of_the_turn(angle: SectorAngle, s: Sector, n: u8)
    requires
        call_ensures(SectorAngle::to_sector, (angle,), s),
        call_ensures(Sector::get_number, (&s,), n),
    ensures
        n < 6,
        (angle.0 - n) % 6 == 0,
{
}

/// An update goes to the one angle of the new sector that is at most a step
/// away, and fails when there is none.
pub proof fn law_update_goes_to_the_nearest_angle(
    angle: SectorAngle,
    new_sector: Sector,
    n: u8,
    r: Result<SectorAngle, &'static str>,
)
    requires
        -0x8000_0000_0000_0000 < angle.0 < 0x7fff_ffff_ffff_ffff,
        call_ensures(Sector::get_number, (&new_sector,), n),
        call_ensures(SectorAngle::update_angle, (angle, new_sector), r),
    ensures
        r matches Ok(next) ==> -1 <= next.0 - angle.0 <= 1 && (next.0 - n) % 6 == 0,
        r is Err ==> forall|step: int|
            -1 <= step <= 1 ==> #[trigger] ((angle.0 + step - n) % 6) != 0,
{
}

/// The angle relative to zero is the whole turns at or below the angle, times
/// two pi, to the nearest number.
pub proof fn law_angle_counts_whole_turns(angle: SectorAngle, turns: int, r: Float32)
    requires
        6 * turns <= angle.0 < 6 * (turns + 1),
        -0x100_0000 < turns < 0x100_0000,
        call_ensures(SectorAngle::angle_rel_to_zero, (angle,), r),
    ensures
        r.is_negative() == (turns < 0),
        crate::rounding::is_nearest(
            r.magnitude(),
            (Float32 { bits: 0x40c9_0fdb }).size() * crate::float32::magnitude_of(turns),
            1,
        ),
{
    let n = crate::float32::magnitude_of(turns);
    let p = vstd::arithmetic::power2::pow2(149) as int;
    vstd::arithmetic::power2::lemma_pow2_pos(149);
    assert(angle.0 as int / 6 == turns);
    crate::float32::lemma_short_integer(n as u64);
    let t = Float32::spec_from_i64(turns as i64);
    let m = crate::rounding::rounded(n * p, 1);
    assert(m == Float32::spec_from_u64(n as u64).magnitude()) by {
        assert(n * p >= 0) by (nonlinear_arith)
            requires
                n >= 0,
                p > 0,
        ;
        crate::rounding::lemma_rounded_is_nearest(n * p, 1);
    }
    assert(t.size() == n * p && t.is_negative() == (turns < 0) && t.is_finite());
    let s = (Float32 { bits: 0x40c9_0fdb }).size();
    crate::rounding::lemma_value_sign(0x40c9_0fdb);
    assert(s * (n * p) == (s * n) * p && s * (n * p) >= 0) by (nonlinear_arith)
        requires
            s >= 0,
            n >= 0,
            p > 0,
    ;
    crate::rounding::lemma_rounded_is_nearest(s * (n * p), p);
    crate::rounding::lemma_nearest_scales(r.magnitude(), s * n, 1, p);
}

} // verus!
