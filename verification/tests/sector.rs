use servo_reg::sector::{Sector, SectorAngle};

const SECTORS: [Sector; 6] =
    [Sector::S0, Sector::S1, Sector::S2, Sector::S3, Sector::S4, Sector::S5];

#[test]
fn hall_readings_give_sectors() {
    assert_eq!(Sector::from_hall(true, true, false), Ok(Sector::S0));
    assert_eq!(Sector::from_hall(true, false, false), Ok(Sector::S1));
    assert_eq!(Sector::from_hall(true, false, true), Ok(Sector::S2));
    assert_eq!(Sector::from_hall(false, false, true), Ok(Sector::S3));
    assert_eq!(Sector::from_hall(false, true, true), Ok(Sector::S4));
    assert_eq!(Sector::from_hall(false, true, false), Ok(Sector::S5));
    for v in [true, false] {
        assert_eq!(
            Sector::from_hall(v, v, v),
            Err("Hall sensor readings are inconsistent. Make sure hall sensor is powered and connected.")
        );
    }
}

#[test]
fn sectors_are_numbered() {
    for (i, s) in SECTORS.iter().enumerate() {
        assert_eq!(s.get_number() as usize, i);
    }
}

#[test]
fn angle_relative_to_zero_counts_turns() {
    let pi = core::f32::consts::PI;
    let cases: [(i64, f32); 13] = [
        (0, 0.0),
        (1, 0.0),
        (2, 0.0),
        (5, 0.0),
        (6, 2.0 * pi),
        (7, 2.0 * pi),
        (11, 2.0 * pi),
        (12, 4.0 * pi),
        (-1, -2.0 * pi),
        (-2, -2.0 * pi),
        (-5, -2.0 * pi),
        (-6, -2.0 * pi),
        (-7, -4.0 * pi),
    ];
    for (n, expected) in cases {
        assert_eq!(f32::from_bits(SectorAngle(n).angle_rel_to_zero().bits), expected);
    }
}

#[test]
fn angle_is_in_its_sector() {
    assert_eq!(SectorAngle(0).to_sector(), Sector::S0);
    assert_eq!(SectorAngle(7).to_sector(), Sector::S1);
    assert_eq!(SectorAngle(-1).to_sector(), Sector::S5);
    assert_eq!(SectorAngle(i64::MIN).to_sector(), SECTORS[i64::MIN.rem_euclid(6) as usize]);
    assert_eq!(SectorAngle::default(), SectorAngle(0));
    assert_eq!(SectorAngle(4).rotate_by(-9), SectorAngle(-5));
}

#[test]
fn updates_step_to_neighbours() {
    for n in -13i64..13 {
        for s in SECTORS {
            let d = (s.get_number() as i64 - n).rem_euclid(6);
            let expected = match d {
                0 => Ok(SectorAngle(n)),
                1 => Ok(SectorAngle(n + 1)),
                5 => Ok(SectorAngle(n - 1)),
                _ => Err("Failed to track hall sensor commutation"),
            };
            assert_eq!(SectorAngle(n).update_angle(s), expected);
        }
    }
}

#[test]
fn an_update_can_be_undone() {
    let a = SectorAngle(41);
    let b = a.update_angle(Sector::S0).unwrap();
    assert_eq!(b, SectorAngle(42));
    assert_eq!(b.to_sector(), Sector::S0);
    assert_eq!(b.update_angle(a.to_sector()), Ok(a));
}
