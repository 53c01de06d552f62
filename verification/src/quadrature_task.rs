//! The task that samples the Hall sensors: its deadlines, and what it does
//! with commands and failures.
use vstd::prelude::*;

use crate::angle::Angle;
use crate::anim::Color;
use crate::constants::alarm_anim;
use crate::motor_quadrature::{HallAngleTracker, QuadratureCommand, QuadratureError};
use crate::rgb_led::Command;
use crate::time::{Duration, Instant};

verus! {

/// Samples taken in a second.
pub const QUADRATURE_LOOP_HZ: u64 = 3000;

/// Shortest time, in seconds, between two warnings about late samples.
pub const LATE_WARNING_SECS: u64 = 1;

/// The value that the low 32 bits of `n` have as a signed number.
pub open spec fn low_signed(n: int) -> int {
    let low = n % 0x1_0000_0000;
    if low < 0x8000_0000 {
        low
    } else {
        low - 0x1_0000_0000
    }
}

fn truncated(n: u64) -> (r: i32)
    ensures
        r == low_signed(n as int),
{
    let low: u64 = n % 0x1_0000_0000;
    if low < 0x8000_0000 {
        low as i32
    } else {
        (low as i64 - 0x1_0000_0000) as i32
    }
}

/// Microseconds left before the deadline, as a 32-bit number; negative when
/// the work finished at or after it.
pub open spec fn spec_spare_time(finish: Instant, deadline: Instant) -> int {
    if finish.ticks < deadline.ticks {
        low_signed(deadline.ticks - finish.ticks)
    } else {
        -low_signed(finish.ticks - deadline.ticks)
    }
}

/// Microseconds left before the deadline.
pub fn spare_time(finish: Instant, deadline: Instant) -> (r: i32)
    requires
        spec_spare_time(finish, deadline) <= i32::MAX,
    ensures
        r == spec_spare_time(finish, deadline),
{
    if finish.ticks < deadline.ticks {
        truncated(deadline.since(finish).as_micros())
    } else {
        -truncated(finish.since(deadline).as_micros())
    }
}

/// What is known of the timing of one sample.
#[derive(Clone, Copy, Debug, PartialEq, Eq, Structural)]
pub enum Lateness {
    /// The sample was on time, or late with a recent warning standing.
    Quiet,
    /// The sample was late and a warning with the spare time is due.
    Late(i32),
    /// The deadline is too far away to be computed.
    Unknown,
}

/// Timing of one run of the sampling loop.
pub struct QuadratureLoop {
    rate: Duration,
    loop_init_time: Instant,
    iter_idx: u32,
    late_timestamp: Option<Instant>,
}

impl QuadratureLoop {
    /// Time between samples.
    pub closed spec fn period(self) -> Duration {
        self.rate
    }

    /// When the loop started.
    pub closed spec fn start(self) -> Instant {
        self.loop_init_time
    }

    /// Samples finished so far.
    pub closed spec fn samples(self) -> int {
        self.iter_idx as int
    }

    /// When the last warning was given, as long as it stands.
    pub closed spec fn warned(self) -> Option<Instant> {
        self.late_timestamp
    }

    /// Time from the start to the deadline of the sample in progress.
    pub open spec fn until_deadline(self) -> int {
        self.period().ticks * (self.samples() + 1)
    }

    /// Whether a warning given earlier still stands at `now`.
    pub open spec fn standing(self, now: Instant) -> bool {
        self.warned() matches Some(stamp) && now.ticks - stamp.ticks <= LATE_WARNING_SECS
            * crate::time::TICK_HZ
    }

    /// The loop can finish another sample: the counter has room, the deadline
    /// is an instant, the spare time a 32-bit number and the clock did not run
    /// backwards.
    pub open spec fn can_finish(self, finish: Instant, now: Instant) -> bool {
        &&& self.samples() < u32::MAX
        &&& self.until_deadline() <= u64::MAX ==> {
            &&& self.start().ticks + self.until_deadline() <= u64::MAX
            &&& spec_spare_time(
                finish,
                Instant { ticks: (self.start().ticks + self.until_deadline()) as u64 },
            ) <= i32::MAX
            &&& (self.warned() matches Some(stamp) ==> stamp.ticks <= now.ticks)
        }
    }

    /// A loop at the sampling rate that starts at `now`.
    pub fn new(now: Instant) -> (r: Self)
        ensures
            r.period().ticks == crate::time::period_ticks(QUADRATURE_LOOP_HZ),
            r.period().ticks == 333,
            r.start() == now,
            r.samples() == 0,
            r.warned() is None,
    {
        QuadratureLoop {
            rate: Duration::from_hz(QUADRATURE_LOOP_HZ),
            loop_init_time: now,
            iter_idx: 0,
            late_timestamp: None,
        }
    }

    /// Whether `finish_sample` can end the sample without overflow.
    pub fn can_finish_sample(&self, finish: Instant, now: Instant) -> (b: bool)
        ensures
            b == self.can_finish(finish, now),
    {
        if self.iter_idx == u32::MAX {
            return false;
        }
        match self.rate.checked_mul(self.iter_idx + 1) {
            None => true,
            Some(until_deadline) => {
                let start: u64 = self.loop_init_time.ticks;
                if until_deadline.ticks > u64::MAX - start {
                    return false;
                }
                let deadline: u64 = start + until_deadline.ticks;
                let in_order = match self.late_timestamp {
                    Some(stamp) => stamp.ticks <= now.ticks,
                    None => true,
                };
                in_order && (finish.ticks < deadline || truncated(finish.ticks - deadline)
                    > i32::MIN)
            },
        }
    }

    /// Ends a sample that finished at `finish`, with the clock at `now`. A late
    /// sample gives a warning, unless one was given within the last second.
    pub fn finish_sample(&mut self, finish: Instant, now: Instant) -> (r: Lateness)
        requires
            old(self).can_finish(finish, now),
        ensures
            final(self).period() == old(self).period(),
            final(self).start() == old(self).start(),
            final(self).samples() == old(self).samples() + 1,
            old(self).until_deadline() > u64::MAX ==> r == Lateness::Unknown
                && final(self).warned() == old(self).warned(),
            old(self).until_deadline() <= u64::MAX ==> {
                let spare = spec_spare_time(
                    finish,
                    Instant {
                        ticks: (old(self).start().ticks + old(self).until_deadline()) as u64,
                    },
                );
                let standing = old(self).standing(now);
                if spare < 0 && !standing {
                    r == Lateness::Late(spare as i32) && final(self).warned() == Some(now)
                } else {
                    r == Lateness::Quiet && final(self).warned() == (if standing {
                        old(self).warned()
                    } else {
                        None
                    })
                }
            },
            ({
                let deadline = old(self).start().ticks + old(self).period().ticks * (
                old(self).samples() + 1);
                let recent = old(self).warned() matches Some(stamp) && now.ticks - stamp.ticks
                    <= 1_000_000;
                -0x8000_0000 < deadline - finish.ticks < 0x8000_0000 && deadline <= u64::MAX ==> {
                    &&& r is Late <==> finish.ticks > deadline && !recent
                    &&& r matches Lateness::Late(spare) ==> spare == deadline - finish.ticks
                    &&& r is Late ==> final(self).warned() == Some(now)
                }
            }),
    {
        let lateness = match self.rate.checked_mul(self.iter_idx + 1) {
            Some(until_deadline) => {
                let deadline = self.loop_init_time.plus(until_deadline);
                let spare = spare_time(finish, deadline);
                // Hold back repeated warnings
                if let Some(stamp) = self.late_timestamp {
                    if now.since(stamp).ticks > Duration::from_secs(LATE_WARNING_SECS).ticks {
                        self.late_timestamp = None;
                    }
                }
                if spare < 0 && self.late_timestamp.is_none() {
                    self.late_timestamp = Some(now);
                    Lateness::Late(spare)
                } else {
                    Lateness::Quiet
                }
            },
            None => Lateness::Unknown,
        };
        self.iter_idx = self.iter_idx + 1;
        lateness
    }
}

/// Deadline of the sample with number `iter_idx`, counted from zero, of a loop
/// that started at `start`; `None` where the clock does not reach so far.
pub fn sample_deadline(start: Instant, iter_idx: u32) -> (r: Option<Instant>)
    ensures
        ({
            let deadline = start.ticks + crate::time::period_ticks(QUADRATURE_LOOP_HZ) * (iter_idx
                + 1);
            r == (if iter_idx < u32::MAX && deadline <= u64::MAX {
                Some(Instant { ticks: deadline as u64 })
            } else {
                None
            })
        }),
{
    if iter_idx == u32::MAX {
        return None;
    }
    match Duration::from_hz(QUADRATURE_LOOP_HZ).checked_mul(iter_idx + 1) {
        Some(until_deadline) => {
            if until_deadline.ticks <= u64::MAX - start.ticks {
                Some(start.plus(until_deadline))
            } else {
                None
            }
        },
        None => None,
    }
}

/// Whether `spare_time` can be told.
pub fn has_spare_time(finish: Instant, deadline: Instant) -> (b: bool)
    ensures
        b == (spec_spare_time(finish, deadline) <= i32::MAX),
{
    finish.ticks < deadline.ticks || truncated(finish.ticks - deadline.ticks) > i32::MIN
}

/// What the LED shows for a sample on a board that reports late ones there:
/// an alarm in the color of the board.
pub fn late_alarm(spare_time: i32, color: Color) -> (r: Option<Command>)
    ensures
        r == (if spare_time < 0 {
            Some(Command::Transient(crate::constants::spec_alarm_anim(color)))
        } else {
            None
        }),
{
    if spare_time < 0 {
        Some(Command::Transient(alarm_anim(color)))
    } else {
        None
    }
}

/// Ends the sample with number `iter_idx` of a loop that started at `start`, on
/// a board that reports late samples on its LED: the spare time and the alarm,
/// if one is due. `None` where the deadline or the spare time cannot be told.
pub fn finish_reported_sample(
    start: Instant,
    iter_idx: u32,
    finish: Instant,
    color: Color,
) -> (r: Option<(i32, Option<Command>)>)
    ensures
        ({
            let deadline = start.ticks + crate::time::period_ticks(QUADRATURE_LOOP_HZ) * (iter_idx
                + 1);
            let spare = spec_spare_time(finish, Instant { ticks: deadline as u64 });
            r == (if iter_idx < u32::MAX && deadline <= u64::MAX && spare <= i32::MAX {
                Some(
                    (
                        spare as i32,
                        if spare < 0 {
                            Some(Command::Transient(crate::constants::spec_alarm_anim(color)))
                        } else {
                            None
                        },
                    ),
                )
            } else {
                None
            })
        }),
{
    match sample_deadline(start, iter_idx) {
        Some(deadline) => {
            if has_spare_time(finish, deadline) {
                let spare: i32 = spare_time(finish, deadline);
                Some((spare, late_alarm(spare, color)))
            } else {
                None
            }
        },
        None => None,
    }
}

/// What ends a run of the sampling loop.
#[derive(Clone, Copy, Debug, PartialEq, Eq, Structural)]
pub enum QuadratureEvent {
    /// A command arrived.
    Command(QuadratureCommand),
    /// The loop returned, which it should not.
    Finished,
    /// A sensor could not be read or tracking was lost.
    Failed,
}

/// Reacts to the end of a run of the sampling loop: a command or a failure
/// starts tracking afresh, and a failure is reported.
pub fn handle_event(tracker: &mut HallAngleTracker, event: QuadratureEvent) -> (r: Option<
    QuadratureError,
>)
    ensures
        r is Some <==> event is Failed,
        event is Finished ==> *final(tracker) == *old(tracker),
        !(event is Finished) ==> {
            &&& final(tracker).last() is None
            &&& final(tracker).rotations() == 0
            &&& final(tracker).shift() == 0
            &&& final(tracker).start() == match event {
                QuadratureEvent::Command(QuadratureCommand::ResetAt(angle)) => angle,
                _ => Angle { bits: 0 },
            }
        },
{
    match event {
        QuadratureEvent::Command(QuadratureCommand::Zero) => {
            *tracker = HallAngleTracker::new(Angle::zero());
            None
        },
        QuadratureEvent::Command(QuadratureCommand::ResetAt(init_pos)) => {
            *tracker = HallAngleTracker::new(init_pos);
            None
        },
        QuadratureEvent::Finished => None,
        QuadratureEvent::Failed => {
            // Reset tracking after error
            *tracker = HallAngleTracker::new(Angle::zero());
            Some(QuadratureError {  })
        },
    }
}

/// The low 32 bits of a time below 2^31 microseconds are the time itself, so
/// short of some 35 minutes the spare time is exact: it is negative just when
/// the deadline passed.
pub proof fn law_spare_time_is_exact_within_half_an_hour(finish: Instant, deadline: Instant)
    requires
        -0x8000_0000 < deadline.ticks - finish.ticks < 0x8000_0000,
    ensures
        spec_spare_time(finish, deadline) == deadline.ticks - finish.ticks,
{
}

/// Of two warnings in a run, the second comes more than a second after the
/// first.
pub proof fn law_warnings_are_a_second_apart(before: QuadratureLoop, now: Instant, stamp: Instant)
    requires
        before.warned() == Some(stamp),
        !before.standing(now),
    ensures
        now.ticks - stamp.ticks > LATE_WARNING_SECS * crate::time::TICK_HZ,
{
}

/// Samples are due every 333 microseconds from the start on: short of some 35
/// minutes the spare time is what is left to that deadline, and a sample that
/// comes after it raises an alarm of two flashes in the color of the board.
pub proof fn law_late_samples_raise_an_alarm(
    start: Instant,
    iter_idx: u32,
    finish: Instant,
    color: Color,
    r: Option<(i32, Option<Command>)>,
)
    requires
        start.ticks + 333 * (iter_idx + 1) <= u64::MAX,
        iter_idx < u32::MAX,
        -0x8000_0000 < start.ticks + 333 * (iter_idx + 1) - finish.ticks < 0x8000_0000,
        call_ensures(finish_reported_sample, (start, iter_idx, finish, color), r),
    ensures
        r is Some,
        r matches Some(report) ==> {
            &&& report.0 == start.ticks + 333 * (iter_idx + 1) - finish.ticks
            &&& report.1 is Some <==> finish.ticks > start.ticks + 333 * (iter_idx + 1)
            &&& report.1 matches Some(command) ==> (command matches Command::Transient(alarm)
                && crate::constants::is_pulse(alarm, color, 0, 200, 400, 500, 2))
        },
{
    assert(crate::time::period_ticks(QUADRATURE_LOOP_HZ) == 333);
    crate::constants::lemma_pulse_parts(color, 0, 200, 400, 500, 2);
}

/// The spare time is the time to the deadline in 32 bits: it differs from it by
/// a multiple of 2^32.
pub proof fn law_spare_time_wraps(finish: Instant, deadline: Instant, told: bool, spare: i32)
    requires
        call_ensures(has_spare_time, (finish, deadline), told),
        told ==> call_ensures(spare_time, (finish, deadline), spare),
    ensures
        told ==> (spare - (deadline.ticks - finish.ticks)) % 0x1_0000_0000 == 0,
        !told ==> finish.ticks >= deadline.ticks && (finish.ticks - deadline.ticks)
            % 0x1_0000_0000 == 0x8000_0000,
{
}

/// A sample can be ended as long as the deadline is on the clock, the sample is
/// within half an hour of it and the clock did not run backwards.
pub proof fn law_ordinary_samples_can_be_ended(
    run: QuadratureLoop,
    finish: Instant,
    now: Instant,
    can: bool,
)
    requires
        run.samples() < u32::MAX,
        run.start().ticks + run.period().ticks * (run.samples() + 1) <= u64::MAX,
        -0x8000_0000 < run.start().ticks + run.period().ticks * (run.samples() + 1) - finish.ticks
            < 0x8000_0000,
        run.warned() matches Some(stamp) ==> stamp.ticks <= now.ticks,
        call_ensures(QuadratureLoop::can_finish_sample, (&run, finish, now), can),
    ensures
        can,
{
}

/// After a command or a failure the next reading is reported at the angle of
/// the reset, or else at zero; only a failure is reported.
pub proof fn law_tracking_starts_afresh(
    tracker: &mut HallAngleTracker,
    next: &mut HallAngleTracker,
    event: QuadratureEvent,
    report: Option<QuadratureError>,
    theta: crate::float32::Float32,
    r: Result<Angle, &'static str>,
)
    requires
        call_ensures(handle_event, (tracker, event), report),
        *old(next) == *final(tracker),
        call_ensures(HallAngleTracker::update, (next, theta), r),
    ensures
        report is Some <==> event is Failed,
        event is Finished ==> *final(tracker) == *old(tracker),
        event matches QuadratureEvent::Command(QuadratureCommand::ResetAt(angle)) ==> r == Ok::<
            Angle,
            &'static str,
        >(angle),
        event is Failed || event == QuadratureEvent::Command(QuadratureCommand::Zero) ==> r == Ok::<
            Angle,
            &'static str,
        >(Angle { bits: 0 }),
{
}

/// Of two late samples that end within a second of each other only the first
/// one gives a warning.
pub proof fn law_second_late_sample_is_quiet(
    run: &mut QuadratureLoop,
    next: &mut QuadratureLoop,
    finishes: (Instant, Instant),
    times: (Instant, Instant),
    warnings: (Lateness, Lateness),
)
    requires
        old(run).start().ticks + old(run).period().ticks * (old(run).samples() + 2) <= u64::MAX,
        call_ensures(QuadratureLoop::finish_sample, (run, finishes.0, times.0), warnings.0),
        *old(next) == *final(run),
        call_ensures(QuadratureLoop::finish_sample, (next, finishes.1, times.1), warnings.1),
        warnings.0 is Late,
        times.1.ticks - times.0.ticks <= 1_000_000,
    ensures
        warnings.1 is Quiet,
        final(next).samples() == old(run).samples() + 2,
{
}

} // verus!
