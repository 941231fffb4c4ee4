//! Day and night: which brightness a moment of the day calls for, given the
//! day's solar events.
use vstd::prelude::*;
use crate::device::FRACTION_ONE;

verus! {

/// A calendar date in local civil time.
#[derive(Clone, Copy, Debug, PartialEq, Eq, Structural)]
pub struct CivilDate {
    pub year: i32,
    pub month: u8,
    pub day: u8,
}

/// The solar events of one day, as UTC instants in seconds since the Unix
/// epoch. An event that does not take place that day (midnight sun, polar
/// night) is `None`.
#[derive(Clone, Copy, Debug, PartialEq, Eq, Structural)]
pub struct SolarDaySchedule {
    /// The local date the events were computed for.
    pub date: CivilDate,
    pub dawn_civil: Option<i64>,
    pub dawn_nautical: Option<i64>,
    pub sunrise: Option<i64>,
    pub sunset: Option<i64>,
    pub dusk_civil: Option<i64>,
    pub dusk_nautical: Option<i64>,
}

impl SolarDaySchedule {
    /// A day away from the polar extremes: civil dawn, sunrise, sunset and
    /// civil dusk all take place, in that order.
    pub open spec fn is_ordered(&self) -> bool {
        &&& self.dawn_civil is Some
        &&& self.sunrise is Some
        &&& self.sunset is Some
        &&& self.dusk_civil is Some
        &&& self.dawn_civil->Some_0 < self.sunrise->Some_0
        &&& self.sunrise->Some_0 < self.sunset->Some_0
        &&& self.sunset->Some_0 < self.dusk_civil->Some_0
    }
}

/// The configured brightness for day and for night, as fractions of each
/// device's maximum (parts of `FRACTION_ONE`).
#[derive(Clone, Copy, Debug, PartialEq, Eq, Structural)]
pub struct Brightness {
    pub day: u32,
    pub night: u32,
}

impl Brightness {
    /// Both fractions are at most the whole.
    pub open spec fn is_valid(&self) -> bool {
        self.day <= FRACTION_ONE && self.night <= FRACTION_ONE
    }

    /// Checked construction: `None` when a fraction is above the whole.
    pub fn new(day: u32, night: u32) -> (r: Option<Brightness>)
        ensures
            day <= FRACTION_ONE && night <= FRACTION_ONE ==> r == Some(Brightness { day, night }),
            !(day <= FRACTION_ONE && night <= FRACTION_ONE) ==> r is None,
    {
        if day <= FRACTION_ONE && night <= FRACTION_ONE {
            Some(Brightness { day, night })
        } else {
            None
        }
    }
}

impl Default for Brightness {
    /// Full brightness by day, four tenths by night.
    fn default() -> (r: Brightness)
        ensures
            r.day == FRACTION_ONE,
            r.night == 400000,
    {
        Brightness { day: FRACTION_ONE, night: 400000 }
    }
}

/// How far from the start of its date a solar event may fall, in seconds.
/// The solar calculation gives an instant far outside this span for an event
/// that does not take place that day.
pub const EVENT_SPAN: i64 = 172800;

/// An event instant as the schedule holds it: absent when it falls more than
/// `EVENT_SPAN` seconds from `midnight`, the start of its date in UTC.
pub fn event_on_day(t: i64, midnight: i64) -> (r: Option<i64>)
    ensures
        r == (if -EVENT_SPAN <= t - midnight <= EVENT_SPAN { Some(t) } else { None::<i64> }),
{
    let d = t as i128 - midnight as i128;
    if -(EVENT_SPAN as i128) <= d && d <= EVENT_SPAN as i128 {
        Some(t)
    } else {
        None
    }
}

/// Where a moment stands in the day.
#[derive(Clone, Copy, Debug, PartialEq, Eq, Structural)]
pub enum Phase {
    Night,
    /// Between civil dawn and sunrise.
    Dawn,
    Day,
    /// Between sunset and civil dusk.
    Dusk,
}

/// The phase of the instant `now` on a day.
///
/// An absent sunrise counts as "already day" and an absent sunset as "never
/// turns to night"; without civil dawn (dusk) the change at sunrise (sunset)
/// is a step.
pub open spec fn phase_of(now: i64, s: SolarDaySchedule) -> Phase {
    if s.sunrise is Some && now < s.sunrise->Some_0 {
        if s.dawn_civil is Some && s.dawn_civil->Some_0 <= now {
            Phase::Dawn
        } else {
            Phase::Night
        }
    } else if s.sunset is Some && s.sunset->Some_0 <= now {
        if s.dusk_civil is Some && now < s.dusk_civil->Some_0 {
            Phase::Dusk
        } else {
            Phase::Night
        }
    } else {
        Phase::Day
    }
}

/// The linear way from `from` to `to` after `elapsed` of `width`, rounded
/// towards `from`.
pub open spec fn ramp(from: int, to: int, elapsed: int, width: int) -> int {
    if from <= to {
        from + (to - from) * elapsed / width
    } else {
        from - (from - to) * elapsed / width
    }
}

/// The brightness fraction for the instant `now`: the night value at night,
/// the day value by day, and a linear ramp through the civil twilights.
pub open spec fn target_of(now: i64, s: SolarDaySchedule, b: Brightness) -> int {
    match phase_of(now, s) {
        Phase::Night => b.night as int,
        Phase::Day => b.day as int,
        Phase::Dawn => ramp(
            b.night as int,
            b.day as int,
            now - s.dawn_civil->Some_0,
            s.sunrise->Some_0 - s.dawn_civil->Some_0,
        ),
        Phase::Dusk => ramp(
            b.day as int,
            b.night as int,
            now - s.sunset->Some_0,
            s.dusk_civil->Some_0 - s.sunset->Some_0,
        ),
    }
}

/// Classifies the instant `now` against a day's events.
pub fn classify(now: i64, s: &SolarDaySchedule) -> (r: Phase)
    ensures
        r == phase_of(now, *s),
{
    match s.sunrise {
        Some(rise) if now < rise => {
            match s.dawn_civil {
                Some(dawn) if dawn <= now => Phase::Dawn,
                _ => Phase::Night,
            }
        },
        _ => {
            match s.sunset {
                Some(set) if set <= now => {
                    match s.dusk_civil {
                        Some(dusk) if now < dusk => Phase::Dusk,
                        _ => Phase::Night,
                    }
                },
                _ => Phase::Day,
            }
        },
    }
}

proof fn lemma_ramp_between(from: int, to: int, elapsed: int, width: int)
    requires
        0 <= elapsed <= width,
        0 < width,
    ensures
        from <= to ==> from <= ramp(from, to, elapsed, width) <= to,
        to < from ==> to <= ramp(from, to, elapsed, width) <= from,
{
    let d = if from <= to { to - from } else { from - to };
    assert(0 <= d * elapsed <= d * width) by (nonlinear_arith)
        requires 0 <= d, 0 <= elapsed <= width;
    assert(0 <= d * elapsed / width <= d) by (nonlinear_arith)
        requires 0 <= d * elapsed <= d * width, 0 < width;
}

/// Steps `elapsed` along the ramp from `from` to `to` over `width`.
fn ramp_exec(from: u32, to: u32, elapsed: i128, width: i128) -> (r: u32)
    requires
        0 <= elapsed < width,
        width <= 0x1_0000_0000_0000_0000,
    ensures
        r == ramp(from as int, to as int, elapsed as int, width as int),
        from <= to ==> from <= r <= to,
        to < from ==> to <= r <= from,
{
    proof {
        lemma_ramp_between(from as int, to as int, elapsed as int, width as int);
    }
    if from <= to {
        let d = (to - from) as i128;
        proof {
            assert(d * elapsed <= 0x1_0000_0000 * 0x1_0000_0000_0000_0000) by (nonlinear_arith)
                requires 0 <= d <= 0x1_0000_0000, 0 <= elapsed <= 0x1_0000_0000_0000_0000;
        }
        let step = d * elapsed / width;
        (from as i128 + step) as u32
    } else {
        let d = (from - to) as i128;
        proof {
            assert(d * elapsed <= 0x1_0000_0000 * 0x1_0000_0000_0000_0000) by (nonlinear_arith)
                requires 0 <= d <= 0x1_0000_0000, 0 <= elapsed <= 0x1_0000_0000_0000_0000;
        }
        let step = d * elapsed / width;
        (from as i128 - step) as u32
    }
}

/// The brightness fraction for the instant `now` on a day.
pub fn target_fraction(now: i64, s: &SolarDaySchedule, b: &Brightness) -> (r: u32)
    ensures
        r == target_of(now, *s, *b),
        b.is_valid() ==> r <= FRACTION_ONE,
{
    match classify(now, s) {
        Phase::Night => b.night,
        Phase::Day => b.day,
        Phase::Dawn => {
            let dawn = s.dawn_civil.unwrap();
            let rise = s.sunrise.unwrap();
            ramp_exec(b.night, b.day, now as i128 - dawn as i128, rise as i128 - dawn as i128)
        },
        Phase::Dusk => {
            let set = s.sunset.unwrap();
            let dusk = s.dusk_civil.unwrap();
            ramp_exec(b.day, b.night, now as i128 - set as i128, dusk as i128 - set as i128)
        },
    }
}

proof fn lemma_ramp_monotone(from: int, to: int, e1: int, e2: int, width: int)
    requires
        0 <= e1 <= e2 <= width,
        0 < width,
    ensures
        from <= to ==> ramp(from, to, e1, width) <= ramp(from, to, e2, width),
        to < from ==> ramp(from, to, e2, width) <= ramp(from, to, e1, width),
{
    let d = if from <= to { to - from } else { from - to };
    assert(d * e1 / width <= d * e2 / width) by (nonlinear_arith)
        requires 0 <= d, 0 <= e1 <= e2, 0 < width;
}

/// Through the dawn window, from civil dawn to sunrise, the target does not
/// fall when the day is brighter than the night.
pub proof fn lemma_dawn_non_decreasing(s: SolarDaySchedule, b: Brightness, t1: i64, t2: i64)
    requires
        s.is_ordered(),
        b.day > b.night,
        s.dawn_civil->Some_0 <= t1 <= t2 <= s.sunrise->Some_0,
    ensures
        target_of(t1, s, b) <= target_of(t2, s, b),
{
    let dawn = s.dawn_civil->Some_0 as int;
    let rise = s.sunrise->Some_0 as int;
    lemma_ramp_between(b.night as int, b.day as int, t1 - dawn, rise - dawn);
    lemma_ramp_monotone(b.night as int, b.day as int, t1 - dawn, t2 - dawn, rise - dawn);
}

/// Through the dusk window, from sunset to civil dusk, the target does not
/// rise when the day is brighter than the night.
pub proof fn lemma_dusk_non_increasing(s: SolarDaySchedule, b: Brightness, t1: i64, t2: i64)
    requires
        s.is_ordered(),
        b.day > b.night,
        s.sunset->Some_0 <= t1 <= t2 <= s.dusk_civil->Some_0,
    ensures
        target_of(t2, s, b) <= target_of(t1, s, b),
{
    let set = s.sunset->Some_0 as int;
    let dusk = s.dusk_civil->Some_0 as int;
    lemma_ramp_between(b.day as int, b.night as int, t1 - set, dusk - set);
    lemma_ramp_between(b.day as int, b.night as int, t2 - set, dusk - set);
    lemma_ramp_monotone(b.day as int, b.night as int, t1 - set, t2 - set, dusk - set);
}

/// The ramps meet the day and night values at the window's ends: at civil
/// dawn and at sunset the ramp starts where the phase before it ends.
pub proof fn lemma_ramp_continuous(s: SolarDaySchedule, b: Brightness)
    requires
        s.is_ordered(),
    ensures
        target_of(s.dawn_civil->Some_0, s, b) == b.night,
        target_of(s.sunrise->Some_0, s, b) == b.day,
        target_of(s.sunset->Some_0, s, b) == b.day,
        target_of(s.dusk_civil->Some_0, s, b) == b.night,
{
    let d = if b.night <= b.day { b.day - b.night } else { b.night - b.day };
    assert(d * 0 == 0) by (nonlinear_arith);
}

/// Classification depends on nothing but the instant and the day's events:
/// asked twice with the same instant and schedule, it gives the same phase
/// and the same target fraction.
pub proof fn lemma_classification_deterministic(now: i64, s1: SolarDaySchedule, s2: SolarDaySchedule, b: Brightness)
    requires
        s1 == s2,
    ensures
        phase_of(now, s1) == phase_of(now, s2),
        target_of(now, s1, b) == target_of(now, s2, b),
{
}

/// The control loop's decisions: the configured brightness and the solar
/// schedule of the day it was computed for, if any.
pub struct BrightnessScheduler {
    pub brightness: Brightness,
    pub schedule: Option<SolarDaySchedule>,
}

impl BrightnessScheduler {
    /// A scheduler with no schedule computed yet.
    pub fn new(brightness: Brightness) -> (r: BrightnessScheduler)
        ensures
            r.brightness == brightness,
            r.schedule is None,
    {
        BrightnessScheduler { brightness, schedule: None }
    }

    /// Whether the schedule has to be computed for `today`: there is none yet,
    /// or it was computed for another date.
    pub fn needs_schedule(&self, today: CivilDate) -> (r: bool)
        ensures
            r == (self.schedule is None || self.schedule->Some_0.date != today),
    {
        match &self.schedule {
            Some(s) => s.date != today,
            None => true,
        }
    }

    /// Keeps a freshly computed schedule, replacing the one held before.
    pub fn set_schedule(&mut self, s: SolarDaySchedule)
        ensures
            final(self).schedule == Some(s),
            final(self).brightness == old(self).brightness,
    {
        self.schedule = Some(s);
    }

    /// The brightness fraction for the instant `now`: `None` while no
    /// schedule is held.
    pub fn target(&self, now: i64) -> (r: Option<u32>)
        ensures
            self.schedule is None ==> r is None,
            self.schedule matches Some(s) ==> r == Some(target_of(now, s, self.brightness) as u32),
            self.schedule is Some && self.brightness.is_valid() ==> r->Some_0 <= FRACTION_ONE,
    {
        match &self.schedule {
            Some(s) => Some(target_fraction(now, s, &self.brightness)),
            None => None,
        }
    }
}

} // verus!
