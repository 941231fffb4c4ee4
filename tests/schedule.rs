use solar_backlight::device::{
    Backlight, BacklightController, BacklightError, Identified, MemoryBacklight, FRACTION_ONE,
};
use solar_backlight::registry::DeviceRegistry;
use solar_backlight::schedule::{
    classify, event_on_day, target_fraction, Brightness, BrightnessScheduler, CivilDate, Phase, SolarDaySchedule,
};

const HOUR: i64 = 3600;
// 2024-06-21T00:00:00Z
const MIDNIGHT: i64 = 1718928000;

fn date() -> CivilDate {
    CivilDate { year: 2024, month: 6, day: 21 }
}

fn day_schedule() -> SolarDaySchedule {
    SolarDaySchedule {
        date: date(),
        dawn_nautical: Some(MIDNIGHT + 5 * HOUR),
        dawn_civil: Some(MIDNIGHT + 5 * HOUR + 1800),
        sunrise: Some(MIDNIGHT + 6 * HOUR),
        sunset: Some(MIDNIGHT + 18 * HOUR),
        dusk_civil: Some(MIDNIGHT + 18 * HOUR + 1800),
        dusk_nautical: Some(MIDNIGHT + 19 * HOUR),
    }
}

#[test]
fn scenario_noon_and_night() {
    let b = Brightness { day: FRACTION_ONE, night: 400000 };
    let s = day_schedule();
    assert_eq!(target_fraction(MIDNIGHT + 12 * HOUR, &s, &b), FRACTION_ONE);
    assert_eq!(target_fraction(MIDNIGHT + 2 * HOUR, &s, &b), 400000);
}

#[test]
fn classification_phases() {
    let s = day_schedule();
    assert_eq!(classify(MIDNIGHT + 2 * HOUR, &s), Phase::Night);
    assert_eq!(classify(MIDNIGHT + 5 * HOUR + 2000, &s), Phase::Dawn);
    assert_eq!(classify(MIDNIGHT + 6 * HOUR, &s), Phase::Day);
    assert_eq!(classify(MIDNIGHT + 18 * HOUR, &s), Phase::Dusk);
    assert_eq!(classify(MIDNIGHT + 18 * HOUR + 1800, &s), Phase::Night);
    assert_eq!(classify(MIDNIGHT + 23 * HOUR, &s), Phase::Night);
}

#[test]
fn classification_is_deterministic() {
    let b = Brightness::default();
    let s = day_schedule();
    for t in [0i64, 2, 5, 6, 12, 18, 23] {
        let now = MIDNIGHT + t * HOUR + 900;
        assert_eq!(target_fraction(now, &s, &b), target_fraction(now, &s, &b));
        assert_eq!(classify(now, &s), classify(now, &s));
    }
}

#[test]
fn twilight_ramps_are_exact() {
    let b = Brightness { day: FRACTION_ONE, night: 400000 };
    let s = day_schedule();
    // halfway through civil dawn and civil dusk
    assert_eq!(target_fraction(MIDNIGHT + 5 * HOUR + 2700, &s, &b), 700000);
    assert_eq!(target_fraction(MIDNIGHT + 18 * HOUR + 900, &s, &b), 700000);
    assert_eq!(target_fraction(MIDNIGHT + 5 * HOUR + 1800, &s, &b), 400000);
    assert_eq!(target_fraction(MIDNIGHT + 18 * HOUR, &s, &b), FRACTION_ONE);
}

#[test]
fn dawn_rises_and_dusk_falls() {
    let b = Brightness { day: FRACTION_ONE, night: 400000 };
    let s = day_schedule();
    let mut last = 0u32;
    for k in 0..=1800i64 {
        let v = target_fraction(MIDNIGHT + 5 * HOUR + 1800 + k, &s, &b);
        assert!(v >= last);
        last = v;
    }
    let mut last = u32::MAX;
    for k in 0..=1800i64 {
        let v = target_fraction(MIDNIGHT + 18 * HOUR + k, &s, &b);
        assert!(v <= last);
        last = v;
    }
}

#[test]
fn polar_days_fall_back() {
    let b = Brightness { day: FRACTION_ONE, night: 400000 };
    let midnight_sun = SolarDaySchedule {
        date: date(),
        dawn_civil: None,
        dawn_nautical: None,
        sunrise: None,
        sunset: None,
        dusk_civil: None,
        dusk_nautical: None,
    };
    assert_eq!(target_fraction(MIDNIGHT + 2 * HOUR, &midnight_sun, &b), FRACTION_ONE);
    let no_twilight = SolarDaySchedule { dawn_civil: None, dusk_civil: None, ..day_schedule() };
    assert_eq!(target_fraction(MIDNIGHT + 6 * HOUR - 1, &no_twilight, &b), 400000);
    assert_eq!(target_fraction(MIDNIGHT + 18 * HOUR, &no_twilight, &b), 400000);
}

#[test]
fn brightness_defaults_and_checks() {
    let d = Brightness::default();
    assert_eq!(d.day, FRACTION_ONE);
    assert_eq!(d.night, 400000);
    assert_eq!(Brightness::new(FRACTION_ONE, 0), Some(Brightness { day: FRACTION_ONE, night: 0 }));
    assert_eq!(Brightness::new(FRACTION_ONE + 1, 0), None);
    assert_eq!(Brightness::new(0, FRACTION_ONE + 1), None);
}

#[test]
fn scheduler_recomputes_once_per_date() {
    let mut sch = BrightnessScheduler::new(Brightness::default());
    assert!(sch.needs_schedule(date()));
    assert_eq!(sch.target(MIDNIGHT), None);
    sch.set_schedule(day_schedule());
    assert!(!sch.needs_schedule(date()));
    assert!(sch.needs_schedule(CivilDate { year: 2024, month: 6, day: 22 }));
    assert_eq!(sch.target(MIDNIGHT + 12 * HOUR), Some(FRACTION_ONE));
}

#[test]
fn scenario_failing_device_reported_once() {
    let probes = vec![
        Ok(MemoryBacklight::failing("broken".to_string(), 100)),
        Ok(MemoryBacklight::new("panel".to_string(), 255)),
    ];
    let (mut reg, failed) = DeviceRegistry::discover(probes);
    assert!(failed.is_empty());
    assert_eq!(reg.len(), 2);
    let report = reg.apply(400000);
    assert_eq!(report, vec![(0usize, BacklightError::Io)]);
    assert_eq!(reg.device(1).id(), "panel");
    let mut devices = reg.into_devices();
    assert_eq!(devices[1].get_brightness(), Ok(102));
    assert_eq!(devices[0].get_brightness(), Err(BacklightError::Io));
    let again = {
        let (mut reg, _) = DeviceRegistry::discover(devices.into_iter().map(Ok).collect());
        reg.apply(FRACTION_ONE)
    };
    assert_eq!(again, vec![(0usize, BacklightError::Io)]);
}

#[test]
fn fraction_above_whole_is_reported_for_every_device() {
    let probes = vec![Ok(MemoryBacklight::new("a".to_string(), 10)), Ok(MemoryBacklight::new("b".to_string(), 20))];
    let (mut reg, _) = DeviceRegistry::discover(probes);
    let report = reg.apply(FRACTION_ONE + 1);
    assert_eq!(report, vec![(0usize, BacklightError::InvalidArgument), (1usize, BacklightError::InvalidArgument)]);
}

fn probe(id: &str, max: &[u8]) -> Result<MemoryBacklight, BacklightError> {
    Backlight::new(id.to_string(), max).map(|b| MemoryBacklight::new(b.id().to_string(), b.max_brightness()))
}

#[test]
fn scenario_discovery_skips_corrupted_entry() {
    let probes = vec![probe("acpi_video0", b"15\n"), probe("broken", b"7x"), probe("intel_backlight", b"937\n")];
    let (reg, failed) = DeviceRegistry::discover(probes);
    assert_eq!(failed, vec![1usize]);
    assert_eq!(reg.len(), 2);
    assert_eq!(reg.device(0).id(), "acpi_video0");
    assert_eq!(reg.device(1).id(), "intel_backlight");
    assert_eq!(reg.device(1).max_brightness(), 937);
}

#[test]
fn discovery_keeps_first_of_equal_ids_and_may_be_empty() {
    let probes = vec![
        Ok(MemoryBacklight::new("panel".to_string(), 10)),
        Ok(MemoryBacklight::new("panel".to_string(), 20)),
    ];
    let (reg, failed) = DeviceRegistry::discover(probes);
    assert!(failed.is_empty());
    assert_eq!(reg.len(), 1);
    assert_eq!(reg.device(0).max_brightness(), 10);
    let (empty, failed) = DeviceRegistry::<MemoryBacklight>::discover(vec![Err(BacklightError::Construction)]);
    assert_eq!(empty.len(), 0);
    assert_eq!(failed, vec![0usize]);
}

fn sysfs_registry() -> DeviceRegistry<Backlight> {
    let probes = vec![
        Backlight::new("acpi_video0".to_string(), b"15\n"),
        Backlight::new("broken".to_string(), b"7x"),
        Backlight::new("intel_backlight".to_string(), b"255\n"),
        Backlight::new("acpi_video0".to_string(), b"99\n"),
    ];
    let (reg, failed) = DeviceRegistry::discover(probes);
    assert_eq!(failed, vec![1usize]);
    reg
}

#[test]
fn sysfs_discovery_keeps_unique_probed_entries() {
    let reg = sysfs_registry();
    assert_eq!(reg.len(), 2);
    assert_eq!(reg.device(0).id(), "acpi_video0");
    assert_eq!(reg.device(0).max_brightness(), 15);
    assert_eq!(reg.device(1).id(), "intel_backlight");
}

#[test]
fn sysfs_tick_reports_failed_write_once() {
    let reg = sysfs_registry();
    let planned = reg.plan(400000);
    assert_eq!(planned, vec![Ok(b"6".to_vec()), Ok(b"102".to_vec())]);
    let report = DeviceRegistry::report(&planned, &vec![false, true]);
    assert_eq!(report, vec![(0usize, BacklightError::Io)]);
    let report = DeviceRegistry::report(&planned, &vec![true, true]);
    assert!(report.is_empty());
    let report = DeviceRegistry::report(&planned, &vec![true]);
    assert_eq!(report, vec![(1usize, BacklightError::Io)]);
}

#[test]
fn sysfs_tick_fraction_above_whole() {
    let reg = sysfs_registry();
    let planned = reg.plan(FRACTION_ONE + 1);
    assert_eq!(planned, vec![Err(BacklightError::InvalidArgument), Err(BacklightError::InvalidArgument)]);
    let report = DeviceRegistry::report(&planned, &vec![]);
    assert_eq!(report, vec![(0usize, BacklightError::InvalidArgument), (1usize, BacklightError::InvalidArgument)]);
}

#[test]
fn events_far_from_their_date_are_absent() {
    assert_eq!(event_on_day(MIDNIGHT + 6 * HOUR, MIDNIGHT), Some(MIDNIGHT + 6 * HOUR));
    assert_eq!(event_on_day(MIDNIGHT - 172800, MIDNIGHT), Some(MIDNIGHT - 172800));
    assert_eq!(event_on_day(MIDNIGHT + 172801, MIDNIGHT), None);
    assert_eq!(event_on_day(0, MIDNIGHT), None);
    assert_eq!(event_on_day(i64::MIN, i64::MAX), None);
}
