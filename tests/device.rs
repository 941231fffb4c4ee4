use solar_backlight::decimal::{format_level, parse_level};
use solar_backlight::device::{
    fraction_to_level, Backlight, BacklightController, BacklightError, Identified, MemoryBacklight, FRACTION_ONE,
};

#[test]
fn parse_level_reads_leading_number() {
    assert_eq!(parse_level(b"255\n"), Some(255));
    assert_eq!(parse_level(b"0042"), Some(42));
    assert_eq!(parse_level(b"7"), Some(7));
}

#[test]
fn parse_level_rejects_malformed() {
    assert_eq!(parse_level(b""), None);
    assert_eq!(parse_level(b"abc"), None);
    assert_eq!(parse_level(b"\n12"), None);
    assert_eq!(parse_level(b"-5"), None);
    assert_eq!(parse_level(b"+5"), None);
    assert_eq!(parse_level(b"99999999999"), None);
    assert_eq!(parse_level(b"7x"), None);
    assert_eq!(parse_level(b"7 "), None);
    assert_eq!(parse_level(b"7\n\n"), None);
    assert_eq!(parse_level(b"\n"), None);
}

#[test]
fn format_level_is_plain_decimal() {
    assert_eq!(format_level(0), b"0".to_vec());
    assert_eq!(format_level(937), b"937".to_vec());
    assert_eq!(format_level(u32::MAX), b"4294967295".to_vec());
}

#[test]
fn fraction_to_level_rounds_to_nearest() {
    assert_eq!(fraction_to_level(500000, 255), Ok(128));
    assert_eq!(fraction_to_level(400000, 255), Ok(102));
    assert_eq!(fraction_to_level(FRACTION_ONE, 937), Ok(937));
    assert_eq!(fraction_to_level(0, 937), Ok(0));
    assert_eq!(fraction_to_level(FRACTION_ONE, u32::MAX), Ok(u32::MAX));
    assert_eq!(fraction_to_level(FRACTION_ONE + 1, 937), Err(BacklightError::InvalidArgument));
}

#[test]
fn backlight_probe_reads_maximum() {
    let b = Backlight::new("intel_backlight".to_string(), b"937\n").unwrap();
    assert_eq!(b.id(), "intel_backlight");
    assert_eq!(b.max_brightness(), 937);
}

#[test]
fn backlight_probe_rejects_corrupted_maximum() {
    assert_eq!(Backlight::new("acpi_video0".to_string(), b"xx").err(), Some(BacklightError::Construction));
    assert_eq!(Backlight::new("acpi_video0".to_string(), b"").err(), Some(BacklightError::Construction));
    assert_eq!(Backlight::new("acpi_video0".to_string(), b"7x").err(), Some(BacklightError::Construction));
    assert_eq!(Backlight::new("acpi_video0".to_string(), b"4294967296").err(), Some(BacklightError::Construction));
}

#[test]
fn backlight_level_round_trip() {
    let b = Backlight::new("intel_backlight".to_string(), b"937").unwrap();
    for level in [0u32, 1, 9, 10, 468, 936, 937] {
        let bytes = b.set_brightness(level).unwrap();
        assert_eq!(b.get_brightness(&bytes), Ok(level));
    }
}

#[test]
fn backlight_rejects_level_above_maximum() {
    let b = Backlight::new("intel_backlight".to_string(), b"937").unwrap();
    assert_eq!(b.set_brightness(938), Err(BacklightError::InvalidArgument));
    assert_eq!(b.set_brightness(u32::MAX), Err(BacklightError::InvalidArgument));
}

#[test]
fn backlight_fraction_bytes() {
    let b = Backlight::new("intel_backlight".to_string(), b"255").unwrap();
    assert_eq!(b.set_brightness_fraction(500000), Ok(b"128".to_vec()));
    assert_eq!(b.set_brightness_fraction(FRACTION_ONE + 1), Err(BacklightError::InvalidArgument));
}

#[test]
fn backlight_get_brightness_malformed_is_io() {
    let b = Backlight::new("intel_backlight".to_string(), b"255").unwrap();
    assert_eq!(b.get_brightness(b"oops"), Err(BacklightError::Io));
    assert_eq!(b.get_brightness(b"7x"), Err(BacklightError::Io));
    assert_eq!(b.get_brightness(b"7\n"), Ok(7));
}

#[test]
fn memory_set_then_get_round_trip() {
    let mut d = MemoryBacklight::new("panel".to_string(), 100);
    for level in [0u32, 1, 50, 99, 100] {
        assert_eq!(d.set_brightness(level), Ok(()));
        assert_eq!(d.get_brightness(), Ok(level));
    }
}

#[test]
fn memory_fraction_out_of_range_writes_nothing() {
    let mut d = MemoryBacklight::new("panel".to_string(), 100);
    assert_eq!(d.set_brightness(42), Ok(()));
    assert_eq!(d.set_brightness_fraction(FRACTION_ONE + 1), Err(BacklightError::InvalidArgument));
    assert_eq!(d.set_brightness_fraction(u32::MAX), Err(BacklightError::InvalidArgument));
    assert_eq!(d.get_brightness(), Ok(42));
}

#[test]
fn memory_level_above_maximum_writes_nothing() {
    let mut d = MemoryBacklight::new("panel".to_string(), 100);
    assert_eq!(d.set_brightness(42), Ok(()));
    assert_eq!(d.set_brightness(101), Err(BacklightError::InvalidArgument));
    assert_eq!(d.get_brightness(), Ok(42));
}

#[test]
fn memory_fraction_sets_rounded_level() {
    let mut d = MemoryBacklight::new("panel".to_string(), 255);
    assert_eq!(d.set_brightness_fraction(400000), Ok(()));
    assert_eq!(d.get_brightness(), Ok(102));
    assert_eq!(d.id(), "panel");
    assert_eq!(d.max_brightness(), 255);
}

#[test]
fn failing_memory_device_reports_io() {
    let mut d = MemoryBacklight::failing("broken".to_string(), 255);
    assert_eq!(d.set_brightness_fraction(400000), Err(BacklightError::Io));
    assert_eq!(d.set_brightness(10), Err(BacklightError::Io));
    assert_eq!(d.get_brightness(), Err(BacklightError::Io));
    assert_eq!(d.set_brightness(256), Err(BacklightError::InvalidArgument));
}

#[test]
fn backlight_level_above_maximum_read_is_io() {
    let b = Backlight::new("intel_backlight".to_string(), b"937").unwrap();
    assert_eq!(b.get_brightness(b"938\n"), Err(BacklightError::Io));
    assert_eq!(b.get_brightness(b"937\n"), Ok(937));
}
