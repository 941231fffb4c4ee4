//! Brightness devices: the contract every controller keeps, the codec of the
//! kernel's sysfs backlight values, and an in-memory device.
use vstd::prelude::*;
use crate::decimal::{parse_level, format_level, level_of, decimal_digits};

verus! {

/// The whole brightness, as a fraction: fractions are parts per million.
pub const FRACTION_ONE: u32 = 1000000;

/// What a device operation can fail with.
#[derive(Clone, Copy, Debug, PartialEq, Eq, Structural)]
pub enum BacklightError {
    /// A level above the maximum, or a fraction above the whole, was asked for.
    InvalidArgument,
    /// Reading or writing the device failed, or it held no number.
    Io,
    /// The device's maximum could not be read when it was probed.
    Construction,
}

/// The level that a fraction of `max` stands for, rounded to the nearest
/// level (halves up).
pub open spec fn fraction_level(fraction: u32, max: u32) -> int {
    (fraction as int * max as int + FRACTION_ONE as int / 2) / FRACTION_ONE as int
}

proof fn lemma_fraction_level_bounds(fraction: u32, max: u32)
    requires
        fraction <= FRACTION_ONE,
    ensures
        0 <= fraction_level(fraction, max) <= max,
{
    let f = fraction as int;
    let m = max as int;
    assert(f * m <= 1000000 * m) by (nonlinear_arith)
        requires 0 <= f <= 1000000, 0 <= m;
    assert((f * m + 500000) / 1000000 <= m) by (nonlinear_arith)
        requires f * m <= 1000000 * m, 0 <= f * m;
    assert(0 <= (f * m + 500000) / 1000000) by (nonlinear_arith)
        requires 0 <= f * m;
}

/// Turns a fraction of the maximum into a level: `InvalidArgument` when the
/// fraction is above the whole, else the rounded level.
pub fn fraction_to_level(fraction: u32, max: u32) -> (r: Result<u32, BacklightError>)
    ensures
        fraction > FRACTION_ONE ==> r == Err::<u32, BacklightError>(BacklightError::InvalidArgument),
        fraction <= FRACTION_ONE ==> r == Ok::<u32, BacklightError>(fraction_level(fraction, max) as u32),
        fraction <= FRACTION_ONE ==> 0 <= fraction_level(fraction, max) <= max,
{
    if fraction > FRACTION_ONE {
        return Err(BacklightError::InvalidArgument);
    }
    proof {
        lemma_fraction_level_bounds(fraction, max);
        assert(fraction as u64 * max as u64 <= 1000000u64 * 0xffff_ffffu64) by (nonlinear_arith)
            requires fraction <= 1000000, max <= 0xffff_ffff;
    }
    let level = (fraction as u64 * max as u64 + 500000) / 1000000;
    Ok(level as u32)
}

/// A device known by a stable identifier.
pub trait Identified {
    spec fn spec_id(&self) -> Seq<char>;

    /// The device's identifier.
    fn id(&self) -> (r: &str)
        ensures
            r@ == self.spec_id(),
    ;
}

/// A display whose backlight can be read and set.
///
/// Its model: an identifier, a maximum that never changes, the level it holds
/// now, and the levels written to it so far, in order.
pub trait BacklightController: Identified {
    spec fn spec_max(&self) -> u32;

    spec fn spec_level(&self) -> u32;

    spec fn spec_writes(&self) -> Seq<u32>;

    /// The device's maximum level.
    fn max_brightness(&self) -> (r: u32)
        ensures
            r == self.spec_max(),
    ;

    /// Reads the level the device holds now.
    fn get_brightness(&mut self) -> (r: Result<u32, BacklightError>)
        ensures
            final(self).spec_id() == old(self).spec_id(),
            final(self).spec_max() == old(self).spec_max(),
            final(self).spec_level() == old(self).spec_level(),
            final(self).spec_writes() == old(self).spec_writes(),
            r matches Ok(v) ==> v == old(self).spec_level() && v <= old(self).spec_max(),
            r matches Err(e) ==> e == BacklightError::Io,
    ;

    /// Sets the device's level: `InvalidArgument`, with nothing written, when
    /// it is above the maximum.
    fn set_brightness(&mut self, level: u32) -> (r: Result<(), BacklightError>)
        ensures
            final(self).spec_id() == old(self).spec_id(),
            final(self).spec_max() == old(self).spec_max(),
            level > old(self).spec_max() ==> r == Err::<(), BacklightError>(BacklightError::InvalidArgument),
            level <= old(self).spec_max() ==> r is Ok || r == Err::<(), BacklightError>(BacklightError::Io),
            r is Ok ==> final(self).spec_level() == level && final(self).spec_writes() == old(self).spec_writes().push(level),
            r is Err ==> final(self).spec_level() == old(self).spec_level() && final(self).spec_writes() == old(self).spec_writes(),
    ;

    /// Sets the device's level to a fraction of its maximum, rounded to the
    /// nearest level: `InvalidArgument`, with nothing written, when the
    /// fraction is above the whole.
    fn set_brightness_fraction(&mut self, fraction: u32) -> (r: Result<(), BacklightError>)
        ensures
            final(self).spec_id() == old(self).spec_id(),
            final(self).spec_max() == old(self).spec_max(),
            fraction > FRACTION_ONE ==> r == Err::<(), BacklightError>(BacklightError::InvalidArgument),
            fraction <= FRACTION_ONE ==> r is Ok || r == Err::<(), BacklightError>(BacklightError::Io),
            r is Ok ==> final(self).spec_level() == fraction_level(fraction, old(self).spec_max())
                && final(self).spec_writes() == old(self).spec_writes().push(fraction_level(fraction, old(self).spec_max()) as u32),
            r is Err ==> final(self).spec_level() == old(self).spec_level() && final(self).spec_writes() == old(self).spec_writes(),
    {
        let max = self.max_brightness();
        proof {
            if fraction <= FRACTION_ONE {
                lemma_fraction_level_bounds(fraction, max);
            }
        }
        match fraction_to_level(fraction, max) {
            Ok(level) => self.set_brightness(level),
            Err(e) => Err(e),
        }
    }
}

/// A backlight of the kernel's sysfs class: its identifier (the entry's
/// name) and its maximum, read once when the entry is probed.
///
/// The device's `brightness` value is read and written by the caller; this
/// type turns those bytes into levels and back.
pub struct Backlight {
    id: String,
    max: u32,
}

impl Identified for Backlight {
    closed spec fn spec_id(&self) -> Seq<char> {
        self.id@
    }

    /// The entry's name.
    fn id(&self) -> (r: &str) {
        self.id.as_str()
    }
}

impl Backlight {
    pub closed spec fn spec_max(&self) -> u32 {
        self.max
    }

    /// Probes an entry from its name and the bytes of its `max_brightness`
    /// value: `Construction` when they are not a level that fits.
    pub fn new(id: String, max_data: &[u8]) -> (r: Result<Backlight, BacklightError>)
        ensures
            level_of(max_data@) is None ==> r == Err::<Backlight, BacklightError>(BacklightError::Construction),
            level_of(max_data@) matches Some(m) ==> (r matches Ok(b) && b.spec_id() == id@ && b.spec_max() == m),
    {
        match parse_level(max_data) {
            Some(max) => Ok(Backlight { id, max }),
            None => Err(BacklightError::Construction),
        }
    }

    /// The maximum level.
    pub fn max_brightness(&self) -> (r: u32)
        ensures
            r == self.spec_max(),
    {
        self.max
    }

    /// The level that the bytes read from `brightness` hold: `Io` when they are
    /// not a level that fits, or hold one above the maximum.
    pub fn get_brightness(&self, data: &[u8]) -> (r: Result<u32, BacklightError>)
        ensures
            level_of(data@) matches Some(v) ==> (v <= self.spec_max() ==> r == Ok::<u32, BacklightError>(v))
                && (v > self.spec_max() ==> r == Err::<u32, BacklightError>(BacklightError::Io)),
            level_of(data@) is None ==> r == Err::<u32, BacklightError>(BacklightError::Io),
    {
        match parse_level(data) {
            Some(v) => if v <= self.max {
                Ok(v)
            } else {
                Err(BacklightError::Io)
            },
            None => Err(BacklightError::Io),
        }
    }

    /// The bytes to write to `brightness` for a level: `InvalidArgument`, and
    /// nothing to write, when the level is above the maximum.
    pub fn set_brightness(&self, level: u32) -> (r: Result<Vec<u8>, BacklightError>)
        ensures
            level > self.spec_max() ==> r == Err::<Vec<u8>, BacklightError>(BacklightError::InvalidArgument),
            level <= self.spec_max() ==> (r matches Ok(bytes) && bytes@ == decimal_digits(level as nat)),
    {
        if level > self.max {
            return Err(BacklightError::InvalidArgument);
        }
        Ok(format_level(level))
    }

    /// The bytes to write to `brightness` for a fraction of the maximum:
    /// `InvalidArgument` when the fraction is above the whole.
    pub fn set_brightness_fraction(&self, fraction: u32) -> (r: Result<Vec<u8>, BacklightError>)
        ensures
            fraction > FRACTION_ONE ==> r == Err::<Vec<u8>, BacklightError>(BacklightError::InvalidArgument),
            fraction <= FRACTION_ONE ==> (r matches Ok(bytes)
                && bytes@ == decimal_digits(fraction_level(fraction, self.spec_max()) as nat)),
    {
        match fraction_to_level(fraction, self.max) {
            Ok(level) => self.set_brightness(level),
            Err(e) => Err(e),
        }
    }
}

/// A level up to a backlight's maximum, turned into bytes by
/// `set_brightness` and read back by `get_brightness`, is the same level.
pub proof fn lemma_level_round_trip(b: Backlight, level: u32)
    requires
        level <= b.spec_max(),
    ensures
        level_of(decimal_digits(level as nat)) == Some(level),
{
    crate::decimal::lemma_decimal_round_trip(level as nat);
}

/// A device that holds its level in memory, for running the scheduling logic
/// without hardware. A failing one refuses every read and every write with `Io`.
pub struct MemoryBacklight {
    id: String,
    max: u32,
    level: u32,
    failing: bool,
    writes: Ghost<Seq<u32>>,
}

impl MemoryBacklight {
    #[verifier::type_invariant]
    spec fn level_within_max(&self) -> bool {
        self.level <= self.max
    }

    pub closed spec fn spec_failing(&self) -> bool {
        self.failing
    }

    /// A working device at level 0.
    pub fn new(id: String, max: u32) -> (r: MemoryBacklight)
        ensures
            r.spec_id() == id@,
            r.spec_max() == max,
            r.spec_level() == 0,
            r.spec_writes() == Seq::<u32>::empty(),
            !r.spec_failing(),
    {
        MemoryBacklight { id, max, level: 0, failing: false, writes: Ghost(Seq::empty()) }
    }

    /// A device that fails every read and every write.
    pub fn failing(id: String, max: u32) -> (r: MemoryBacklight)
        ensures
            r.spec_id() == id@,
            r.spec_max() == max,
            r.spec_level() == 0,
            r.spec_writes() == Seq::<u32>::empty(),
            r.spec_failing(),
    {
        MemoryBacklight { id, max, level: 0, failing: true, writes: Ghost(Seq::empty()) }
    }
}

impl Identified for MemoryBacklight {
    closed spec fn spec_id(&self) -> Seq<char> {
        self.id@
    }

    fn id(&self) -> (r: &str) {
        self.id.as_str()
    }
}

impl BacklightController for MemoryBacklight {
    closed spec fn spec_max(&self) -> u32 {
        self.max
    }

    closed spec fn spec_level(&self) -> u32 {
        self.level
    }

    closed spec fn spec_writes(&self) -> Seq<u32> {
        self.writes@
    }

    fn max_brightness(&self) -> (r: u32) {
        self.max
    }

    fn get_brightness(&mut self) -> (r: Result<u32, BacklightError>)
        ensures
            !old(self).spec_failing() ==> r == Ok::<u32, BacklightError>(old(self).spec_level()),
            old(self).spec_failing() ==> r == Err::<u32, BacklightError>(BacklightError::Io),
    {
        proof {
            use_type_invariant(&*self);
        }
        if self.failing {
            Err(BacklightError::Io)
        } else {
            Ok(self.level)
        }
    }

    fn set_brightness(&mut self, level: u32) -> (r: Result<(), BacklightError>)
        ensures
            !old(self).spec_failing() && level <= old(self).spec_max() ==> r is Ok,
            old(self).spec_failing() && level <= old(self).spec_max() ==> r == Err::<(), BacklightError>(BacklightError::Io),
            final(self).spec_failing() == old(self).spec_failing(),
    {
        proof {
            use_type_invariant(&*self);
        }
        if level > self.max {
            return Err(BacklightError::InvalidArgument);
        }
        if self.failing {
            return Err(BacklightError::Io);
        }
        self.level = level;
        self.writes = Ghost(self.writes@.push(level));
        Ok(())
    }
}

} // verus!
