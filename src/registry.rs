//! The devices under control, and one application of a target to all of them.
use vstd::prelude::*;
use crate::device::{Backlight, BacklightController, BacklightError, Identified, FRACTION_ONE, fraction_level};
use crate::decimal::decimal_digits;

verus! {

/// No two devices share an identifier.
pub open spec fn ids_unique<C: Identified>(s: Seq<C>) -> bool {
    forall|i: int, j: int| 0 <= i < j < s.len() ==> s[i].spec_id() != s[j].spec_id()
}

/// Whether a device with identifier `id` is among `s`.
pub open spec fn has_id<C: Identified>(s: Seq<C>, id: Seq<char>) -> bool {
    exists|j: int| 0 <= j < s.len() && s[j].spec_id() == id
}

/// The devices that discovery keeps from the probe results: each device that
/// was built, in order, unless an earlier kept one has its identifier.
pub open spec fn kept<C: Identified>(probes: Seq<Result<C, BacklightError>>) -> Seq<C>
    decreases probes.len(),
{
    if probes.len() == 0 {
        Seq::empty()
    } else {
        let k = kept(probes.drop_last());
        match probes.last() {
            Ok(c) => if has_id(k, c.spec_id()) { k } else { k.push(c) },
            Err(_) => k,
        }
    }
}

/// The positions of the probes that failed, in order.
pub open spec fn failed_probes<C>(probes: Seq<Result<C, BacklightError>>) -> Seq<usize>
    decreases probes.len(),
{
    if probes.len() == 0 {
        Seq::empty()
    } else {
        let f = failed_probes(probes.drop_last());
        if probes.last() is Err {
            f.push((probes.len() - 1) as usize)
        } else {
            f
        }
    }
}

/// How one device stands after a fraction was applied to it: moved to the
/// level of that fraction with one write when `ok`, untouched otherwise.
pub open spec fn applied<C: BacklightController>(before: C, after: C, fraction: u32, ok: bool) -> bool {
    &&& after.spec_id() == before.spec_id()
    &&& after.spec_max() == before.spec_max()
    &&& ok ==> after.spec_level() == fraction_level(fraction, before.spec_max())
        && after.spec_writes() == before.spec_writes().push(fraction_level(fraction, before.spec_max()) as u32)
    &&& !ok ==> after.spec_level() == before.spec_level() && after.spec_writes() == before.spec_writes()
}

/// Whether the device at position `i` is named in a failure report.
pub open spec fn reported(report: Seq<(usize, BacklightError)>, i: int) -> bool {
    exists|k: int| 0 <= k < report.len() && report[k].0 == i
}

/// Appending at most one entry for position `i` to a report whose entries
/// all name earlier positions leaves the earlier positions as they were, and
/// names `i` exactly when an entry was appended.
proof fn lemma_report_step(before: Seq<(usize, BacklightError)>, after: Seq<(usize, BacklightError)>, i: int)
    requires
        forall|k: int| 0 <= k < before.len() ==> before[k].0 < i,
        before.len() <= after.len() <= before.len() + 1,
        forall|k: int| 0 <= k < before.len() ==> after[k] == before[k],
        after.len() > before.len() ==> after[before.len() as int].0 == i,
    ensures
        forall|m: int| 0 <= m < i ==> reported(after, m) == reported(before, m),
        reported(after, i) == (after.len() > before.len()),
{
    assert forall|m: int| 0 <= m < i implies reported(after, m) == reported(before, m) by {
        if reported(after, m) {
            let k = choose|k: int| 0 <= k < after.len() && after[k].0 == m;
            if k < before.len() {
                assert(before[k].0 == m);
            }
        }
        if reported(before, m) {
            let k = choose|k: int| 0 <= k < before.len() && before[k].0 == m;
            assert(after[k].0 == m);
        }
    }
    if after.len() > before.len() {
        assert(after[before.len() as int].0 == i);
    } else {
        assert forall|k: int| 0 <= k < after.len() implies after[k].0 != i by {
            assert(after[k] == before[k]);
        }
    }
}

/// The devices found at startup, in the order they were found.
pub struct DeviceRegistry<C: Identified> {
    devices: Vec<C>,
}

/// Whether a device with identifier `id` is among `devices`.
fn contains_id<C: Identified>(devices: &Vec<C>, id: &str) -> (r: bool)
    ensures
        r == has_id(devices@, id@),
{
    let wanted = id.to_owned();
    let mut j: usize = 0;
    while j < devices.len()
        invariant
            0 <= j <= devices@.len(),
            wanted@ == id@,
            forall|m: int| 0 <= m < j ==> devices@[m].spec_id() != id@,
        decreases devices@.len() - j,
    {
        let other = devices[j].id().to_owned();
        if other == wanted {
            return true;
        }
        j += 1;
    }
    false
}

impl<C: Identified> DeviceRegistry<C> {
    pub closed spec fn spec_devices(&self) -> Seq<C> {
        self.devices@
    }

    /// Builds the registry from the results of probing each hardware entry, in
    /// order. A failed probe is skipped and its position reported; the
    /// registry may end up empty.
    pub fn discover(probes: Vec<Result<C, BacklightError>>) -> (r: (DeviceRegistry<C>, Vec<usize>))
        ensures
            r.0.spec_devices() == kept(probes@),
            r.1@ == failed_probes(probes@),
            ids_unique(r.0.spec_devices()),
    {
        let ghost all = probes@;
        let mut rest = probes;
        let total = rest.len();
        let mut devices: Vec<C> = Vec::new();
        let mut failed: Vec<usize> = Vec::new();
        let mut i: usize = 0;
        while rest.len() > 0
            invariant
                i + rest@.len() == all.len(),
                all.len() == total,
                rest@ == all.subrange(i as int, all.len() as int),
                devices@ == kept(all.take(i as int)),
                failed@ == failed_probes(all.take(i as int)),
                ids_unique(devices@),
            decreases rest@.len(),
        {
            let probe = rest.remove(0);
            proof {
                assert(all.take(i + 1).drop_last() =~= all.take(i as int));
                assert(all.take(i + 1).last() == probe);
            }
            match probe {
                Ok(dev) => {
                    let present = contains_id(&devices, dev.id());
                    if !present {
                        devices.push(dev);
                    }
                },
                Err(_) => {
                    failed.push(i);
                },
            }
            i += 1;
        }
        proof {
            assert(all.take(i as int) =~= all);
        }
        (DeviceRegistry { devices }, failed)
    }

    /// The number of devices.
    pub fn len(&self) -> (r: usize)
        ensures
            r == self.spec_devices().len(),
    {
        self.devices.len()
    }

    /// The device at position `i`.
    pub fn device(&self, i: usize) -> (r: &C)
        requires
            i < self.spec_devices().len(),
        ensures
            *r == self.spec_devices()[i as int],
    {
        &self.devices[i]
    }

    /// Hands the devices out, in order.
    pub fn into_devices(self) -> (r: Vec<C>)
        ensures
            r@ == self.spec_devices(),
    {
        self.devices
    }

}

impl<C: BacklightController> DeviceRegistry<C> {
    /// One tick: sets every device to `fraction` of its maximum. A device that
    /// fails is named once in the report, with its error, and the others are
    /// set all the same.
    pub fn apply(&mut self, fraction: u32) -> (report: Vec<(usize, BacklightError)>)
        ensures
            final(self).spec_devices().len() == old(self).spec_devices().len(),
            forall|i: int| 0 <= i < old(self).spec_devices().len() ==> applied(
                old(self).spec_devices()[i],
                #[trigger] final(self).spec_devices()[i],
                fraction,
                !reported(report@, i),
            ),
            forall|k: int, m: int| 0 <= k < m < report@.len() ==> report@[k].0 < report@[m].0,
            forall|k: int| 0 <= k < report@.len() ==> report@[k].0 < old(self).spec_devices().len(),
            fraction > FRACTION_ONE ==> report@.len() == old(self).spec_devices().len(),
            fraction > FRACTION_ONE ==> forall|k: int| 0 <= k < report@.len()
                ==> report@[k].1 == BacklightError::InvalidArgument,
            fraction <= FRACTION_ONE ==> forall|k: int| 0 <= k < report@.len()
                ==> report@[k].1 == BacklightError::Io,
    {
        let ghost all = self.devices@;
        let mut rest: Vec<C> = Vec::new();
        std::mem::swap(&mut rest, &mut self.devices);
        let total = rest.len();
        let mut done: Vec<C> = Vec::new();
        let mut report: Vec<(usize, BacklightError)> = Vec::new();
        let mut i: usize = 0;
        while rest.len() > 0
            invariant
                i + rest@.len() == all.len(),
                all.len() == total,
                done@.len() == i,
                rest@ == all.subrange(i as int, all.len() as int),
                forall|m: int| 0 <= m < i ==> applied(all[m], #[trigger] done@[m], fraction, !reported(report@, m)),
                forall|k: int, m: int| 0 <= k < m < report@.len() ==> report@[k].0 < report@[m].0,
                forall|k: int| 0 <= k < report@.len() ==> report@[k].0 < i,
                fraction > FRACTION_ONE ==> report@.len() == i,
                fraction > FRACTION_ONE ==> forall|k: int| 0 <= k < report@.len()
                    ==> report@[k].1 == BacklightError::InvalidArgument,
                fraction <= FRACTION_ONE ==> forall|k: int| 0 <= k < report@.len()
                    ==> report@[k].1 == BacklightError::Io,
            decreases rest@.len(),
        {
            let mut dev = rest.remove(0);
            proof {
                assert(dev == all[i as int]);
            }
            let ghost before_report = report@;
            match dev.set_brightness_fraction(fraction) {
                Ok(()) => {},
                Err(e) => {
                    report.push((i, e));
                },
            }
            proof {
                lemma_report_step(before_report, report@, i as int);
            }
            done.push(dev);
            i += 1;
        }
        self.devices = done;
        report
    }
}

/// Whether the write planned for position `i` went through.
pub open spec fn written_at(written: Seq<bool>, i: int) -> bool {
    i < written.len() && written[i]
}

impl DeviceRegistry<Backlight> {
    /// The first half of a tick on sysfs backlights: for each device, in
    /// order, the bytes to write to its `brightness` value for `fraction` of
    /// its maximum, or `InvalidArgument` when the fraction is above the whole.
    pub fn plan(&self, fraction: u32) -> (r: Vec<Result<Vec<u8>, BacklightError>>)
        ensures
            r@.len() == self.spec_devices().len(),
            forall|i: int| 0 <= i < r@.len() ==> ((#[trigger] r@[i]) is Ok <==> fraction <= FRACTION_ONE),
            forall|i: int| 0 <= i < r@.len() ==> ((#[trigger] r@[i]) matches Ok(bytes)
                ==> bytes@ == decimal_digits(fraction_level(fraction, self.spec_devices()[i].spec_max()) as nat)),
            forall|i: int| 0 <= i < r@.len() ==> ((#[trigger] r@[i]) matches Err(e) ==> e == BacklightError::InvalidArgument),
    {
        let mut r: Vec<Result<Vec<u8>, BacklightError>> = Vec::new();
        let mut i: usize = 0;
        while i < self.devices.len()
            invariant
                0 <= i <= self.devices@.len(),
                r@.len() == i,
                forall|j: int| 0 <= j < i ==> ((#[trigger] r@[j]) is Ok <==> fraction <= FRACTION_ONE),
                forall|j: int| 0 <= j < i ==> ((#[trigger] r@[j]) matches Ok(bytes)
                    ==> bytes@ == decimal_digits(fraction_level(fraction, self.devices@[j].spec_max()) as nat)),
                forall|j: int| 0 <= j < i ==> ((#[trigger] r@[j]) matches Err(e) ==> e == BacklightError::InvalidArgument),
            decreases self.devices@.len() - i,
        {
            let planned = self.devices[i].set_brightness_fraction(fraction);
            r.push(planned);
            i += 1;
        }
        r
    }

    /// The second half of a tick: from what `plan` gave and whether each
    /// planned write went through (a missing outcome counts as failed), the
    /// failures to report. Each failing device is named once, in order: with
    /// its planning error, or with `Io` when its write failed; a device whose
    /// write went through is not named.
    pub fn report(planned: &Vec<Result<Vec<u8>, BacklightError>>, written: &Vec<bool>) -> (r: Vec<(usize, BacklightError)>)
        ensures
            forall|k: int, m: int| 0 <= k < m < r@.len() ==> r@[k].0 < r@[m].0,
            forall|k: int| 0 <= k < r@.len() ==> r@[k].0 < planned@.len(),
            forall|i: int| 0 <= i < planned@.len() ==> (reported(r@, i) <==> ((#[trigger] planned@[i]) is Err || !written_at(written@, i))),
            forall|k: int| 0 <= k < r@.len() ==> (planned@[(#[trigger] r@[k]).0 as int] matches Err(e) ==> r@[k].1 == e),
            forall|k: int| 0 <= k < r@.len() ==> (planned@[(#[trigger] r@[k]).0 as int] is Ok ==> r@[k].1 == BacklightError::Io),
    {
        let mut r: Vec<(usize, BacklightError)> = Vec::new();
        let mut i: usize = 0;
        while i < planned.len()
            invariant
                0 <= i <= planned@.len(),
                forall|k: int, m: int| 0 <= k < m < r@.len() ==> r@[k].0 < r@[m].0,
                forall|k: int| 0 <= k < r@.len() ==> r@[k].0 < i,
                forall|j: int| 0 <= j < i ==> (reported(r@, j) <==> ((#[trigger] planned@[j]) is Err || !written_at(written@, j))),
                forall|k: int| 0 <= k < r@.len() ==> (planned@[(#[trigger] r@[k]).0 as int] matches Err(e) ==> r@[k].1 == e),
                forall|k: int| 0 <= k < r@.len() ==> (planned@[(#[trigger] r@[k]).0 as int] is Ok ==> r@[k].1 == BacklightError::Io),
            decreases planned@.len() - i,
        {
            let ghost before = r@;
            match &planned[i] {
                Err(e) => {
                    r.push((i, *e));
                },
                Ok(_) => {
                    let ok = i < written.len() && written[i];
                    if !ok {
                        r.push((i, BacklightError::Io));
                    }
                },
            }
            proof {
                lemma_report_step(before, r@, i as int);
            }
            i += 1;
        }
        r
    }
}

} // verus!
