//! The device control interface: which control file stands for which setting,
//! how the raw content of one is read, and what is written to apply a profile.

use crate::error::AppError;
use crate::profile::ProfileConfig;
use crate::profile::ProfileConfigView;
use crate::text::decimal;
use crate::text::decimal_string;
use crate::text::decode_utf8_text;
use crate::text::lemma_decimal_is_injective;
use crate::text::str_eq;
use crate::text::trim;
use crate::text::trimmed;
use crate::text::utf8_decoded;
use vstd::prelude::*;
use vstd::string::*;
use vstd::utf8::*;

verus! {

/// The driver whose turbo control file means "no turbo".
pub const INTEL_PSTATE: &'static str = "intel_pstate";

/// The turbo control file of the `intel_pstate` driver.
pub const NO_TURBO_PATH: &'static str = "/sys/devices/system/cpu/intel_pstate/no_turbo";

/// The turbo control file of every other driver.
pub const BOOST_PATH: &'static str = "/sys/devices/system/cpu/cpufreq/boost";

/// What the path of a processor's governor control file begins with, before its number.
pub const CPU_PATH_PREFIX: &'static str = "/sys/devices/system/cpu/cpu";

/// What the path of a processor's governor control file ends with, after its number.
pub const GOVERNOR_PATH_SUFFIX: &'static str = "/cpufreq/scaling_governor";

/// The two families of frequency-scaling drivers, told apart by how the turbo
/// control file is encoded.
#[derive(Clone, Copy, Debug, PartialEq, Eq, Structural)]
pub enum DriverFamily {
    /// `intel_pstate`: the control file holds "1" where turbo is off.
    IntelPState,
    /// Any other driver: the control file holds "1" where turbo is on.
    Generic,
}

impl DriverFamily {
    /// The family of the driver with the given name.
    pub open spec fn of(driver: Seq<char>) -> DriverFamily {
        if driver == INTEL_PSTATE@ {
            DriverFamily::IntelPState
        } else {
            DriverFamily::Generic
        }
    }

    /// The family of the driver with the given name.
    pub fn from_driver(driver: &str) -> (family: DriverFamily)
        ensures
            family == DriverFamily::of(driver@),
    {
        if str_eq(driver, INTEL_PSTATE) {
            DriverFamily::IntelPState
        } else {
            DriverFamily::Generic
        }
    }

    /// The path of the family's turbo control file.
    pub open spec fn turbo_path(self) -> Seq<char> {
        match self {
            DriverFamily::IntelPState => NO_TURBO_PATH@,
            DriverFamily::Generic => BOOST_PATH@,
        }
    }

    /// The path of the family's turbo control file.
    pub fn turbo_endpoint(self) -> (path: &'static str)
        ensures
            path@ == self.turbo_path(),
    {
        match self {
            DriverFamily::IntelPState => NO_TURBO_PATH,
            DriverFamily::Generic => BOOST_PATH,
        }
    }

    /// The raw flag that stands for a turbo wish: the wish itself, inverted for `intel_pstate`.
    pub open spec fn raw_flag(self, turbo: bool) -> bool {
        match self {
            DriverFamily::IntelPState => !turbo,
            DriverFamily::Generic => turbo,
        }
    }

    /// The text written to the turbo control file for a turbo wish.
    pub open spec fn turbo_text(self, turbo: bool) -> Seq<char> {
        if self.raw_flag(turbo) {
            seq!['1']
        } else {
            seq!['0']
        }
    }

    /// The turbo state that the trimmed content of the turbo control file stands for.
    /// Content other than "0" and "1" counts as turbo on.
    pub open spec fn turbo_of_text(self, text: Seq<char>) -> bool {
        if text == seq!['0'] {
            self == DriverFamily::IntelPState
        } else if text == seq!['1'] {
            self != DriverFamily::IntelPState
        } else {
            true
        }
    }
}

/// What the control files held when they were read: the bytes of each, and
/// `None` for one that could not be read.
#[derive(Debug, PartialEq, Eq)]
pub struct DeviceReadings {
    /// The content of [`NO_TURBO_PATH`].
    pub no_turbo: Option<Vec<u8>>,
    /// The content of [`BOOST_PATH`].
    pub boost: Option<Vec<u8>>,
    /// The content of the governor control file of processor 0.
    pub governor: Option<Vec<u8>>,
}

/// [`DeviceReadings`] as plain values.
pub struct DeviceReadingsView {
    pub no_turbo: Option<Seq<u8>>,
    pub boost: Option<Seq<u8>>,
    pub governor: Option<Seq<u8>>,
}

/// The bytes that were read, if any were.
pub open spec fn content_view(content: Option<Vec<u8>>) -> Option<Seq<u8>> {
    match content {
        Some(bytes) => Some(bytes@),
        None => None,
    }
}

impl View for DeviceReadings {
    type V = DeviceReadingsView;

    open spec fn view(&self) -> DeviceReadingsView {
        DeviceReadingsView {
            no_turbo: content_view(self.no_turbo),
            boost: content_view(self.boost),
            governor: content_view(self.governor),
        }
    }
}

impl DeviceReadingsView {
    /// The content of the turbo control file of a driver family.
    pub open spec fn turbo_content(self, family: DriverFamily) -> Option<Seq<u8>> {
        match family {
            DriverFamily::IntelPState => self.no_turbo,
            DriverFamily::Generic => self.boost,
        }
    }
}

/// The text of a control file: its content read as UTF-8 and trimmed. A file
/// that could not be read, or that does not hold UTF-8, is a read failure.
pub open spec fn content_text(content: Option<Seq<u8>>) -> Result<Seq<char>, AppError> {
    match content {
        None => Err(AppError::DeviceReadFailure),
        Some(bytes) => match utf8_decoded(bytes) {
            None => Err(AppError::DeviceReadFailure),
            Some(text) => Ok(trimmed(text)),
        },
    }
}

/// The turbo state that the content of a family's turbo control file stands for.
pub open spec fn turbo_state(family: DriverFamily, content: Option<Seq<u8>>) -> Result<
    bool,
    AppError,
> {
    match content_text(content) {
        Ok(text) => Ok(family.turbo_of_text(text)),
        Err(e) => Err(e),
    }
}

/// The trimmed text of a control file, as a string slice.
fn read_text(content: &Option<Vec<u8>>) -> (text: Result<&str, AppError>)
    ensures
        match content_text(content_view(*content)) {
            Ok(t) => text is Ok && text.unwrap()@ == t,
            Err(e) => text == Err::<&str, AppError>(e),
        },
{
    match content {
        None => Err(AppError::DeviceReadFailure),
        Some(bytes) => match decode_utf8_text(bytes.as_slice()) {
            None => Err(AppError::DeviceReadFailure),
            Some(text) => Ok(trim(text)),
        },
    }
}

/// Whether turbo boost is on, for the given driver: the content of the
/// driver's turbo control file, trimmed, with "0" and "1" read the way the
/// driver's family encodes them and anything else read as on.
pub fn read_turbo_state(device: &DeviceReadings, driver: &str) -> (state: Result<bool, AppError>)
    ensures
        state == turbo_state(
            DriverFamily::of(driver@),
            device@.turbo_content(DriverFamily::of(driver@)),
        ),
{
    let family = DriverFamily::from_driver(driver);
    let content = match family {
        DriverFamily::IntelPState => &device.no_turbo,
        DriverFamily::Generic => &device.boost,
    };
    match read_text(content) {
        Err(e) => Err(e),
        Ok(output) => {
            proof {
                reveal_strlit("0");
                reveal_strlit("1");
                assert("0"@ =~= seq!['0']);
                assert("1"@ =~= seq!['1']);
            }
            let state = if str_eq(output, "0") {
                family == DriverFamily::IntelPState
            } else if str_eq(output, "1") {
                family != DriverFamily::IntelPState
            } else {
                true
            };
            Ok(state)
        },
    }
}

/// The governor of processor 0: the trimmed text of its governor control file.
pub fn read_governor_state(device: &DeviceReadings) -> (state: Result<String, AppError>)
    ensures
        match content_text(device@.governor) {
            Ok(text) => state is Ok && state.unwrap()@ == text,
            Err(e) => state == Err::<String, AppError>(e),
        },
{
    match read_text(&device.governor) {
        Err(e) => Err(e),
        Ok(output) => Ok(String::from_str(output)),
    }
}

/// One write to a control file: the whole of `data` goes to the file at `path`.
#[derive(Debug, PartialEq, Eq)]
pub struct DeviceWrite {
    pub path: String,
    pub data: String,
}

/// A [`DeviceWrite`] as plain values.
pub struct DeviceWriteView {
    pub path: Seq<char>,
    pub data: Seq<char>,
}

impl View for DeviceWrite {
    type V = DeviceWriteView;

    open spec fn view(&self) -> DeviceWriteView {
        DeviceWriteView { path: self.path@, data: self.data@ }
    }
}

/// A sequence of writes as plain values, in the same order.
pub open spec fn views_of(writes: Seq<DeviceWrite>) -> Seq<DeviceWriteView> {
    writes.map_values(|w: DeviceWrite| w@)
}

/// The write that sets turbo boost as a profile wants it.
pub open spec fn turbo_write(config: ProfileConfigView) -> DeviceWriteView {
    let family = DriverFamily::of(config.driver);
    DeviceWriteView { path: family.turbo_path(), data: family.turbo_text(config.turbo) }
}

/// The write that sets turbo boost as the profile wants it: "0" or "1" to the
/// turbo control file of the profile's driver, inverted for `intel_pstate`.
pub fn write_turbo_state(profile: &ProfileConfig) -> (write: DeviceWrite)
    ensures
        write@ == turbo_write(profile@),
{
    let family = DriverFamily::from_driver(profile.driver.as_str());
    let raw = match family {
        DriverFamily::IntelPState => !profile.turbo,
        DriverFamily::Generic => profile.turbo,
    };
    proof {
        reveal_strlit("0");
        reveal_strlit("1");
        assert("0"@ =~= seq!['0']);
        assert("1"@ =~= seq!['1']);
    }
    let data = if raw {
        "1"
    } else {
        "0"
    };
    DeviceWrite { path: String::from_str(family.turbo_endpoint()), data: String::from_str(data) }
}

/// The path of the governor control file of the processor with the given number.
pub open spec fn governor_path(cpu: nat) -> Seq<char> {
    CPU_PATH_PREFIX@ + decimal(cpu) + GOVERNOR_PATH_SUFFIX@
}

/// The path of the governor control file of the processor with the given number.
pub fn governor_endpoint(cpu: usize) -> (path: String)
    ensures
        path@ == governor_path(cpu as nat),
{
    let mut path = String::from_str(CPU_PATH_PREFIX);
    let number = decimal_string(cpu);
    path.append(number.as_str());
    path.append(GOVERNOR_PATH_SUFFIX);
    path
}

/// The writes that set one governor on processors `0` to `cpus - 1`, in that order.
pub open spec fn governor_fan_out(governor: Seq<char>, cpus: nat) -> Seq<DeviceWriteView> {
    Seq::new(cpus, |i: int| DeviceWriteView { path: governor_path(i as nat), data: governor })
}

/// The writes that set `governor` on each of `cpus` processors: one write
/// for each, to its governor control file, in the order of their numbers.
pub fn governor_writes(governor: &str, cpus: usize) -> (writes: Vec<DeviceWrite>)
    ensures
        views_of(writes@) == governor_fan_out(governor@, cpus as nat),
        writes@.len() == cpus,
        forall|i: int|
            0 <= i < cpus ==> (#[trigger] writes@[i])@.path == governor_path(i as nat)
                && writes@[i]@.data == governor@,
{
    let mut writes: Vec<DeviceWrite> = Vec::new();
    let mut i: usize = 0;
    while i < cpus
        invariant
            i <= cpus,
            views_of(writes@) == governor_fan_out(governor@, i as nat),
        decreases cpus - i,
    {
        let write = DeviceWrite { path: governor_endpoint(i), data: String::from_str(governor) };
        let ghost before = writes@;
        writes.push(write);
        proof {
            assert(views_of(writes@) =~= views_of(before).push(write@));
            assert(governor_fan_out(governor@, (i + 1) as nat) =~= governor_fan_out(
                governor@,
                i as nat,
            ).push(write@));
        }
        i += 1;
    }
    proof {
        assert forall|i: int| 0 <= i < cpus implies (#[trigger] writes@[i])@.path == governor_path(
            i as nat,
        ) && writes@[i]@.data == governor@ by {
            assert(views_of(writes@)[i] == writes@[i]@);
        }
    }
    writes
}

/// `num_cpus::get`: the number of logical processors available to the
/// process. Its documentation promises that the number is at least 1, and
/// that is all that is claimed of it: which number it is depends on the machine.
pub assume_specification[ num_cpus::get ]() -> (cpus: usize)
    ensures
        cpus >= 1,
;

/// The writes that set the profile's governor on every logical processor of
/// the machine: as [`governor_writes`], for as many processors as the
/// operating system reports. There is at least one processor, so the first
/// write is to the governor control file of processor 0.
pub fn write_governor_state(profile: &ProfileConfig) -> (writes: Vec<DeviceWrite>)
    ensures
        writes@.len() >= 1,
        views_of(writes@) == governor_fan_out(profile@.governor, writes@.len()),
        forall|i: int|
            0 <= i < writes@.len() ==> (#[trigger] writes@[i])@.path == governor_path(i as nat)
                && writes@[i]@.data == profile@.governor,
{
    let cpus = num_cpus::get();
    governor_writes(profile.governor.as_str(), cpus)
}

/// Reading back what was written for a turbo wish gives the wish, for either
/// family of drivers: where the turbo control file of a profile's driver
/// holds the bytes of the profile's turbo write, the turbo state read for
/// that driver is the profile's.
pub proof fn lemma_turbo_round_trip(config: ProfileConfigView, device: DeviceReadingsView)
    requires
        device.turbo_content(DriverFamily::of(config.driver)) == Some(
            encode_utf8(turbo_write(config).data),
        ),
    ensures
        turbo_state(
            DriverFamily::of(config.driver),
            device.turbo_content(DriverFamily::of(config.driver)),
        ) == Ok::<bool, AppError>(config.turbo),
{
    let text = turbo_write(config).data;
    assert(trimmed(text) == text) by {
        reveal_with_fuel(crate::text::trim_start, 2);
        reveal_with_fuel(crate::text::trim_end, 2);
    }
    encode_utf8_valid_utf8(text);
    encode_utf8_decode_utf8(text);
}

/// The governor control files of two different processors are two different files.
pub proof fn lemma_governor_paths_distinct(a: nat, b: nat)
    requires
        a != b,
    ensures
        governor_path(a) != governor_path(b),
{
    let head = CPU_PATH_PREFIX@;
    let tail = GOVERNOR_PATH_SUFFIX@;
    if governor_path(a) == governor_path(b) {
        let x = decimal(a);
        let y = decimal(b);
        assert((head + x + tail).len() == (head + y + tail).len());
        assert(x.len() == y.len());
        assert forall|i: int| 0 <= i < x.len() implies x[i] == y[i] by {
            assert((head + x + tail)[head.len() + i] == x[i]);
            assert((head + y + tail)[head.len() + i] == y[i]);
        }
        assert(x =~= y);
        lemma_decimal_is_injective(a, b);
    }
}

/// A fan-out writes once to each processor: as many writes as processors,
/// the write at each place to the governor control file of the processor of
/// that number, all with the same governor, no two to the same file.
pub proof fn lemma_fan_out_complete(governor: Seq<char>, cpus: nat)
    ensures
        governor_fan_out(governor, cpus).len() == cpus,
        forall|i: int|
            0 <= i < cpus ==> (#[trigger] governor_fan_out(governor, cpus)[i]).path
                == governor_path(i as nat) && governor_fan_out(governor, cpus)[i].data == governor,
        forall|i: int, j: int|
            0 <= i < j < cpus ==> (#[trigger] governor_fan_out(governor, cpus)[i]).path != (
            #[trigger] governor_fan_out(governor, cpus)[j]).path,
{
    assert forall|i: int, j: int| 0 <= i < j < cpus implies (#[trigger] governor_fan_out(
        governor,
        cpus,
    )[i]).path != (#[trigger] governor_fan_out(governor, cpus)[j]).path by {
        lemma_governor_paths_distinct(i as nat, j as nat);
    }
}

} // verus!
