//! Profiles: what each one asks of the hardware, and the set of them.

use crate::error::AppError;
pub use crate::profile_set::Profiles;
use crate::sysfs_interface::content_text;
use crate::sysfs_interface::governor_fan_out;
use crate::sysfs_interface::read_governor_state;
use crate::sysfs_interface::read_turbo_state;
use crate::sysfs_interface::turbo_state;
use crate::sysfs_interface::turbo_write;
use crate::sysfs_interface::views_of;
use crate::sysfs_interface::write_governor_state;
use crate::sysfs_interface::write_turbo_state;
use crate::sysfs_interface::DeviceReadings;
use crate::sysfs_interface::DeviceReadingsView;
use crate::sysfs_interface::DeviceWrite;
use crate::sysfs_interface::DeviceWriteView;
use crate::sysfs_interface::DriverFamily;
use vstd::prelude::*;
use vstd::string::*;

verus! {

/// The hardware settings that one profile asks for.
#[derive(Debug, PartialEq, Eq)]
pub struct ProfileConfig {
    /// The frequency-scaling driver that was in effect when the profile was captured.
    pub driver: String,
    /// Whether turbo boost is wanted, whatever encoding the driver uses.
    pub turbo: bool,
    /// The scaling governor that is wanted.
    pub governor: String,
}

/// A [`ProfileConfig`] as plain values.
pub struct ProfileConfigView {
    pub driver: Seq<char>,
    pub turbo: bool,
    pub governor: Seq<char>,
}

impl View for ProfileConfig {
    type V = ProfileConfigView;

    open spec fn view(&self) -> ProfileConfigView {
        ProfileConfigView { driver: self.driver@, turbo: self.turbo, governor: self.governor@ }
    }
}

impl Clone for ProfileConfig {
    fn clone(&self) -> (copy: Self)
        ensures
            copy@ == self@,
    {
        ProfileConfig {
            driver: self.driver.clone(),
            turbo: self.turbo,
            governor: self.governor.clone(),
        }
    }
}

/// The writes that apply a profile on a machine with `cpus` logical
/// processors: first turbo, then the governor of each processor.
pub open spec fn profile_writes(config: ProfileConfigView, cpus: nat) -> Seq<DeviceWriteView> {
    seq![turbo_write(config)] + governor_fan_out(config.governor, cpus)
}

impl ProfileConfig {
    /// A profile with the given driver, turbo wish and governor.
    pub fn new(driver: String, turbo: bool, governor: String) -> (config: Self)
        ensures
            config.driver == driver,
            config.turbo == turbo,
            config.governor == governor,
    {
        Self { driver, turbo, governor }
    }

    /// The writes that apply the profile on this machine: the turbo write,
    /// then one governor write for each logical processor.
    pub fn apply_profile(&self) -> (writes: Vec<DeviceWrite>)
        ensures
            writes@.len() >= 1,
            views_of(writes@) == profile_writes(self@, (writes@.len() - 1) as nat),
    {
        let mut writes: Vec<DeviceWrite> = Vec::new();
        let turbo = write_turbo_state(self);
        let mut governor = write_governor_state(self);
        proof {
            assert(views_of(seq![turbo] + governor@) =~= seq![turbo@] + views_of(governor@));
            assert(seq![turbo] + governor@ =~= Seq::<DeviceWrite>::empty().push(turbo) + governor@);
        }
        writes.push(turbo);
        writes.append(&mut governor);
        writes
    }
}

/// Whether `writes` is what applying the profile named `name` asks for: the
/// profile's writes, for as many processors as there are governor writes; no
/// write at all where the set has no profile of that name.
pub open spec fn applies(
    profiles: Map<Seq<char>, ProfileConfigView>,
    name: Seq<char>,
    writes: Seq<DeviceWriteView>,
) -> bool {
    if profiles.contains_key(name) {
        writes.len() >= 1 && writes == profile_writes(profiles[name], (writes.len() - 1) as nat)
    } else {
        writes.len() == 0
    }
}

/// The writes that apply the profile of the given name. A name that the set
/// does not have is passed over: nothing is written.
pub fn apply(profiles: &Profiles, name: &str) -> (writes: Vec<DeviceWrite>)
    ensures
        applies(profiles@, name@, views_of(writes@)),
        !profiles@.contains_key(name@) ==> writes@.len() == 0,
{
    match profiles.get(name) {
        Some(profile) => profile.apply_profile(),
        None => Vec::new(),
    }
}

/// The governor given to a profile where the governor control file cannot be read.
pub const DEFAULT_GOVERNOR: &'static str = "ondemand";

/// One record of the bus service's list of profiles: the two properties that
/// the daemon reads, each `None` where the record lacks it or holds no string there.
#[derive(Debug, PartialEq, Eq)]
pub struct BusRecord {
    /// The property `Profile`: the profile's name.
    pub profile: Option<String>,
    /// The property `Driver`: the driver in effect.
    pub driver: Option<String>,
}

/// A [`BusRecord`] as plain values.
pub struct BusRecordView {
    pub profile: Option<Seq<char>>,
    pub driver: Option<Seq<char>>,
}

/// The characters of a text that may be missing.
pub open spec fn text_view(text: Option<String>) -> Option<Seq<char>> {
    match text {
        Some(t) => Some(t@),
        None => None,
    }
}

impl View for BusRecord {
    type V = BusRecordView;

    open spec fn view(&self) -> BusRecordView {
        BusRecordView { profile: text_view(self.profile), driver: text_view(self.driver) }
    }
}

impl BusRecordView {
    /// Whether the record has both a name and a driver.
    pub open spec fn complete(self) -> bool {
        self.profile is Some && self.driver is Some
    }
}

/// What was taken from outside to derive the first set of profiles.
#[derive(Debug, PartialEq, Eq)]
pub struct Snapshot {
    /// The bus service's list of profiles, `None` where it could not be had.
    pub records: Option<Vec<BusRecord>>,
    /// The control files as they were read.
    pub device: DeviceReadings,
}

/// A [`Snapshot`] as plain values.
pub struct SnapshotView {
    pub records: Option<Seq<BusRecordView>>,
    pub device: DeviceReadingsView,
}

/// A list of records as plain values, in the same order.
pub open spec fn records_view(records: Seq<BusRecord>) -> Seq<BusRecordView> {
    records.map_values(|r: BusRecord| r@)
}

impl View for Snapshot {
    type V = SnapshotView;

    open spec fn view(&self) -> SnapshotView {
        SnapshotView {
            records: match self.records {
                Some(list) => Some(records_view(list@)),
                None => None,
            },
            device: self.device@,
        }
    }
}

/// The profile captured from the hardware for a driver: turbo and governor as
/// the control files give them, turbo on where its file gives nothing, and
/// the default governor where the governor's file gives nothing.
pub open spec fn captured_config(driver: Seq<char>, device: DeviceReadingsView) -> ProfileConfigView {
    let family = DriverFamily::of(driver);
    ProfileConfigView {
        driver,
        turbo: match turbo_state(family, device.turbo_content(family)) {
            Ok(turbo) => turbo,
            Err(_) => true,
        },
        governor: match content_text(device.governor) {
            Ok(governor) => governor,
            Err(_) => DEFAULT_GOVERNOR@,
        },
    }
}

/// The mapping derived from a list of complete records: each name with the
/// profile captured for its driver, the last record of a name deciding.
pub open spec fn bootstrap_map(records: Seq<BusRecordView>, device: DeviceReadingsView) -> Map<
    Seq<char>,
    ProfileConfigView,
>
    decreases records.len(),
{
    if records.len() == 0 {
        Map::empty()
    } else {
        bootstrap_map(records.drop_last(), device).insert(
            records.last().profile.unwrap(),
            captured_config(records.last().driver.unwrap(), device),
        )
    }
}

/// The first set of profiles that a snapshot gives: none where the list
/// could not be had, is empty, or has a record that is not complete.
pub open spec fn initial_profiles(snapshot: SnapshotView) -> Option<
    Map<Seq<char>, ProfileConfigView>,
> {
    match snapshot.records {
        None => None,
        Some(records) => if records.len() == 0 || exists|i: int|
            0 <= i < records.len() && !(#[trigger] records[i]).complete() {
            None
        } else {
            Some(bootstrap_map(records, snapshot.device))
        },
    }
}

/// Every profile of a derived mapping was captured for the driver of a
/// record of its name, and every record's name is in the mapping.
pub proof fn lemma_bootstrap_entries(
    records: Seq<BusRecordView>,
    device: DeviceReadingsView,
    name: Seq<char>,
)
    requires
        forall|i: int| 0 <= i < records.len() ==> (#[trigger] records[i]).complete(),
    ensures
        bootstrap_map(records, device).contains_key(name) <==> exists|i: int|
            0 <= i < records.len() && (#[trigger] records[i]).profile == Some(name),
        bootstrap_map(records, device).contains_key(name) ==> exists|i: int|
            0 <= i < records.len() && (#[trigger] records[i]).profile == Some(name)
                && bootstrap_map(records, device)[name] == captured_config(
                records[i].driver.unwrap(),
                device,
            ),
    decreases records.len(),
{
    if records.len() > 0 {
        let front = records.drop_last();
        let last = records.len() - 1;
        assert forall|i: int| 0 <= i < front.len() implies (#[trigger] front[i]).complete() by {
            assert(front[i] == records[i]);
        }
        lemma_bootstrap_entries(front, device, name);
        if records[last].profile == Some(name) {
            assert(records[last].profile == Some(name) && bootstrap_map(records, device)[name]
                == captured_config(records[last].driver.unwrap(), device));
        } else {
            if bootstrap_map(records, device).contains_key(name) {
                let i = choose|i: int|
                    0 <= i < front.len() && (#[trigger] front[i]).profile == Some(name)
                        && bootstrap_map(front, device)[name] == captured_config(
                        front[i].driver.unwrap(),
                        device,
                    );
                assert(records[i].profile == Some(name) && bootstrap_map(records, device)[name]
                    == captured_config(records[i].driver.unwrap(), device));
            }
            if exists|i: int| 0 <= i < records.len() && (#[trigger] records[i]).profile == Some(name) {
                let i = choose|i: int|
                    0 <= i < records.len() && (#[trigger] records[i]).profile == Some(name);
                assert(front[i].profile == Some(name));
            }
        }
    }
}

/// A profile derived from the hardware falls back on the defaults: turbo is
/// on where the turbo control file of its driver gives no state, and the
/// governor is the default one where the governor control file gives no text.
pub proof fn lemma_bootstrap_defaults(snapshot: SnapshotView, name: Seq<char>)
    requires
        initial_profiles(snapshot) is Some,
        initial_profiles(snapshot).unwrap().contains_key(name),
    ensures
        ({
            let config = initial_profiles(snapshot).unwrap()[name];
            let family = DriverFamily::of(config.driver);
            &&& turbo_state(family, snapshot.device.turbo_content(family)) is Err ==> config.turbo
            &&& content_text(snapshot.device.governor) is Err ==> config.governor
                == DEFAULT_GOVERNOR@
        }),
{
    let records = snapshot.records.unwrap();
    assert forall|i: int| 0 <= i < records.len() implies (#[trigger] records[i]).complete() by {}
    lemma_bootstrap_entries(records, snapshot.device, name);
}

/// The profile captured from the hardware for a driver.
pub fn capture_config(driver: &str, device: &DeviceReadings) -> (config: ProfileConfig)
    ensures
        config@ == captured_config(driver@, device@),
{
    let turbo = match read_turbo_state(device, driver) {
        Ok(turbo) => turbo,
        Err(_) => true,
    };
    let governor = match read_governor_state(device) {
        Ok(governor) => governor,
        Err(_) => String::from_str(DEFAULT_GOVERNOR),
    };
    ProfileConfig::new(String::from_str(driver), turbo, governor)
}

/// How the set of profiles was established, or why it was not.
#[derive(Debug)]
pub enum ReadOutcome {
    /// The set. Where `persist` holds it was derived from the hardware and is
    /// to be written to the configuration file; a failure to write it is ignored.
    Ready { profiles: Profiles, persist: bool },
    /// Nothing is stored and no snapshot was given: one is to be taken.
    NeedSnapshot,
    /// No profile could be had.
    Failed(AppError),
}

/// Establishes the set of profiles for the configuration file at a given path.
#[derive(Debug)]
pub struct ProfileManager {
    config_path: String,
}

impl ProfileManager {
    /// A manager for the configuration file at the given path.
    pub fn new(config_path: String) -> (manager: Self)
        ensures
            manager.path() == config_path@,
    {
        Self { config_path }
    }

    /// The path of the configuration file.
    pub closed spec fn path(&self) -> Seq<char> {
        self.config_path@
    }

    /// The path of the configuration file.
    pub fn config_path(&self) -> (path: &str)
        ensures
            path@ == self.path(),
    {
        self.config_path.as_str()
    }

    /// Establishes the set of profiles. `stored` is what the configuration
    /// file held, `None` where there is no such file. A stored set is
    /// returned as it is, whatever the snapshot. Without one the set is
    /// derived from the snapshot and is to be persisted; where no snapshot is
    /// given, one is asked for.
    pub fn read_profiles(&self, stored: Option<Profiles>, snapshot: Option<&Snapshot>) -> (outcome:
        ReadOutcome)
        ensures
            match stored {
                Some(set) => outcome == (ReadOutcome::Ready { profiles: set, persist: false }),
                None => match snapshot {
                    None => outcome is NeedSnapshot,
                    Some(taken) => match initial_profiles(taken@) {
                        Some(map) => outcome matches ReadOutcome::Ready { profiles, persist }
                            && profiles@ == map && persist,
                        None => outcome == ReadOutcome::Failed(AppError::NoProfilesAvailable),
                    },
                },
            },
            stored is None && snapshot is Some && snapshot.unwrap()@.records == Some(
                Seq::<BusRecordView>::empty(),
            ) ==> outcome == ReadOutcome::Failed(AppError::NoProfilesAvailable),
    {
        match stored {
            Some(profiles) => ReadOutcome::Ready { profiles, persist: false },
            None => match snapshot {
                None => ReadOutcome::NeedSnapshot,
                Some(taken) => match self.read_initial_profiles(taken) {
                    Some(profiles) => ReadOutcome::Ready { profiles, persist: true },
                    None => ReadOutcome::Failed(AppError::NoProfilesAvailable),
                },
            },
        }
    }

    /// Derives the first set of profiles from a snapshot: one profile for
    /// each record, under the record's name, with the record's driver and
    /// with turbo and governor as the hardware has them.
    pub fn read_initial_profiles(&self, snapshot: &Snapshot) -> (initial: Option<Profiles>)
        ensures
            match initial_profiles(snapshot@) {
                Some(map) => initial is Some && initial.unwrap()@ == map,
                None => initial is None,
            },
    {
        let records = match &snapshot.records {
            None => {
                return None;
            },
            Some(records) => records,
        };
        let ghost all = records_view(records@);
        let mut profiles = Profiles::new();
        let mut i: usize = 0;
        while i < records.len()
            invariant
                i <= records@.len(),
                all == records_view(records@),
                snapshot@.records == Some(all),
                forall|k: int| 0 <= k < i ==> (#[trigger] all[k]).complete(),
                profiles@ == bootstrap_map(all.take(i as int), snapshot.device@),
            decreases records@.len() - i,
        {
            let record = &records[i];
            assert(all[i as int] == record@);
            let (profile, driver) = match (&record.profile, &record.driver) {
                (Some(profile), Some(driver)) => (profile, driver),
                _ => {
                    assert(!all[i as int].complete());
                    return None;
                },
            };
            let config = capture_config(driver.as_str(), &snapshot.device);
            profiles.insert(profile.clone(), config);
            proof {
                assert(all.take(i + 1).drop_last() =~= all.take(i as int));
                assert(all.take(i + 1).last() == all[i as int]);
            }
            i += 1;
        }
        proof {
            assert(all.take(all.len() as int) =~= all);
            if all.len() > 0 {
                assert(profiles@.contains_key(all.last().profile.unwrap()));
            }
        }
        if profiles.is_empty() {
            return None;
        }
        Some(profiles)
    }
}

} // verus!
