//! The reconciliation loop: what the daemon does with the active profile at
//! startup and on each change that the bus reports.

use crate::cli::Cli;
use crate::profile::applies;
use crate::profile::apply;
use crate::profile::ProfileConfigView;
use crate::profile::Profiles;
use crate::sysfs_interface::views_of;
use crate::sysfs_interface::DeviceWrite;
use vstd::prelude::*;
use vstd::string::*;

verus! {

/// Where the daemon stands.
#[derive(Clone, Copy, Debug, PartialEq, Eq, Structural)]
pub enum DaemonState {
    /// The active profile has not been dealt with yet, or the daemon was not
    /// asked to stay: there is nothing to listen for.
    Startup,
    /// The daemon follows the changes of the active profile.
    Listening,
}

/// What the bus told the daemon.
#[derive(Debug, PartialEq, Eq)]
pub enum Event {
    /// The active profile, as it was read once at startup.
    ActiveProfile(String),
    /// A change of properties. `active_profile` is the new active profile,
    /// `None` where the change is of other properties or holds no string there.
    PropertiesChanged { active_profile: Option<String> },
}

/// An [`Event`] as plain values.
pub enum EventView {
    ActiveProfile(Seq<char>),
    PropertiesChanged { active_profile: Option<Seq<char>> },
}

impl View for Event {
    type V = EventView;

    open spec fn view(&self) -> EventView {
        match self {
            Event::ActiveProfile(name) => EventView::ActiveProfile(name@),
            Event::PropertiesChanged { active_profile } => EventView::PropertiesChanged {
                active_profile: match active_profile {
                    Some(name) => Some(name@),
                    None => None,
                },
            },
        }
    }
}

/// The profile that an event makes the daemon apply, if any. At startup the
/// active profile is applied where `init` or `force` was given. While
/// listening every change of the active profile is applied. No other event
/// applies anything.
pub open spec fn target(state: DaemonState, cli: Cli, event: EventView) -> Option<Seq<char>> {
    match (state, event) {
        (DaemonState::Startup, EventView::ActiveProfile(name)) => if cli.init || cli.force {
            Some(name)
        } else {
            None
        },
        (DaemonState::Listening, EventView::PropertiesChanged { active_profile }) => active_profile,
        _ => None,
    }
}

/// Where the daemon stands after an event. It starts to listen once the
/// active profile was dealt with at startup under `init`, and never stops.
pub open spec fn next_state(state: DaemonState, cli: Cli, event: EventView) -> DaemonState {
    match (state, event) {
        (DaemonState::Startup, EventView::ActiveProfile(_)) => if cli.init {
            DaemonState::Listening
        } else {
            DaemonState::Startup
        },
        _ => state,
    }
}

/// The daemon: the flags it was started with, the set of profiles it was
/// started with, and where it stands.
#[derive(Debug)]
pub struct Daemon {
    cli: Cli,
    profiles: Profiles,
    state: DaemonState,
}

impl Daemon {
    /// The flags that the daemon was started with.
    pub closed spec fn cli(&self) -> Cli {
        self.cli
    }

    /// The profiles that the daemon was started with.
    pub closed spec fn profiles(&self) -> Map<Seq<char>, ProfileConfigView> {
        self.profiles@
    }

    /// Where the daemon stands.
    pub closed spec fn state(&self) -> DaemonState {
        self.state
    }

    /// A daemon at startup.
    pub fn new(cli: Cli, profiles: Profiles) -> (daemon: Self)
        ensures
            daemon.cli() == cli,
            daemon.profiles() == profiles@,
            daemon.state() == DaemonState::Startup,
    {
        Daemon { cli, profiles, state: DaemonState::Startup }
    }

    /// Whether the daemon follows the changes of the active profile.
    pub fn is_listening(&self) -> (listening: bool)
        ensures
            listening == (self.state() == DaemonState::Listening),
    {
        match self.state {
            DaemonState::Listening => true,
            DaemonState::Startup => false,
        }
    }

    /// Takes an event and gives the writes that it calls for, in the order in
    /// which they are to be performed. The profiles and the flags stay as
    /// they are.
    pub fn step(&mut self, event: &Event) -> (writes: Vec<DeviceWrite>)
        ensures
            final(self).cli() == old(self).cli(),
            final(self).profiles() == old(self).profiles(),
            final(self).state() == next_state(old(self).state(), old(self).cli(), event@),
            match target(old(self).state(), old(self).cli(), event@) {
                Some(name) => applies(old(self).profiles(), name, views_of(writes@)),
                None => writes@.len() == 0,
            },
    {
        match (self.state, event) {
            (DaemonState::Startup, Event::ActiveProfile(name)) => {
                let writes = if self.cli.init || self.cli.force {
                    apply(&self.profiles, name.as_str())
                } else {
                    Vec::new()
                };
                if self.cli.init {
                    self.state = DaemonState::Listening;
                }
                writes
            },
            (DaemonState::Listening, Event::PropertiesChanged { active_profile: Some(name) }) => {
                apply(&self.profiles, name.as_str())
            },
            _ => Vec::new(),
        }
    }
}

} // verus!
