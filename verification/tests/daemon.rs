use power_profiles_cfg::cli::Cli;
use power_profiles_cfg::daemon::Daemon;
use power_profiles_cfg::daemon::Event;
use power_profiles_cfg::profile::ProfileConfig;
use power_profiles_cfg::profile::Profiles;
use power_profiles_cfg::sysfs_interface::DeviceWrite;

fn two_profiles() -> Profiles {
    let mut profiles = Profiles::new();
    profiles.insert(
        "power-saver".to_string(),
        ProfileConfig::new("intel_pstate".to_string(), false, "powersave".to_string()),
    );
    profiles.insert(
        "performance".to_string(),
        ProfileConfig::new("intel_pstate".to_string(), true, "performance".to_string()),
    );
    profiles
}

fn expected(turbo_data: &str, governor: &str) -> Vec<DeviceWrite> {
    let mut writes = vec![DeviceWrite {
        path: "/sys/devices/system/cpu/intel_pstate/no_turbo".to_string(),
        data: turbo_data.to_string(),
    }];
    for i in 0..num_cpus::get() {
        writes.push(DeviceWrite {
            path: format!("/sys/devices/system/cpu/cpu{}/cpufreq/scaling_governor", i),
            data: governor.to_string(),
        });
    }
    writes
}

fn started(name: &str) -> Event {
    Event::ActiveProfile(name.to_string())
}

fn changed(name: &str) -> Event {
    Event::PropertiesChanged { active_profile: Some(name.to_string()) }
}

#[test]
fn cli_holds_its_flags() {
    let cli = Cli { init: true, force: false, reload: true };
    assert!(cli.init);
    assert!(!cli.force);
    assert!(cli.reload);
    assert_eq!(cli, cli.clone());
    assert_ne!(cli, Cli { init: false, force: false, reload: true });
}

#[test]
fn daemon_starts_at_startup() {
    let daemon = Daemon::new(Cli { init: true, force: true, reload: false }, two_profiles());
    assert!(!daemon.is_listening());
}

#[test]
fn startup_without_flags_reads_and_ignores() {
    let mut daemon = Daemon::new(Cli { init: false, force: false, reload: false }, two_profiles());
    assert_eq!(daemon.step(&started("performance")), vec![]);
    assert!(!daemon.is_listening());
}

#[test]
fn startup_with_reload_alone_does_nothing() {
    let mut daemon = Daemon::new(Cli { init: false, force: false, reload: true }, two_profiles());
    assert_eq!(daemon.step(&started("performance")), vec![]);
    assert!(!daemon.is_listening());
}

#[test]
fn startup_with_force_applies_and_ends() {
    let mut daemon = Daemon::new(Cli { init: false, force: true, reload: false }, two_profiles());
    assert_eq!(daemon.step(&started("performance")), expected("0", "performance"));
    assert!(!daemon.is_listening());
    assert_eq!(daemon.step(&changed("power-saver")), vec![]);
    assert!(!daemon.is_listening());
}

#[test]
fn startup_with_init_applies_and_listens() {
    let mut daemon = Daemon::new(Cli { init: true, force: false, reload: false }, two_profiles());
    assert_eq!(daemon.step(&started("power-saver")), expected("1", "powersave"));
    assert!(daemon.is_listening());
}

#[test]
fn startup_with_unknown_active_profile() {
    let mut daemon = Daemon::new(Cli { init: true, force: true, reload: false }, two_profiles());
    assert_eq!(daemon.step(&started("balanced")), vec![]);
    assert!(daemon.is_listening());
}

#[test]
fn changes_before_startup_are_not_applied() {
    let mut daemon = Daemon::new(Cli { init: true, force: false, reload: false }, two_profiles());
    assert_eq!(daemon.step(&changed("performance")), vec![]);
    assert!(!daemon.is_listening());
}

#[test]
fn listening_applies_every_change_in_order() {
    let mut daemon = Daemon::new(Cli { init: true, force: false, reload: false }, two_profiles());
    daemon.step(&started("balanced"));
    assert_eq!(daemon.step(&changed("performance")), expected("0", "performance"));
    assert_eq!(daemon.step(&changed("power-saver")), expected("1", "powersave"));
    assert_eq!(daemon.step(&changed("power-saver")), expected("1", "powersave"));
    assert_eq!(daemon.step(&changed("performance")), expected("0", "performance"));
    assert!(daemon.is_listening());
}

#[test]
fn listening_passes_over_unknown_profiles_and_other_changes() {
    let mut daemon = Daemon::new(Cli { init: true, force: false, reload: false }, two_profiles());
    daemon.step(&started("performance"));
    assert_eq!(daemon.step(&changed("balanced")), vec![]);
    assert!(daemon.is_listening());
    assert_eq!(daemon.step(&Event::PropertiesChanged { active_profile: None }), vec![]);
    assert!(daemon.is_listening());
    assert_eq!(daemon.step(&started("performance")), vec![]);
    assert!(daemon.is_listening());
    assert_eq!(daemon.step(&changed("performance")), expected("0", "performance"));
}
