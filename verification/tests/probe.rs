use leeklaunch::config::AppConfig;
use leeklaunch::layout::{
    executable_location, extraction_location, install_location, settings_location, Location,
};
use leeklaunch::probe::{Probe, ProbeStep};
use leeklaunch::protocol::{command_key, handler_command, handler_schemes, needs_update};

fn place(segments: &[&str]) -> Location {
    Location { segments: segments.iter().map(|s| s.to_string()).collect() }
}

#[test]
fn probe_names_the_main_executable() {
    let probe = Probe::begin("version-abc123");
    assert_eq!(
        probe.executable(),
        &place(&["versions", "version-abc123", "RobloxPlayerBeta.exe"])
    );
}

#[test]
fn install_only_when_the_executable_is_missing() {
    let probe = Probe::begin("version-abc123");
    assert_eq!(probe.found(false), ProbeStep::Install);
    assert_eq!(probe.found(true), ProbeStep::Finish);
}

#[test]
fn probe_ends_with_the_same_executable_whatever_happened() {
    let expected = place(&["versions", "t", "RobloxPlayerBeta.exe"]);
    assert_eq!(Probe::begin("t").finish(None), expected);
    assert_eq!(Probe::begin("t").finish(Some(true)), expected);
    assert_eq!(Probe::begin("t").finish(Some(false)), expected);
}

#[test]
fn places_of_a_version() {
    assert_eq!(install_location("tok"), place(&["versions", "tok"]));
    assert_eq!(executable_location("tok"), place(&["versions", "tok", "RobloxPlayerBeta.exe"]));
    assert_eq!(settings_location("tok"), place(&["versions", "tok", "AppSettings.xml"]));
    assert_eq!(
        extraction_location("tok", "content-sky.zip"),
        place(&["versions", "tok", "./content/sky"])
    );
    assert_eq!(extraction_location("tok", "unknown.zip"), place(&["versions", "tok", "./"]));
    assert_eq!(install_location("tok").child("a/b"), place(&["versions", "tok", "a/b"]));
}

#[test]
fn default_config_is_the_live_channel_without_flags() {
    let config = AppConfig::default();
    assert_eq!(config.channel, "LIVE");
    assert!(config.fflags.is_empty());
}

#[test]
fn link_schemes_and_their_keys() {
    assert_eq!(handler_schemes(), vec!["roblox", "roblox-player"]);
    assert_eq!(command_key("roblox"), "roblox\\shell\\open\\command");
    assert_eq!(command_key("roblox-player"), "roblox-player\\shell\\open\\command");
}

#[test]
fn handler_command_quotes_the_executable_and_the_link() {
    assert_eq!(
        handler_command("C:\\Program Files\\leeklaunch.exe"),
        "\"C:\\Program Files\\leeklaunch.exe\" --player \"%1\""
    );
    assert_eq!(handler_command(""), "\"\" --player \"%1\"");
}

#[test]
fn command_is_written_only_when_it_differs() {
    assert!(!needs_update("same", "same"));
    assert!(needs_update("", "wanted"));
    assert!(needs_update("Same", "same"));
    assert!(!needs_update("", ""));
}
