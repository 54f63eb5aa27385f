use desktop_environment::relay_command::{self, Command as RelayCommand};
use desktop_environment::router_command::{self, Command as RouterCommand};
use desktop_environment::RelayConfig;

fn args(words: &[&str]) -> Vec<String> {
    words.iter().map(|word| word.to_string()).collect()
}

fn mirrored(words: &[&str]) -> RelayConfig {
    match RelayCommand::from_env(&args(words)) {
        Ok(RelayCommand::Mirror(config)) => config,
        other => panic!("{other:?}"),
    }
}

fn relay_error(words: &[&str]) -> relay_command::CommandError {
    RelayCommand::from_env(&args(words)).unwrap_err()
}

fn router_error(words: &[&str]) -> router_command::CommandError {
    RouterCommand::from_env(&args(words)).unwrap_err()
}

#[test]
fn the_relay_lists_displays() {
    assert!(matches!(RelayCommand::from_env(&args(&["list"])), Ok(RelayCommand::List)));
    assert!(matches!(RelayCommand::from_env(&args(&["list", "more"])), Ok(RelayCommand::List)));
}

#[test]
fn the_relay_mirrors_a_display() {
    let config = mirrored(&["mirror", "\\\\.\\DISPLAY3"]);

    assert_eq!(config.target.display_name, "\\\\.\\DISPLAY3");
    assert!(!config.mirror_fullscreen);
    assert_eq!(config.capture_timeout_ms, 16);
}

#[test]
fn the_relay_takes_options_in_any_order() {
    let config = mirrored(&["mirror", "D", "--timeout-ms", "33", "--fullscreen"]);
    assert!(config.mirror_fullscreen);
    assert_eq!(config.capture_timeout_ms, 33);

    let last = mirrored(&["mirror", "D", "--fullscreen", "--timeout-ms", "1", "--timeout-ms", "2"]);
    assert!(last.mirror_fullscreen);
    assert_eq!(last.capture_timeout_ms, 2);
}

#[test]
fn options_can_be_display_names() {
    assert_eq!(mirrored(&["mirror", "--fullscreen"]).target.display_name, "--fullscreen");
}

#[test]
fn the_relay_explains_what_is_wrong() {
    assert_eq!(
        relay_error(&[]).message(),
        "Usage: display-relay list | mirror <DISPLAY_NAME> [--fullscreen] [--timeout-ms N]"
    );
    assert_eq!(
        relay_error(&["mirror"]).message(),
        "mirror requires a display name such as \\\\.\\DISPLAY3"
    );
    assert_eq!(
        relay_error(&["mirror", "D", "--timeout-ms"]).message(),
        "--timeout-ms expects a number"
    );
    assert_eq!(
        relay_error(&["mirror", "D", "--timeout-ms", "1s"]).message(),
        "invalid digit found in string"
    );
    assert_eq!(relay_error(&["mirror", "D", "-f"]).message(), "Unknown argument: -f");
    assert_eq!(relay_error(&["LIST"]).message(), "Unknown command: LIST");
}

#[test]
fn the_relay_tells_errors_apart() {
    assert!(matches!(relay_error(&[]), relay_command::CommandError::MissingCommand));
    assert!(matches!(
        relay_error(&["mirror"]),
        relay_command::CommandError::MissingDisplayName
    ));
    assert!(matches!(
        relay_error(&["mirror", "D", "--timeout-ms"]),
        relay_command::CommandError::MissingTimeout
    ));
    assert!(matches!(
        relay_error(&["mirror", "D", "--timeout-ms", ""]),
        relay_command::CommandError::InvalidTimeout(_)
    ));
    assert!(matches!(
        relay_error(&["mirror", "D", "x", "--timeout-ms"]),
        relay_command::CommandError::UnknownArgument(_)
    ));
    assert!(matches!(relay_error(&["x"]), relay_command::CommandError::UnknownCommand(_)));
}

#[test]
fn the_router_lists_devices() {
    assert!(matches!(
        RouterCommand::from_env(&args(&["list-audio-devices"])),
        Ok(RouterCommand::ListAudioDevices)
    ));
}

#[test]
fn the_router_takes_a_source_and_a_target() {
    match RouterCommand::from_env(&args(&["route", "default", "USB", "more"])) {
        Ok(RouterCommand::Route { source_device, target_device }) => {
            assert_eq!((source_device.as_str(), target_device.as_str()), ("default", "USB"));
        }
        other => panic!("{other:?}"),
    }
}

#[test]
fn the_router_explains_what_is_wrong() {
    assert_eq!(
        router_error(&[]).message(),
        "Usage: audio-output-router list-audio-devices | route <SOURCE_MATCH|default> <TARGET_MATCH|default>"
    );
    assert_eq!(
        router_error(&["route"]).message(),
        "route requires a source output device match or 'default'"
    );
    assert_eq!(
        router_error(&["route", "a"]).message(),
        "route requires a target output device match or 'default'"
    );
    assert_eq!(router_error(&["play"]).message(), "Unknown command: play");
    assert!(matches!(router_error(&[]), router_command::CommandError::MissingCommand));
    assert!(matches!(router_error(&["route"]), router_command::CommandError::MissingSource));
    assert!(matches!(
        router_error(&["route", "a"]),
        router_command::CommandError::MissingTarget
    ));
    assert!(matches!(
        router_error(&["play"]),
        router_command::CommandError::UnknownCommand(_)
    ));
}
