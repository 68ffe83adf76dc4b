use display_settings::command::{
    mode_command, probe_command, reload_taskbar_command, scale_command, Invocation,
    CUSTOM_REFRESH_RATE, DEFAULT_OUTPUT, DISPLAY_TOOL, SEARCH_PATH,
};
use display_settings::options::{DisplayMode, ScaleOption};

fn display_tool(args: &[&str]) -> Invocation {
    Invocation {
        program: "wlr-randr".to_string(),
        args: args.iter().map(|a| a.to_string()).collect(),
        search_path: Some("/run/current-system/sw/bin".to_string()),
    }
}

#[test]
fn constants_name_the_tool_and_the_device() {
    assert_eq!(DISPLAY_TOOL, "wlr-randr");
    assert_eq!(SEARCH_PATH, "/run/current-system/sw/bin");
    assert_eq!(DEFAULT_OUTPUT, "eDP-1");
    assert_eq!(CUSTOM_REFRESH_RATE, 60);
}

#[test]
fn query_has_no_arguments() {
    assert_eq!(probe_command(), display_tool(&[]));
}

#[test]
fn preset_mode_command() {
    let mode = DisplayMode::new("1920x1200").unwrap();
    assert_eq!(
        mode_command("eDP-1", &mode, false),
        display_tool(&["--output", "eDP-1", "--mode", "1920x1200"])
    );
}

#[test]
fn custom_mode_command_carries_the_refresh_rate() {
    let mode = DisplayMode::new("1936x1203").unwrap();
    assert_eq!(
        mode_command("eDP-1", &mode, true),
        display_tool(&["--output", "eDP-1", "--custom-mode", "1936x1203@60"])
    );
}

#[test]
fn mode_command_names_the_given_device() {
    let mode = DisplayMode::new("3840x2160").unwrap();
    assert_eq!(
        mode_command("HDMI-A-1", &mode, true),
        display_tool(&["--output", "HDMI-A-1", "--custom-mode", "3840x2160@60"])
    );
}

#[test]
fn scale_commands_of_the_table() {
    assert_eq!(
        scale_command("eDP-1", ScaleOption::from_index(0)),
        display_tool(&["--output", "eDP-1", "--scale", "1"])
    );
    assert_eq!(
        scale_command("eDP-1", ScaleOption::from_index(1)),
        display_tool(&["--output", "eDP-1", "--scale", "1.25"])
    );
    assert_eq!(
        scale_command("eDP-1", ScaleOption::from_index(2)),
        display_tool(&["--output", "eDP-1", "--scale", "1.5"])
    );
    assert_eq!(
        scale_command("eDP-1", ScaleOption::from_index(9)),
        display_tool(&["--output", "eDP-1", "--scale", "1"])
    );
}

#[test]
fn taskbar_reload_command() {
    assert_eq!(
        reload_taskbar_command(),
        Invocation {
            program: "systemctl".to_string(),
            args: vec!["--user".to_string(), "reload".to_string(), "ewwbar".to_string()],
            search_path: None,
        }
    );
}
