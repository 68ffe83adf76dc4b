//! The command lines of the display tool. Nothing here runs a process: an
//! [`Invocation`] says what to run, and the caller reports back with a
//! [`RunOutcome`].

use crate::decimal::{decimal_text, format_decimal};
use crate::options::{multiplier_text, texts, DisplayMode, ScaleOption};
use vstd::prelude::*;

verus! {

/// The executable that both queries and changes the display configuration.
pub const DISPLAY_TOOL: &'static str = "wlr-randr";

/// The executable that reloads services of the user session.
pub const SERVICE_TOOL: &'static str = "systemctl";

/// The only directory in which the display tool is looked for.
pub const SEARCH_PATH: &'static str = "/run/current-system/sw/bin";

/// The output device that the settings page works on.
pub const DEFAULT_OUTPUT: &'static str = "eDP-1";

/// The refresh rate, in hertz, that every custom mode is requested with.
pub const CUSTOM_REFRESH_RATE: u32 = 60;

/// A command for the caller to run: the program, its arguments in order,
/// and the value of `PATH` to run it with (`None` leaves `PATH` alone).
#[derive(Debug, Clone, PartialEq, Eq)]
pub struct Invocation {
    pub program: String,
    pub args: Vec<String>,
    pub search_path: Option<String>,
}

/// What became of a command that the caller was asked to run.
#[derive(Debug, Clone, PartialEq, Eq)]
pub enum RunOutcome {
    /// The process could not be started.
    Failed,
    /// The process ran to its end. `exit_code` is `None` when it ended
    /// without one, as a process does that a signal has killed.
    Finished { exit_code: Option<i32>, stdout: Vec<u8>, stderr: Vec<u8> },
}

/// Whether the command ran and ended with exit code zero.
pub open spec fn run_succeeded(outcome: RunOutcome) -> bool {
    outcome matches RunOutcome::Finished { exit_code: Some(code), .. } && code == 0
}

impl RunOutcome {
    /// Whether the command ran and ended with exit code zero.
    pub fn succeeded(&self) -> (ok: bool)
        ensures
            ok == run_succeeded(*self),
    {
        match self {
            RunOutcome::Finished { exit_code: Some(code), .. } => *code == 0,
            _ => false,
        }
    }
}

/// Whether `invocation` runs the display tool, found on the fixed search
/// path, with exactly the arguments `args`.
pub open spec fn runs_display_tool(invocation: Invocation, args: Seq<Seq<char>>) -> bool {
    &&& invocation.program@ == DISPLAY_TOOL@
    &&& invocation.search_path matches Some(path)
    &&& path@ == SEARCH_PATH@
    &&& texts(invocation.args@) == args
}

/// The argument that names a mode: the mode itself for the preset form, and
/// the mode, `@` and the fixed refresh rate for the custom form.
pub open spec fn mode_argument(mode: Seq<char>, is_custom: bool) -> Seq<char> {
    if is_custom {
        mode.push('@') + decimal_text(CUSTOM_REFRESH_RATE as nat)
    } else {
        mode
    }
}

/// The arguments that set a mode on `device`.
pub open spec fn mode_arguments(device: Seq<char>, mode: Seq<char>, is_custom: bool) -> Seq<
    Seq<char>,
> {
    seq![
        "--output"@,
        device,
        if is_custom {
            "--custom-mode"@
        } else {
            "--mode"@
        },
        mode_argument(mode, is_custom),
    ]
}

/// The arguments that set a scale on `device`.
pub open spec fn scale_arguments(device: Seq<char>, scale: ScaleOption) -> Seq<Seq<char>> {
    seq!["--output"@, device, "--scale"@, multiplier_text(scale.percent)]
}

/// An invocation of the display tool with the given arguments.
fn display_tool(args: Vec<String>) -> (invocation: Invocation)
    ensures
        runs_display_tool(invocation, texts(args@)),
        invocation.args == args,
{
    Invocation {
        program: String::from_str(DISPLAY_TOOL),
        args,
        search_path: Some(String::from_str(SEARCH_PATH)),
    }
}

/// The query for the current state of all outputs: the display tool without
/// arguments.
pub fn probe_command() -> (invocation: Invocation)
    ensures
        runs_display_tool(invocation, Seq::empty()),
{
    let invocation = display_tool(Vec::new());
    assert(texts(invocation.args@) =~= Seq::empty());
    invocation
}

/// The command that sets `mode` on the device. The preset form is for the
/// native mode of the device; the custom form, which asks for the fixed
/// refresh rate as well, is for every other mode.
pub fn mode_command(device_id: &str, mode: &DisplayMode, is_custom: bool) -> (invocation:
    Invocation)
    ensures
        runs_display_tool(invocation, mode_arguments(device_id@, mode@, is_custom)),
{
    proof {
        reveal_strlit("@");
    }
    let mut args: Vec<String> = Vec::new();
    args.push(String::from_str("--output"));
    args.push(String::from_str(device_id));
    let mut value = String::from_str(mode.as_str());
    if is_custom {
        args.push(String::from_str("--custom-mode"));
        value.append("@");
        value.append(format_decimal(CUSTOM_REFRESH_RATE as u64).as_str());
        assert(value@ =~= mode_argument(mode@, is_custom));
    } else {
        args.push(String::from_str("--mode"));
    }
    args.push(value);
    assert(texts(args@) =~= mode_arguments(device_id@, mode@, is_custom));
    display_tool(args)
}

/// The command that sets `scale` on the device.
pub fn scale_command(device_id: &str, scale: ScaleOption) -> (invocation: Invocation)
    ensures
        runs_display_tool(invocation, scale_arguments(device_id@, scale)),
{
    let mut args: Vec<String> = Vec::new();
    args.push(String::from_str("--output"));
    args.push(String::from_str(device_id));
    args.push(String::from_str("--scale"));
    args.push(scale.multiplier());
    assert(texts(args@) =~= scale_arguments(device_id@, scale));
    display_tool(args)
}

/// Whether `invocation` asks the service tool, found on the caller's own
/// `PATH`, to reload the task bar of the user session.
pub open spec fn reloads_taskbar(invocation: Invocation) -> bool {
    &&& invocation.program@ == SERVICE_TOOL@
    &&& invocation.search_path is None
    &&& texts(invocation.args@) == seq!["--user"@, "reload"@, "ewwbar"@]
}

/// The command that makes the task bar of the user session reload its
/// configuration. It runs with the caller's own `PATH`.
pub fn reload_taskbar_command() -> (invocation: Invocation)
    ensures
        reloads_taskbar(invocation),
{
    let mut args: Vec<String> = Vec::new();
    args.push(String::from_str("--user"));
    args.push(String::from_str("reload"));
    args.push(String::from_str("ewwbar"));
    assert(texts(args@) =~= seq!["--user"@, "reload"@, "ewwbar"@]);
    Invocation { program: String::from_str(SERVICE_TOOL), args, search_path: None }
}

} // verus!
