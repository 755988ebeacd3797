//! The command-line surface, as plain data: which subcommand runs and the
//! parameters it carries. Argument parsing itself is the front end's;
//! durations arrive here already converted to milliseconds.

use vstd::prelude::*;

use crate::integration::NotificationType;

verus! {

/// Parameters of the enforcement run (shared by the install command,
/// which bakes them into the service). Durations are in milliseconds.
#[derive(Clone, Debug)]
pub struct RunArgs {
    /// Period after which input will be disabled.
    pub work_duration: u64,
    /// Length of the breaks; after this period input is resumed.
    pub break_duration: u64,
    /// Length of the long break, when the accrual mode is wanted.
    pub long_break_duration: Option<u64>,
    /// Active work time after which the next break is the long one.
    pub work_between_long_breaks: Option<u64>,
    /// How far ahead of a lock to warn, if at all.
    pub lock_warning: Option<u64>,
    /// How lock warnings are delivered.
    pub lock_warning_type: Vec<NotificationType>,
    /// Whether the tcp status relay runs.
    pub tcp_api: bool,
    /// Whether the status file is kept up to date.
    pub status_file: bool,
    /// Whether every state change sends a notification.
    pub notifications: bool,
}

/// Parameters of the status query command.
#[derive(Clone, Debug)]
pub struct StatusArgs {
    /// Reprint the status every period instead of once. Milliseconds.
    pub update_period: Option<u64>,
    /// Print the status as a small json object.
    pub use_json: bool,
}

/// The subcommands.
#[derive(Debug)]
pub enum Commands {
    /// Periodically block the configured devices.
    Run(RunArgs),
    /// Pick the devices to block interactively.
    Wizard,
    /// Install the service.
    Install(RunArgs),
    /// Remove the installed service.
    Remove,
    /// Print the current status line.
    Status(StatusArgs),
}

impl Commands {
    /// Every command except the status query touches devices or system
    /// services and therefore needs root.
    pub fn needs_sudo(&self) -> (r: bool)
        ensures
            r == !(*self is Status),
    {
        !matches!(self, Commands::Status { .. })
    }
}

/// The whole invocation.
#[derive(Debug)]
pub struct Cli {
    pub command: Commands,
    /// Where to read and write the list of devices to block.
    pub config_path: Option<String>,
    /// Print many traces and logs.
    pub verbose: bool,
}

/// Failure to read a duration argument; the payload is the offending
/// input text.
#[derive(Clone, Debug)]
pub enum ParseError {
    /// The seconds field could not be read.
    Second(String),
    /// The minutes field could not be read.
    Minute(String),
    /// The hours field could not be read.
    Hour(String),
    /// Durations need a unit suffix or one colon.
    NoColonOrUnit(String),
}

} // verus!
