//! Command-line options and what the program does with them. Parsing the
//! command line is the application's part.
use vstd::prelude::*;

verus! {

/// The command-line options.
pub struct Cli {
    /// Touch-screen device path (such as /dev/input/event5).
    pub device: Option<String>,
    /// List the multi-touch devices.
    pub list: bool,
    /// Configuration file path (TOML).
    pub config: Option<String>,
    /// Write an example configuration file (to the given path, or the default one).
    pub generate_config: Option<Option<String>>,
    /// Log file path.
    pub log_file: Option<String>,
    /// Show the debug overlay with the touch points.
    pub debug_overlay: bool,
}

/// What the program is asked to do.
#[derive(Clone, Copy, Debug, PartialEq, Eq, Structural)]
pub enum Command {
    /// List the multi-touch devices and exit.
    ListDevices,
    /// Write the example configuration and exit.
    GenerateConfig,
    /// Run the gesture translation.
    Run,
}

impl Cli {
    /// Listing takes precedence over writing the configuration, which takes
    /// precedence over running.
    pub fn command(&self) -> (c: Command)
        ensures
            c == if self.list {
                Command::ListDevices
            } else if self.generate_config is Some {
                Command::GenerateConfig
            } else {
                Command::Run
            },
    {
        if self.list {
            Command::ListDevices
        } else if self.generate_config.is_some() {
            Command::GenerateConfig
        } else {
            Command::Run
        }
    }
}

} // verus!
