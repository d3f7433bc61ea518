//! The command line as plain data: what was asked for, once the arguments
//! have been read.

use vstd::prelude::*;

verus! {

/// A path in the file system.
#[verifier::external_type_specification]
#[verifier::external_body]
pub struct ExPathBuf(std::path::PathBuf);

/// How much is logged, from the most to the least verbose.
#[derive(Debug, Clone, Copy, PartialEq, Eq, Structural)]
pub enum Level {
    Trace,
    Debug,
    Info,
    Warn,
    Error,
}

/// The command line.
#[derive(Debug)]
pub struct Cli {
    /// Whether logging at `Info` was asked for.
    pub info: bool,
    /// Whether logging at `Debug` was asked for.
    pub debug: bool,
    /// The configuration file, where one was named.
    pub config: Option<std::path::PathBuf>,
    pub command: Commands,
}

/// What to do.
#[derive(Debug)]
pub enum Commands {
    /// Run the HTTP daemon.
    Daemon(DaemonArgs),
    /// Apply the configuration to a single input.
    Apply(ApplyArgs),
    /// Install the user service and its socket.
    Install(InstallArgs),
    /// Remove the user service and its socket.
    Uninstall(UninstallArgs),
}

#[derive(Debug, Clone)]
pub struct DaemonArgs {
    /// The port to listen on.
    pub port: u16,
    /// Whether the service manager hands over the socket and is told when
    /// the daemon is ready.
    pub systemd: bool,
}

#[derive(Debug, Clone)]
pub struct ApplyArgs {
    /// The input, or `-` or nothing for the standard input.
    pub url: Option<String>,
}

#[derive(Debug, Clone)]
pub struct InstallArgs {
    /// The port the socket listens on.
    pub port: u16,
}

#[derive(Debug, Clone)]
pub struct UninstallArgs {}

impl Cli {
    /// The log level that the command line asks for: `Debug` before `Info`,
    /// and none where neither was given.
    pub fn log_level(&self) -> (level: Option<Level>)
        ensures
            level == if self.debug {
                Some(Level::Debug)
            } else if self.info {
                Some(Level::Info)
            } else {
                None::<Level>
            },
    {
        if self.debug {
            Some(Level::Debug)
        } else if self.info {
            Some(Level::Info)
        } else {
            None
        }
    }
}

} // verus!
