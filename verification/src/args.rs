//! The configuration surface the daemon is started with, and the log-level
//! choice derived from it.

use vstd::prelude::*;

verus! {

/// Startup options. The binary fills this from its command line; the library
/// only reads it.
pub struct Args {
    /// Port that the remapper's TCP server is listening on.
    pub port: u16,
    /// Enable debug logging.
    pub debug: bool,
    /// Enable trace logging (implies debug as well).
    pub trace: bool,
    /// Optional path to a file whose lines are the layers that may be
    /// switched away from automatically.
    pub white_list_file: Option<String>,
}

/// Verbosity the logger should be configured with.
#[derive(Clone, Copy, Debug, PartialEq, Eq, Structural)]
pub enum LogLevel {
    Info,
    Debug,
    Trace,
}

/// The log level that a given pair of verbosity flags asks for: trace wins
/// over debug, debug over the default.
pub open spec fn spec_log_level(debug: bool, trace: bool) -> LogLevel {
    if trace {
        LogLevel::Trace
    } else if debug {
        LogLevel::Debug
    } else {
        LogLevel::Info
    }
}

/// Chooses the verbosity the logger is to be configured with.
pub fn configure_logger(args: &Args) -> (level: LogLevel)
    ensures
        level == spec_log_level(args.debug, args.trace),
{
    match (args.debug, args.trace) {
        (_, true) => LogLevel::Trace,
        (true, false) => LogLevel::Debug,
        (false, false) => LogLevel::Info,
    }
}

impl Default for Args {
    /// The options the daemon runs with when none are given: the default
    /// port, quiet logging, no allow-list.
    fn default() -> (args: Args)
        ensures
            args.port == crate::DEFAULT_PORT,
            !args.debug,
            !args.trace,
            args.white_list_file is None,
    {
        Args { port: crate::DEFAULT_PORT, debug: false, trace: false, white_list_file: None }
    }
}

} // verus!
