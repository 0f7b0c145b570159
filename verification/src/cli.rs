use vstd::prelude::*;
use vstd::string::*;

verus! {

/// Verbosity of the process's log output.
#[derive(Clone, Copy, Debug, PartialEq, Eq, Structural)]
pub enum LogLevel {
    Trace,
    Debug,
    Info,
    Warn,
    Error,
}

impl LogLevel {
    /// The level's conventional lower-case name.
    pub fn name(&self) -> (r: &'static str)
        ensures
            *self is Trace ==> r@ == "trace"@,
            *self is Debug ==> r@ == "debug"@,
            *self is Info ==> r@ == "info"@,
            *self is Warn ==> r@ == "warn"@,
            *self is Error ==> r@ == "error"@,
    {
        match self {
            LogLevel::Trace => "trace",
            LogLevel::Debug => "debug",
            LogLevel::Info => "info",
            LogLevel::Warn => "warn",
            LogLevel::Error => "error",
        }
    }
}

/// The command-line arguments the process takes: the configuration file's
/// path and the log level.
#[derive(Debug)]
pub struct Cli {
    pub config: String,
    pub log_level: LogLevel,
}

impl Cli {
    /// Arguments with their defaults filled in: the configuration file
    /// `config.toml` and the `Info` level.
    pub fn new(config: Option<String>, log_level: Option<LogLevel>) -> (r: Cli)
        ensures
            (match config {
                Some(c) => r.config == c,
                None => r.config@ == "config.toml"@,
            }),
            r.log_level == (match log_level {
                Some(l) => l,
                None => LogLevel::Info,
            }),
    {
        let config = match config {
            Some(c) => c,
            None => String::from_str("config.toml"),
        };
        let log_level = match log_level {
            Some(l) => l,
            None => LogLevel::Info,
        };
        Cli { config, log_level }
    }
}

} // verus!
