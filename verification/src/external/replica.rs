use vstd::prelude::*;

verus! {

/// How much a replica logs.
#[derive(Clone, Copy, Debug, PartialEq, Eq, Structural)]
pub enum Verbosity {
    Error,
    Warn,
    Info,
    Debug,
    Trace,
}

impl Verbosity {
    /// The verbosity for so many `-v` on the command line.
    pub fn from_occurrences(occurrences: u64) -> (verbosity: Verbosity)
        ensures
            verbosity == if occurrences == 0 {
                Verbosity::Error
            } else if occurrences == 1 {
                Verbosity::Warn
            } else if occurrences == 2 {
                Verbosity::Info
            } else if occurrences == 3 {
                Verbosity::Debug
            } else {
                Verbosity::Trace
            },
    {
        match occurrences {
            0 => Verbosity::Error,
            1 => Verbosity::Warn,
            2 => Verbosity::Info,
            3 => Verbosity::Debug,
            _ => Verbosity::Trace,
        }
    }

    /// The name of the level, as the logger takes it.
    pub fn filter(&self) -> (name: &'static str)
        ensures
            name@ == match *self {
                Verbosity::Error => "error"@,
                Verbosity::Warn => "warn"@,
                Verbosity::Info => "info"@,
                Verbosity::Debug => "debug"@,
                Verbosity::Trace => "trace"@,
            },
    {
        match self {
            Verbosity::Error => "error",
            Verbosity::Warn => "warn",
            Verbosity::Info => "info",
            Verbosity::Debug => "debug",
            Verbosity::Trace => "trace",
        }
    }
}

} // verus!
