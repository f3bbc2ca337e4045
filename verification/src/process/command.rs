//! The parts of a command that a process name can be made of.

use vstd::prelude::*;

verus! {

/// An environment variable as configured on a command.
#[derive(Debug, PartialEq, Eq)]
pub struct EnvVar {
    /// The name of the variable.
    pub key: String,
    /// The value that is set, or `None` if the variable is explicitly removed.
    pub value: Option<String>,
}

/// A command line as text. Parts that are not valid Unicode are given with replacement characters.
#[derive(Debug, PartialEq, Eq)]
pub struct CommandLine {
    /// The directory the command runs in, if one was set.
    pub current_dir: Option<String>,
    /// The environment variables that were set or removed explicitly.
    pub envs: Vec<EnvVar>,
    /// The program.
    pub program: String,
    /// The arguments of the program.
    pub args: Vec<String>,
    /// The debug representation of the command.
    pub debug_text: String,
}

} // verus!
