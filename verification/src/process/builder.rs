//! Typestate builder for a process: first its name, then its output streams.

use crate::process::name::ProcessName;
use crate::process::stream_config::{ProcessStreamBuilder, ProcessStreamConfig};
use vstd::prelude::*;

verus! {

/// Marks a process that has no name yet.
#[derive(Debug)]
pub struct Unnamed;

/// Holds the name of a process.
#[derive(Debug)]
pub struct Named {
    name: ProcessName,
}

impl View for Named {
    type V = ProcessName;

    closed spec fn view(&self) -> ProcessName {
        self.name
    }
}

/// Marks a stream that is not configured yet.
#[derive(Debug)]
pub struct Unset;

/// Holds the configuration of a stream.
#[derive(Debug)]
pub struct Configured<Config> {
    config: Config,
}

impl<Config> View for Configured<Config> {
    type V = Config;

    closed spec fn view(&self) -> Config {
        self.config
    }
}

/// Typestate builder for configuring a process, from a command of any type.
///
/// A process must be named before configuring output streams. This keeps public errors and tracing
/// fields intentional, while stdout and stderr stream configuration remains explicit at the spawn
/// call site.
#[derive(Debug)]
pub struct Process<C, NameState = Unnamed, Stdout = Unset, Stderr = Unset> {
    cmd: C,
    name_state: NameState,
    stdout: Stdout,
    stderr: Stderr,
}

/// The parts of a [`Process`].
pub struct Parts<C, NameState, Stdout, Stderr> {
    /// The command.
    pub cmd: C,
    /// The name, or that there is none yet.
    pub name_state: NameState,
    /// The configuration of stdout, or that there is none yet.
    pub stdout: Stdout,
    /// The configuration of stderr, or that there is none yet.
    pub stderr: Stderr,
}

impl<C, NameState, Stdout, Stderr> View for Process<C, NameState, Stdout, Stderr> {
    type V = Parts<C, NameState, Stdout, Stderr>;

    closed spec fn view(&self) -> Parts<C, NameState, Stdout, Stderr> {
        Parts {
            cmd: self.cmd,
            name_state: self.name_state,
            stdout: self.stdout,
            stderr: self.stderr,
        }
    }
}

impl<C> Process<C> {
    /// Creates a new process builder from a command.
    #[must_use]
    pub fn new(cmd: C) -> (r: Self)
        ensures
            r@ == (Parts { cmd, name_state: Unnamed, stdout: Unset, stderr: Unset }),
    {
        Self { cmd, name_state: Unnamed, stdout: Unset, stderr: Unset }
    }

    /// Sets how the process should be named.
    ///
    /// You can provide either an explicit name or configure automatic name generation.
    /// The name is used in public errors and tracing fields. By default, automatic
    /// naming captures only the program name. Prefer `.name(...)` for stable safe
    /// labels when command arguments or environment variables may contain secrets.
    #[must_use]
    pub fn name<N: Into<ProcessName>>(self, name: N) -> (r: Process<C, Named>)
        ensures
            r@.cmd == self@.cmd,
            call_ensures(N::into, (name,), r@.name_state@),
    {
        Process {
            cmd: self.cmd,
            name_state: Named { name: name.into() },
            stdout: Unset,
            stderr: Unset,
        }
    }
}

impl<C> Process<C, Named> {
    /// Configures stdout and stderr with the same output stream settings.
    #[must_use]
    pub fn stdout_and_stderr<Config, F>(self, configure: F) -> (r: Process<
        C,
        Named,
        Configured<Config>,
        Configured<Config>,
    >) where Config: ProcessStreamConfig + Copy, F: FnOnce(ProcessStreamBuilder) -> Config
        requires
            call_requires(configure, (ProcessStreamBuilder,)),
        ensures
            r@.cmd == self@.cmd,
            r@.name_state == self@.name_state,
            call_ensures(configure, (ProcessStreamBuilder,), r@.stdout@),
            r@.stderr@ == r@.stdout@,
    {
        let config = configure(ProcessStreamBuilder);
        Process {
            cmd: self.cmd,
            name_state: self.name_state,
            stdout: Configured { config },
            stderr: Configured { config },
        }
    }

    /// Configures stdout before configuring stderr.
    #[must_use]
    pub fn stdout<Config, F>(self, configure: F) -> (r: Process<
        C,
        Named,
        Configured<Config>,
        Unset,
    >) where Config: ProcessStreamConfig, F: FnOnce(ProcessStreamBuilder) -> Config
        requires
            call_requires(configure, (ProcessStreamBuilder,)),
        ensures
            r@.cmd == self@.cmd,
            r@.name_state == self@.name_state,
            call_ensures(configure, (ProcessStreamBuilder,), r@.stdout@),
    {
        Process {
            cmd: self.cmd,
            name_state: self.name_state,
            stdout: Configured { config: configure(ProcessStreamBuilder) },
            stderr: Unset,
        }
    }

    /// Configures stderr before configuring stdout.
    #[must_use]
    pub fn stderr<Config, F>(self, configure: F) -> (r: Process<
        C,
        Named,
        Unset,
        Configured<Config>,
    >) where Config: ProcessStreamConfig, F: FnOnce(ProcessStreamBuilder) -> Config
        requires
            call_requires(configure, (ProcessStreamBuilder,)),
        ensures
            r@.cmd == self@.cmd,
            r@.name_state == self@.name_state,
            call_ensures(configure, (ProcessStreamBuilder,), r@.stderr@),
    {
        Process {
            cmd: self.cmd,
            name_state: self.name_state,
            stdout: Unset,
            stderr: Configured { config: configure(ProcessStreamBuilder) },
        }
    }
}

impl<C, StdoutConfig> Process<C, Named, Configured<StdoutConfig>, Unset> {
    /// Configures stderr and completes the process builder.
    #[must_use]
    pub fn stderr<Config, F>(self, configure: F) -> (r: Process<
        C,
        Named,
        Configured<StdoutConfig>,
        Configured<Config>,
    >) where Config: ProcessStreamConfig, F: FnOnce(ProcessStreamBuilder) -> Config
        requires
            call_requires(configure, (ProcessStreamBuilder,)),
        ensures
            r@.cmd == self@.cmd,
            r@.name_state == self@.name_state,
            r@.stdout == self@.stdout,
            call_ensures(configure, (ProcessStreamBuilder,), r@.stderr@),
    {
        Process {
            cmd: self.cmd,
            name_state: self.name_state,
            stdout: self.stdout,
            stderr: Configured { config: configure(ProcessStreamBuilder) },
        }
    }
}

impl<C, StderrConfig> Process<C, Named, Unset, Configured<StderrConfig>> {
    /// Configures stdout and completes the process builder.
    #[must_use]
    pub fn stdout<Config, F>(self, configure: F) -> (r: Process<
        C,
        Named,
        Configured<Config>,
        Configured<StderrConfig>,
    >) where Config: ProcessStreamConfig, F: FnOnce(ProcessStreamBuilder) -> Config
        requires
            call_requires(configure, (ProcessStreamBuilder,)),
        ensures
            r@.cmd == self@.cmd,
            r@.name_state == self@.name_state,
            r@.stderr == self@.stderr,
            call_ensures(configure, (ProcessStreamBuilder,), r@.stdout@),
    {
        Process {
            cmd: self.cmd,
            name_state: self.name_state,
            stdout: Configured { config: configure(ProcessStreamBuilder) },
            stderr: self.stderr,
        }
    }
}

impl<C, StdoutConfig, StderrConfig> Process<
    C,
    Named,
    Configured<StdoutConfig>,
    Configured<StderrConfig>,
> {
    /// Takes the finished builder apart: the command, its name, and the configurations of stdout
    /// and stderr.
    #[must_use]
    pub fn into_parts(self) -> (r: (C, ProcessName, StdoutConfig, StderrConfig))
        ensures
            r == (self@.cmd, self@.name_state@, self@.stdout@, self@.stderr@),
    {
        (self.cmd, self.name_state.name, self.stdout.config, self.stderr.config)
    }
}

} // verus!
