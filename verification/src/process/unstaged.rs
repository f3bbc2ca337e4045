//! Builder for a process whose settings all have defaults.

use crate::output_stream::num_bytes::NumBytes;
use crate::output_stream::options::{
    default_read_chunk_size, DEFAULT_MAX_BUFFERED_CHUNKS, DEFAULT_READ_CHUNK_BYTES,
};
use crate::process::command::CommandLine;
use crate::process::name::{self, generate_name, AutoName, Captured, ProcessName};
use std::borrow::Cow;
use vstd::prelude::*;

verus! {

/// A builder for configuring a process, from a command of any type.
///
/// If no name is set, the name is derived from the program of the command and its arguments.
#[derive(Debug)]
pub struct Process<C> {
    /// The command.
    pub cmd: C,
    /// How the process is named.
    pub name: ProcessName,
    /// The size of chunks read from stdout.
    pub stdout_chunk_size: NumBytes,
    /// The size of chunks read from stderr.
    pub stderr_chunk_size: NumBytes,
    /// How many chunks of stdout are buffered.
    pub stdout_capacity: usize,
    /// How many chunks of stderr are buffered.
    pub stderr_capacity: usize,
}

impl<C> Process<C> {
    /// Creates a new process builder from a command.
    #[must_use]
    pub fn new(cmd: C) -> (r: Self)
        ensures
            r.cmd == cmd,
            r.name matches ProcessName::Auto(AutoName::Using(settings)) && settings@ == (Captured {
                args: true,
                ..Captured::program_only()
            }),
            r.stdout_chunk_size@ == DEFAULT_READ_CHUNK_BYTES,
            r.stderr_chunk_size@ == DEFAULT_READ_CHUNK_BYTES,
            r.stdout_capacity == DEFAULT_MAX_BUFFERED_CHUNKS,
            r.stderr_capacity == DEFAULT_MAX_BUFFERED_CHUNKS,
    {
        Self {
            cmd,
            name: ProcessName::Auto(AutoName::program_with_args()),
            stdout_chunk_size: default_read_chunk_size(),
            stderr_chunk_size: default_read_chunk_size(),
            stdout_capacity: DEFAULT_MAX_BUFFERED_CHUNKS,
            stderr_capacity: DEFAULT_MAX_BUFFERED_CHUNKS,
        }
    }

    /// Sets how the process should be named.
    #[must_use]
    pub fn name<N: Into<ProcessName>>(self, name: N) -> (r: Self)
        ensures
            call_ensures(N::into, (name,), r.name),
            r == (Process { name: r.name, ..self }),
    {
        Process { name: name.into(), ..self }
    }

    /// Sets an explicit name.
    #[must_use]
    pub fn with_name<N: Into<Cow<'static, str>>>(self, name: N) -> (r: Self)
        ensures
            r.name matches ProcessName::Explicit(text) && call_ensures(N::into, (name,), text),
            r == (Process { name: r.name, ..self }),
    {
        Process { name: ProcessName::Explicit(name.into()), ..self }
    }

    /// Sets how a name is derived from the command.
    #[must_use]
    pub fn with_auto_name(self, mode: AutoName) -> (r: Self)
        ensures
            r == (Process { name: ProcessName::Auto(mode), ..self }),
    {
        Process { name: ProcessName::Auto(mode), ..self }
    }

    /// Sets the chunk size of stdout.
    #[must_use]
    pub fn stdout_chunk_size(self, chunk_size: NumBytes) -> (r: Self)
        ensures
            r == (Process { stdout_chunk_size: chunk_size, ..self }),
    {
        Process { stdout_chunk_size: chunk_size, ..self }
    }

    /// Sets the chunk size of stderr.
    #[must_use]
    pub fn stderr_chunk_size(self, chunk_size: NumBytes) -> (r: Self)
        ensures
            r == (Process { stderr_chunk_size: chunk_size, ..self }),
    {
        Process { stderr_chunk_size: chunk_size, ..self }
    }

    /// Sets the chunk sizes of both streams.
    #[must_use]
    pub fn chunk_sizes(self, chunk_size: NumBytes) -> (r: Self)
        ensures
            r == (Process {
                stdout_chunk_size: chunk_size,
                stderr_chunk_size: chunk_size,
                ..self
            }),
    {
        Process { stdout_chunk_size: chunk_size, stderr_chunk_size: chunk_size, ..self }
    }

    /// Sets how many chunks of stdout are buffered.
    #[must_use]
    pub fn stdout_capacity(self, capacity: usize) -> (r: Self)
        ensures
            r == (Process { stdout_capacity: capacity, ..self }),
    {
        Process { stdout_capacity: capacity, ..self }
    }

    /// Sets how many chunks of stderr are buffered.
    #[must_use]
    pub fn stderr_capacity(self, capacity: usize) -> (r: Self)
        ensures
            r == (Process { stderr_capacity: capacity, ..self }),
    {
        Process { stderr_capacity: capacity, ..self }
    }

    /// Sets how many chunks of both streams are buffered.
    #[must_use]
    pub fn capacities(self, capacity: usize) -> (r: Self)
        ensures
            r == (Process { stdout_capacity: capacity, stderr_capacity: capacity, ..self }),
    {
        Process { stdout_capacity: capacity, stderr_capacity: capacity, ..self }
    }

    /// The name of the process, given its command as text.
    #[must_use]
    pub fn generate_name(&self, cmd: &CommandLine) -> (r: Cow<'static, str>)
        ensures
            r@ == name::process_name(self.name, *cmd),
    {
        generate_name(&self.name, cmd)
    }
}

} // verus!
