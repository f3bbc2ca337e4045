//! Handles for tasks that consume a stream: what their results mean, and who owns what while they
//! are waited for, cancelled or aborted.

use crate::error::StreamReadError;
use std::io;
use tokio::task::JoinError;
use vstd::prelude::*;

verus! {

/// The error of a task that could not be joined.
#[verifier::external_type_specification]
#[verifier::external_body]
pub struct ExJoinError(JoinError);

/// Errors that the consumer infrastructure itself can raise while driving its stream.
///
/// These describe failures of the consumer task: joining, or reading the underlying stream.
/// Visitor-specific failures (for example, a write-backed visitor's sink rejecting bytes) live
/// in the visitor's own output type, not here.
#[derive(Debug)]
#[non_exhaustive]
pub enum ConsumerError {
    /// The consumer task could not be joined/terminated.
    TaskJoin {
        /// The name of the stream this consumer operates on.
        stream_name: &'static str,
        /// The source error.
        source: JoinError,
    },
    /// The underlying stream failed while being read.
    StreamRead {
        /// The source error.
        source: StreamReadError,
    },
}

/// The text of an error about a task that could not be joined.
pub open spec fn is_join_message(
    message: Seq<char>,
    role: Seq<char>,
    stream_name: Seq<char>,
    source: JoinError,
) -> bool {
    exists|text: String|
        {
            &&& #[trigger] vstd::string::to_string_from_display_ensures(&source, text)
            &&& message == "Failed to join/terminate the "@ + role + " task over stream '"@
                + stream_name + "': "@ + text@
        }
}

/// Describes a task that could not be joined.
fn join_message(role: &str, stream_name: &str, source: &JoinError) -> (r: String)
    ensures
        is_join_message(r@, role@, stream_name@, *source),
{
    let text = source.to_string();
    let mut message = "Failed to join/terminate the ".to_owned();
    message.append(role);
    message.append(" task over stream '");
    message.append(stream_name);
    message.append("': ");
    message.append(text.as_str());
    message
}

impl ConsumerError {
    /// Says what the result of a joined consumer task means.
    pub fn from_task<S>(
        stream_name: &'static str,
        joined: Result<Result<S, StreamReadError>, JoinError>,
    ) -> (r: Result<S, ConsumerError>)
        ensures
            r == match joined {
                Ok(Ok(sink)) => Ok::<S, ConsumerError>(sink),
                Ok(Err(source)) => Err(ConsumerError::StreamRead { source }),
                Err(source) => Err(ConsumerError::TaskJoin { stream_name, source }),
            },
    {
        match joined {
            Ok(Ok(sink)) => Ok(sink),
            Ok(Err(source)) => Err(ConsumerError::StreamRead { source }),
            Err(source) => Err(ConsumerError::TaskJoin { stream_name, source }),
        }
    }

    /// What went wrong.
    #[must_use]
    pub fn message(&self) -> (r: String)
        ensures
            match *self {
                ConsumerError::TaskJoin { stream_name, source } => is_join_message(
                    r@,
                    "consumer"@,
                    stream_name@,
                    source,
                ),
                ConsumerError::StreamRead { source } => r@ == source.text(),
            },
    {
        match self {
            ConsumerError::TaskJoin { stream_name, source } => {
                join_message("consumer", stream_name, source)
            },
            ConsumerError::StreamRead { source } => source.message(),
        }
    }
}

/// Errors that can occur when inspecting stream data.
#[derive(Debug)]
#[non_exhaustive]
pub enum InspectorError {
    /// The inspector task could not be joined/terminated.
    TaskJoin {
        /// The name of the stream this inspector operates on.
        stream_name: &'static str,
        /// The source error.
        source: JoinError,
    },
    /// The underlying stream failed while being read.
    StreamRead {
        /// The source error.
        source: StreamReadError,
    },
}

impl InspectorError {
    /// Says what the result of a joined inspector task means.
    pub fn from_task(
        stream_name: &'static str,
        joined: Result<Result<(), StreamReadError>, JoinError>,
    ) -> (r: Result<(), InspectorError>)
        ensures
            r == match joined {
                Ok(Ok(_)) => Ok::<(), InspectorError>(()),
                Ok(Err(source)) => Err(InspectorError::StreamRead { source }),
                Err(source) => Err(InspectorError::TaskJoin { stream_name, source }),
            },
    {
        match joined {
            Ok(Ok(())) => Ok(()),
            Ok(Err(source)) => Err(InspectorError::StreamRead { source }),
            Err(source) => Err(InspectorError::TaskJoin { stream_name, source }),
        }
    }

    /// What went wrong.
    #[must_use]
    pub fn message(&self) -> (r: String)
        ensures
            match *self {
                InspectorError::TaskJoin { stream_name, source } => is_join_message(
                    r@,
                    "inspector"@,
                    stream_name@,
                    source,
                ),
                InspectorError::StreamRead { source } => r@ == source.text(),
            },
    {
        match self {
            InspectorError::TaskJoin { stream_name, source } => {
                join_message("inspector", stream_name, source)
            },
            InspectorError::StreamRead { source } => source.message(),
        }
    }
}

/// Errors that can occur when collecting stream data.
#[derive(Debug)]
#[non_exhaustive]
pub enum CollectorError {
    /// The collector task could not be joined/terminated.
    TaskJoin {
        /// The name of the stream this collector operates on.
        stream_name: &'static str,
        /// The source error.
        source: JoinError,
    },
    /// The underlying stream failed while being read.
    StreamRead {
        /// The source error.
        source: StreamReadError,
    },
    /// The sink rejected output written by a writer-backed collector.
    SinkWrite {
        /// The name of the stream this collector operates on.
        stream_name: &'static str,
        /// The source error.
        source: io::Error,
    },
}

/// Why a collector task ended without its sink.
#[derive(Debug)]
pub enum CollectorTaskError {
    /// The underlying stream failed while being read.
    StreamRead(StreamReadError),
    /// The sink rejected output.
    SinkWrite(io::Error),
}

impl CollectorError {
    /// Says what the result of a joined collector task means.
    pub fn from_task<S>(
        stream_name: &'static str,
        joined: Result<Result<S, CollectorTaskError>, JoinError>,
    ) -> (r: Result<S, CollectorError>)
        ensures
            r == match joined {
                Ok(Ok(sink)) => Ok::<S, CollectorError>(sink),
                Ok(Err(CollectorTaskError::StreamRead(source))) => Err(
                    CollectorError::StreamRead { source },
                ),
                Ok(Err(CollectorTaskError::SinkWrite(source))) => Err(
                    CollectorError::SinkWrite { stream_name, source },
                ),
                Err(source) => Err(CollectorError::TaskJoin { stream_name, source }),
            },
    {
        match joined {
            Ok(Ok(sink)) => Ok(sink),
            Ok(Err(CollectorTaskError::StreamRead(source))) => Err(
                CollectorError::StreamRead { source },
            ),
            Ok(Err(CollectorTaskError::SinkWrite(source))) => Err(
                CollectorError::SinkWrite { stream_name, source },
            ),
            Err(source) => Err(CollectorError::TaskJoin { stream_name, source }),
        }
    }

    /// What went wrong.
    #[must_use]
    pub fn message(&self) -> (r: String)
        ensures
            match *self {
                CollectorError::TaskJoin { stream_name, source } => is_join_message(
                    r@,
                    "collector"@,
                    stream_name@,
                    source,
                ),
                CollectorError::StreamRead { source } => r@ == source.text(),
                CollectorError::SinkWrite { stream_name, source } => exists|text: String|
                    {
                        &&& #[trigger] vstd::string::to_string_from_display_ensures(&source, text)
                        &&& r@ == "Failed to write collected output from stream '"@
                            + stream_name@ + "' to sink: "@ + text@
                    },
            },
    {
        match self {
            CollectorError::TaskJoin { stream_name, source } => {
                join_message("collector", stream_name, source)
            },
            CollectorError::StreamRead { source } => source.message(),
            CollectorError::SinkWrite { stream_name, source } => {
                let text = source.to_string();
                let mut message = "Failed to write collected output from stream '".to_owned();
                message.append(stream_name);
                message.append("' to sink: ");
                message.append(text.as_str());
                message
            },
        }
    }
}

/// The result of cancelling a consumer that is aborted if it does not stop in time.
#[derive(Debug)]
pub enum ConsumerCancelOutcome<S> {
    /// The consumer observed cooperative cancellation before the timeout and returned its sink.
    Cancelled(S),
    /// The timeout elapsed, so the consumer task was aborted and its sink was dropped.
    Aborted,
}

impl<S> ConsumerCancelOutcome<S> {
    /// The outcome for a sink that was returned in time, or for none.
    pub fn from_sink(sink: Option<S>) -> (r: Self)
        ensures
            r == match sink {
                Some(sink) => ConsumerCancelOutcome::Cancelled(sink),
                None => ConsumerCancelOutcome::Aborted,
            },
    {
        match sink {
            Some(sink) => ConsumerCancelOutcome::Cancelled(sink),
            None => ConsumerCancelOutcome::Aborted,
        }
    }
}

/// The result of cancelling a collector that is aborted if it does not stop in time.
#[derive(Debug)]
pub enum CollectorCancelOutcome<S> {
    /// The collector observed cooperative cancellation before the timeout and returned its sink.
    Cancelled(S),
    /// The timeout elapsed, so the collector task was aborted and its sink was dropped.
    Aborted,
}

impl<S> CollectorCancelOutcome<S> {
    /// The outcome for a sink that was returned in time, or for none.
    pub fn from_sink(sink: Option<S>) -> (r: Self)
        ensures
            r == match sink {
                Some(sink) => CollectorCancelOutcome::Cancelled(sink),
                None => CollectorCancelOutcome::Aborted,
            },
    {
        match sink {
            Some(sink) => CollectorCancelOutcome::Cancelled(sink),
            None => CollectorCancelOutcome::Aborted,
        }
    }
}

/// The result of cancelling an inspector that is aborted if it does not stop in time.
#[derive(Debug, Clone, Copy, PartialEq, Eq, Structural)]
pub enum InspectorCancelOutcome {
    /// The inspector observed cooperative cancellation before the timeout.
    Cancelled,
    /// The timeout elapsed, so the inspector task was aborted.
    Aborted,
}

impl InspectorCancelOutcome {
    /// The outcome for an inspector that stopped in time, or did not.
    #[must_use]
    pub fn from_stopped(stopped: bool) -> (r: Self)
        ensures
            r == if stopped {
                InspectorCancelOutcome::Cancelled
            } else {
                InspectorCancelOutcome::Aborted
            },
    {
        if stopped {
            InspectorCancelOutcome::Cancelled
        } else {
            InspectorCancelOutcome::Aborted
        }
    }
}

/// Owns a consuming task and the sender of its termination signal.
///
/// As long as the guard holds them, dropping it must signal termination and abort the task. What
/// was taken out of the guard is handed over for good.
#[derive(Debug)]
pub struct TaskGuard<T, S> {
    task: Option<T>,
    task_termination_sender: Option<S>,
}

/// What a [`TaskGuard`] owns.
pub struct Owned<T, S> {
    /// The task, until it was joined or handed out to be aborted.
    pub task: Option<T>,
    /// The sender of the termination signal, until it was used.
    pub sender: Option<S>,
}

impl<T, S> View for TaskGuard<T, S> {
    type V = Owned<T, S>;

    closed spec fn view(&self) -> Owned<T, S> {
        Owned { task: self.task, sender: self.task_termination_sender }
    }
}

impl<T, S> TaskGuard<T, S> {
    /// Guards a running task.
    pub fn new(task: T, task_termination_sender: S) -> (r: Self)
        ensures
            r@ == (Owned { task: Some(task), sender: Some(task_termination_sender) }),
    {
        Self { task: Some(task), task_termination_sender: Some(task_termination_sender) }
    }

    /// The task, if it was neither joined nor handed out.
    pub fn task(&self) -> (r: Option<&T>)
        ensures
            match r {
                Some(task) => self@.task == Some(*task),
                None => self@.task is None,
            },
    {
        self.task.as_ref()
    }

    /// Access to the task, for joining it.
    pub fn task_mut(&mut self) -> (r: Option<&mut T>)
        ensures
            match r {
                Some(task) => {
                    &&& old(self)@.task == Some(*task)
                    &&& final(self)@ == (Owned { task: Some(*final(task)), ..old(self)@ })
                },
                None => old(self)@.task is None && final(self)@ == old(self)@,
            },
    {
        self.task.as_mut()
    }

    /// Hands out the sender, so that the termination signal can be sent once.
    pub fn take_sender(&mut self) -> (r: Option<S>)
        ensures
            r == old(self)@.sender,
            final(self)@ == (Owned { sender: None, ..old(self)@ }),
    {
        self.task_termination_sender.take()
    }

    /// Hands out the task, so that it can be aborted.
    pub fn take_task(&mut self) -> (r: Option<T>)
        ensures
            r == old(self)@.task,
            final(self)@ == (Owned { task: None, ..old(self)@ }),
    {
        self.task.take()
    }

    /// Lets go of both after the task was joined.
    pub fn finish(&mut self)
        ensures
            final(self)@ == (Owned::<T, S> { task: None, sender: None }),
    {
        self.task = None;
        self.task_termination_sender = None;
    }
}

/// The text of an error about a task that could not be joined names the role of the task, the stream
/// and the reason.
pub proof fn join_message_names_role_stream_and_reason(
    message: Seq<char>,
    role: Seq<char>,
    stream_name: Seq<char>,
    source: JoinError,
) -> (reason: String)
    requires
        is_join_message(message, role, stream_name, source),
    ensures
        vstd::string::to_string_from_display_ensures(&source, reason),
        message == "Failed to join/terminate the "@ + role + " task over stream '"@ + stream_name
            + "': "@ + reason@,
{
    choose|text: String|
        {
            &&& #[trigger] vstd::string::to_string_from_display_ensures(&source, text)
            &&& message == "Failed to join/terminate the "@ + role + " task over stream '"@
                + stream_name + "': "@ + text@
        }
}

} // verus!
