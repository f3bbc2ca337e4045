//! Visitors that forward observed output to a writer.
//!
//! The types here decide what is written next and what a failed write leads to. The writes
//! themselves are done by the caller, who reports how they went.

use crate::error::StreamReadError;
use crate::output_stream::event::{self, StreamEvent};
use crate::output_stream::line::dispatch::{DispatchPhase, Dispatching, LineAction, LineDispatch};
use crate::output_stream::line::options::LineParsingOptions;
use crate::output_stream::line::parser::ParserState;
use crate::output_stream::Next;
use std::io;
use vstd::prelude::*;

verus! {

/// Controls how line-based write helpers delimit successive lines.
#[derive(Debug, Clone, Copy, PartialEq, Eq, Structural)]
pub enum LineWriteMode {
    /// Write lines exactly as parsed, without appending any delimiter.
    ///
    /// Use this when your mapper already adds delimiters or when the downstream format does
    /// not want line separators reintroduced.
    AsIs,
    /// Append a trailing `\n` after each emitted line.
    ///
    /// This reconstructs conventional line-oriented output after parsing removed the original
    /// newline byte.
    AppendLf,
}

/// Action to take after an async writer sink rejects collected output.
#[derive(Debug, Clone, Copy, PartialEq, Eq, Structural)]
pub enum SinkWriteErrorAction {
    /// Stop collection and surface the [`SinkWriteError`] as the consumer's output.
    Stop,
    /// Accept the individual write failure and keep collecting later stream output.
    Continue,
}

/// The write operation that failed while forwarding collected output into an async writer.
#[derive(Debug, Clone, Copy, PartialEq, Eq, Structural)]
pub enum SinkWriteOperation {
    /// A raw output chunk failed to write.
    Chunk,
    /// Parsed line bytes failed to write.
    Line,
    /// The line delimiter requested by [`LineWriteMode::AppendLf`] failed to write.
    LineDelimiter,
}

/// Details about a failed async write into a collector sink.
#[derive(Debug)]
pub struct SinkWriteError {
    stream_name: &'static str,
    operation: SinkWriteOperation,
    attempted_len: usize,
    source: io::Error,
}

/// The parts of a [`SinkWriteError`].
pub struct WriteFailure {
    /// The name of the stream whose output was written.
    pub stream_name: &'static str,
    /// The write operation that failed.
    pub operation: SinkWriteOperation,
    /// How many bytes were to be written.
    pub attempted_len: usize,
    /// The error of the writer.
    pub source: io::Error,
}

impl View for SinkWriteError {
    type V = WriteFailure;

    closed spec fn view(&self) -> WriteFailure {
        WriteFailure {
            stream_name: self.stream_name,
            operation: self.operation,
            attempted_len: self.attempted_len,
            source: self.source,
        }
    }
}

impl SinkWriteError {
    /// Describes a failed write.
    pub fn new(
        stream_name: &'static str,
        operation: SinkWriteOperation,
        attempted_len: usize,
        source: io::Error,
    ) -> (r: Self)
        ensures
            r@ == (WriteFailure { stream_name, operation, attempted_len, source }),
    {
        Self { stream_name, operation, attempted_len, source }
    }

    /// The name of the stream this collector operates on.
    #[must_use]
    pub fn stream_name(&self) -> (r: &'static str)
        ensures
            r == self@.stream_name,
    {
        self.stream_name
    }

    /// The write operation that failed.
    #[must_use]
    pub fn operation(&self) -> (r: SinkWriteOperation)
        ensures
            r == self@.operation,
    {
        self.operation
    }

    /// Number of bytes passed to the failed write call.
    #[must_use]
    pub fn attempted_len(&self) -> (r: usize)
        ensures
            r == self@.attempted_len,
    {
        self.attempted_len
    }

    /// The underlying async writer error.
    #[must_use]
    pub fn source(&self) -> (r: &io::Error)
        ensures
            *r == self@.source,
    {
        &self.source
    }

    /// Gives the underlying async writer error back.
    #[must_use]
    pub fn into_source(self) -> (r: io::Error)
        ensures
            r == self@.source,
    {
        self.source
    }

    /// What went wrong, and on which stream.
    #[must_use]
    pub fn message(&self) -> (r: String)
        ensures
            exists|text: String|
                {
                    &&& #[trigger] vstd::string::to_string_from_display_ensures(
                        &self@.source,
                        text,
                    )
                    &&& r@ == "Failed to write consumed output from stream '"@
                        + self@.stream_name@ + "' to sink: "@ + text@
                },
    {
        let text = self.source.to_string();
        assert(vstd::string::to_string_from_display_ensures(&self@.source, text));
        let mut message = "Failed to write consumed output from stream '".to_owned();
        message.append(self.stream_name);
        message.append("' to sink: ");
        message.append(text.as_str());
        message
    }
}

/// Handles async writer sink failures observed by writer collectors.
///
/// A handler that does not state how it decides promises nothing.
pub trait SinkWriteErrorHandler: Sized + Send + 'static {
    /// What the handler relies on. It holds whenever the handler is called.
    open spec fn ready(&self) -> bool {
        true
    }

    /// How handling a failure turns `before` into `after`, and which action it asks for.
    open spec fn decides(
        before: Self,
        error: SinkWriteError,
        action: SinkWriteErrorAction,
        after: Self,
    ) -> bool {
        true
    }

    /// Decide whether collection should continue after a sink write failure.
    fn handle(&mut self, error: &SinkWriteError) -> (r: SinkWriteErrorAction)
        requires
            old(self).ready(),
        ensures
            final(self).ready(),
            Self::decides(*old(self), *error, r, *final(self)),
    ;
}

impl<F> SinkWriteErrorHandler for F where
    F: FnMut(&SinkWriteError) -> SinkWriteErrorAction + Send + 'static,
 {
    open spec fn ready(&self) -> bool {
        forall|error: &SinkWriteError| #[trigger] call_requires(*self, (error,))
    }

    open spec fn decides(
        before: Self,
        error: SinkWriteError,
        action: SinkWriteErrorAction,
        after: Self,
    ) -> bool {
        &&& after == before
        &&& call_ensures(before, (&error,), action)
    }

    fn handle(&mut self, error: &SinkWriteError) -> (r: SinkWriteErrorAction)
        ensures
            call_ensures(*old(self), (error,), r),
            *final(self) == *old(self),
    {
        self(error)
    }
}

/// Default sink write error handler that stops collection on the first write failure.
#[derive(Debug, Clone, Copy)]
pub struct FailOnSinkWriteError;

impl Default for FailOnSinkWriteError {
    fn default() -> (r: Self)
        ensures
            r == FailOnSinkWriteError,
    {
        FailOnSinkWriteError
    }
}

impl SinkWriteErrorHandler for FailOnSinkWriteError {
    open spec fn ready(&self) -> bool {
        true
    }

    open spec fn decides(
        before: Self,
        error: SinkWriteError,
        action: SinkWriteErrorAction,
        after: Self,
    ) -> bool {
        action == SinkWriteErrorAction::Stop
    }

    fn handle(&mut self, _error: &SinkWriteError) -> (r: SinkWriteErrorAction)
        ensures
            r == SinkWriteErrorAction::Stop,
    {
        SinkWriteErrorAction::Stop
    }
}

/// Sink write error handler that keeps collecting after every failure.
///
/// The handler only decides to go on, and logs nothing. Logging is up to the application: it passes
/// a handler of its own that logs what the [`SinkWriteError`] tells and then answers
/// [`SinkWriteErrorAction::Continue`].
#[derive(Debug, Clone, Copy)]
pub struct LogAndContinueSinkWriteErrors;

impl Default for LogAndContinueSinkWriteErrors {
    fn default() -> (r: Self)
        ensures
            r == LogAndContinueSinkWriteErrors,
    {
        LogAndContinueSinkWriteErrors
    }
}

impl SinkWriteErrorHandler for LogAndContinueSinkWriteErrors {
    open spec fn ready(&self) -> bool {
        true
    }

    open spec fn decides(
        before: Self,
        error: SinkWriteError,
        action: SinkWriteErrorAction,
        after: Self,
    ) -> bool {
        action == SinkWriteErrorAction::Continue
    }

    fn handle(&mut self, _error: &SinkWriteError) -> (r: SinkWriteErrorAction)
        ensures
            r == SinkWriteErrorAction::Continue,
    {
        SinkWriteErrorAction::Continue
    }
}

/// Options for forwarding collected stream output into an async writer.
///
/// Use [`WriteCollectionOptions::fail_fast`] to stop on the first sink write failure,
/// [`WriteCollectionOptions::log_and_continue`] to keep going, or
/// [`WriteCollectionOptions::with_error_handler`] to make a custom per-error decision.
///
/// The handler type is part of this options type so custom handlers remain statically dispatched
/// and allocation-free.
#[derive(Debug, Clone, Copy)]
pub struct WriteCollectionOptions<H = FailOnSinkWriteError> {
    error_handler: H,
}

impl<H> WriteCollectionOptions<H> {
    /// What decides about failed writes.
    pub closed spec fn error_handler(&self) -> H {
        self.error_handler
    }

    /// Gives the handler out.
    pub fn into_error_handler(self) -> (r: H)
        ensures
            r == self.error_handler(),
    {
        self.error_handler
    }
}

impl WriteCollectionOptions<FailOnSinkWriteError> {
    /// Creates writer collection options that fail on the first sink write error.
    #[must_use]
    pub fn fail_fast() -> (r: Self)
        ensures
            r.error_handler() == FailOnSinkWriteError,
    {
        Self { error_handler: FailOnSinkWriteError }
    }

    /// Creates writer collection options that pass over sink write errors and keep collecting.
    ///
    /// Nothing is logged here. An application that wants each failure logged passes a handler that
    /// logs to [`Self::with_error_handler`].
    #[must_use]
    pub fn log_and_continue() -> (r: WriteCollectionOptions<LogAndContinueSinkWriteErrors>)
        ensures
            r.error_handler() == LogAndContinueSinkWriteErrors,
    {
        WriteCollectionOptions { error_handler: LogAndContinueSinkWriteErrors }
    }

    /// Creates writer collection options with a custom sink write error handler.
    #[must_use]
    pub fn with_error_handler<H>(handler: H) -> (r: WriteCollectionOptions<H>) where
        H: FnMut(&SinkWriteError) -> SinkWriteErrorAction + Send + 'static,

        ensures
            r.error_handler() == handler,
    {
        WriteCollectionOptions { error_handler: handler }
    }
}

/// How a handler deals with the outcome of a write: whether the bytes were written, or the error
/// that ends the collection.
pub open spec fn write_outcome<H: SinkWriteErrorHandler>(
    before: H,
    stream_name: &'static str,
    operation: SinkWriteOperation,
    attempted_len: usize,
    result: io::Result<()>,
    outcome: Result<bool, SinkWriteError>,
    after: H,
) -> bool {
    match result {
        Ok(_) => outcome == Ok::<bool, SinkWriteError>(true) && after == before,
        Err(source) => exists|error: SinkWriteError, action: SinkWriteErrorAction|
            {
                &&& #[trigger] H::decides(before, error, action, after)
                &&& error@ == (WriteFailure { stream_name, operation, attempted_len, source })
                &&& outcome == match action {
                    SinkWriteErrorAction::Stop => Err::<bool, SinkWriteError>(error),
                    SinkWriteErrorAction::Continue => Ok(false),
                }
            },
    }
}

/// Turns the outcome of a write into a decision. `Ok(true)` means that the bytes were written,
/// `Ok(false)` that they were not and this was accepted.
pub fn handle_write_result<H: SinkWriteErrorHandler>(
    stream_name: &'static str,
    error_handler: &mut H,
    operation: SinkWriteOperation,
    attempted_len: usize,
    result: io::Result<()>,
) -> (r: Result<bool, SinkWriteError>)
    requires
        old(error_handler).ready(),
    ensures
        final(error_handler).ready(),
        write_outcome(
            *old(error_handler),
            stream_name,
            operation,
            attempted_len,
            result,
            r,
            *final(error_handler),
        ),
{
    match result {
        Ok(()) => Ok(true),
        Err(source) => {
            let error = SinkWriteError::new(stream_name, operation, attempted_len, source);
            match error_handler.handle(&error) {
                SinkWriteErrorAction::Stop => Err(error),
                SinkWriteErrorAction::Continue => Ok(false),
            }
        },
    }
}

/// Decides about forwarding raw chunks to a writer.
pub struct WriteChunks<H> {
    stream_name: &'static str,
    error_handler: H,
    error: Option<SinkWriteError>,
}

/// The parts of a [`WriteChunks`].
pub struct ChunkWriting<H> {
    /// The name of the stream whose output is written.
    pub stream_name: &'static str,
    /// What decides about failed writes.
    pub error_handler: H,
    /// The error that ended the collection, if any.
    pub error: Option<SinkWriteError>,
}

impl<H> View for WriteChunks<H> {
    type V = ChunkWriting<H>;

    closed spec fn view(&self) -> ChunkWriting<H> {
        ChunkWriting {
            stream_name: self.stream_name,
            error_handler: self.error_handler,
            error: self.error,
        }
    }
}

impl<H: SinkWriteErrorHandler> WriteChunks<H> {
    /// Starts forwarding chunks of the named stream.
    pub fn new(stream_name: &'static str, options: WriteCollectionOptions<H>) -> (r: Self)
        ensures
            r@ == (ChunkWriting {
                stream_name,
                error_handler: options.error_handler(),
                error: None,
            }),
    {
        Self { stream_name, error_handler: options.into_error_handler(), error: None }
    }

    /// Takes note of how writing a chunk of `attempted_len` bytes went.
    pub fn on_chunk_written(&mut self, attempted_len: usize, result: io::Result<()>) -> (r: Next)
        requires
            old(self)@.error_handler.ready(),
        ensures
            final(self)@.error_handler.ready(),
            final(self)@.stream_name == old(self)@.stream_name,
            exists|outcome: Result<bool, SinkWriteError>|
                {
                    &&& #[trigger] write_outcome(
                        old(self)@.error_handler,
                        old(self)@.stream_name,
                        SinkWriteOperation::Chunk,
                        attempted_len,
                        result,
                        outcome,
                        final(self)@.error_handler,
                    )
                    &&& match outcome {
                        Ok(_) => r == Next::Continue && final(self)@.error == old(self)@.error,
                        Err(error) => r == Next::Break && final(self)@.error == Some(error),
                    }
                },
    {
        let outcome = handle_write_result(
            self.stream_name,
            &mut self.error_handler,
            SinkWriteOperation::Chunk,
            attempted_len,
            result,
        );
        assert(write_outcome(
            old(self)@.error_handler,
            old(self)@.stream_name,
            SinkWriteOperation::Chunk,
            attempted_len,
            result,
            outcome,
            self@.error_handler,
        ));
        match outcome {
            Ok(_) => Next::Continue,
            Err(error) => {
                self.error = Some(error);
                Next::Break
            },
        }
    }

    /// The writer, or the error that ended the collection.
    pub fn into_output<W>(self, writer: W) -> (r: Result<W, SinkWriteError>)
        ensures
            r == match self@.error {
                Some(error) => Err::<W, SinkWriteError>(error),
                None => Ok(writer),
            },
    {
        match self.error {
            Some(error) => Err(error),
            None => Ok(writer),
        }
    }
}

/// What writing lines does next.
#[derive(Debug, PartialEq, Eq)]
pub enum LineWriteAction {
    /// Wait for the next event of the stream, and hand it to [`WriteLines::on_event`].
    NextEvent,
    /// Write this line, and report with [`WriteLines::on_line_written`].
    WriteLine(String),
    /// Write a newline, and report with [`WriteLines::on_delimiter_written`].
    WriteDelimiter,
    /// Take the output.
    Finished,
    /// The stream failed.
    Failed(StreamReadError),
}

/// Whether `action` is what comes next when these lines are to be written.
pub open spec fn offers_write(dispatch: Dispatching, action: LineWriteAction) -> bool {
    if dispatch.pending.len() > 0 {
        action matches LineWriteAction::WriteLine(line) && line@ == dispatch.pending[0]
    } else if dispatch.phase == DispatchPhase::Open {
        action == LineWriteAction::NextEvent
    } else {
        action == LineWriteAction::Finished
    }
}

/// Decides about forwarding parsed lines to a writer.
pub struct WriteLines<H> {
    stream_name: &'static str,
    error_handler: H,
    dispatch: LineDispatch,
    mode: LineWriteMode,
    error: Option<SinkWriteError>,
}

/// The parts of a [`WriteLines`].
pub struct LineWriting<H> {
    /// The name of the stream whose output is written.
    pub stream_name: &'static str,
    /// What decides about failed writes.
    pub error_handler: H,
    /// The lines to be written.
    pub dispatch: Dispatching,
    /// Whether lines are delimited.
    pub mode: LineWriteMode,
    /// The error that ended the collection, if any.
    pub error: Option<SinkWriteError>,
}

impl<H> View for WriteLines<H> {
    type V = LineWriting<H>;

    closed spec fn view(&self) -> LineWriting<H> {
        LineWriting {
            stream_name: self.stream_name,
            error_handler: self.error_handler,
            dispatch: self.dispatch@,
            mode: self.mode,
            error: self.error,
        }
    }
}

impl<H: SinkWriteErrorHandler> LineWriting<H> {
    /// The parser is in order and the handler can be called.
    pub open spec fn ready(self) -> bool {
        &&& self.dispatch.ready()
        &&& self.error_handler.ready()
    }

    /// How the outcome of a write changes the writing, and what comes next. A written line is
    /// followed by a delimiter if `delimits`. A failure that the handler does not accept ends the
    /// writing, and the lines behind it are dropped.
    pub open spec fn write_step(
        self,
        operation: SinkWriteOperation,
        attempted_len: usize,
        result: io::Result<()>,
        delimits: bool,
        action: LineWriteAction,
        after: LineWriting<H>,
    ) -> bool {
        exists|outcome: Result<bool, SinkWriteError>|
            {
                &&& #[trigger] write_outcome(
                    self.error_handler,
                    self.stream_name,
                    operation,
                    attempted_len,
                    result,
                    outcome,
                    after.error_handler,
                )
                &&& match outcome {
                    Ok(written) => if written && delimits {
                        &&& action == LineWriteAction::WriteDelimiter
                        &&& after == (LineWriting { error_handler: after.error_handler, ..self })
                    } else {
                        &&& offers_write(self.dispatch, action)
                        &&& after == (LineWriting {
                            error_handler: after.error_handler,
                            dispatch: self.dispatch.handed_out(),
                            ..self
                        })
                    },
                    Err(error) => {
                        &&& action == LineWriteAction::Finished
                        &&& after == (LineWriting {
                            error_handler: after.error_handler,
                            dispatch: self.dispatch.answer(Next::Break),
                            error: Some(error),
                            ..self
                        })
                    },
                }
            }
    }
}

impl<H: SinkWriteErrorHandler> WriteLines<H> {
    /// Starts forwarding lines of the named stream.
    pub fn new(
        stream_name: &'static str,
        write_options: WriteCollectionOptions<H>,
        options: LineParsingOptions,
        mode: LineWriteMode,
    ) -> (r: Self)
        requires
            options.is_limited(),
        ensures
            r@ == (LineWriting {
                stream_name,
                error_handler: write_options.error_handler(),
                dispatch: Dispatching {
                    parser: ParserState::initial(),
                    options,
                    pending: Seq::empty(),
                    phase: DispatchPhase::Open,
                },
                mode,
                error: None,
            }),
    {
        Self {
            stream_name,
            error_handler: write_options.into_error_handler(),
            dispatch: LineDispatch::new(options),
            mode,
            error: None,
        }
    }

    /// Whether the event can be taken in without the line in progress outgrowing its buffer.
    #[must_use]
    pub fn has_room(&self, event: &Option<StreamEvent>) -> (r: bool)
        ensures
            r == self@.dispatch.accepts(event::next_view(*event)),
    {
        self.dispatch.has_room(event)
    }

    /// Takes in the next event of the stream. No event at all means that the stream is closed.
    pub fn on_event(&mut self, event: Option<StreamEvent>) -> (r: LineWriteAction)
        requires
            old(self)@.ready(),
            old(self)@.dispatch.accepts(event::next_view(event)),
        ensures
            final(self)@.ready(),
            match event {
                Some(StreamEvent::ReadError(error)) if old(self)@.dispatch.phase
                    == DispatchPhase::Open => {
                    &&& r == LineWriteAction::Failed(error)
                    &&& final(self)@ == old(self)@
                },
                _ => {
                    let received = old(self)@.dispatch.receive(event::next_view(event));
                    &&& offers_write(received, r)
                    &&& final(self)@ == (LineWriting {
                        dispatch: received.handed_out(),
                        ..old(self)@
                    })
                },
            },
    {
        match self.dispatch.on_event(event) {
            LineAction::NextEvent => LineWriteAction::NextEvent,
            LineAction::Visit(line) => LineWriteAction::WriteLine(line),
            LineAction::Ended | LineAction::Stopped => LineWriteAction::Finished,
            LineAction::Failed(error) => LineWriteAction::Failed(error),
        }
    }

    /// Takes note of how writing a line of `attempted_len` bytes went. The delimiter follows only
    /// behind a line that was written.
    pub fn on_line_written(&mut self, attempted_len: usize, result: io::Result<()>) -> (r:
        LineWriteAction)
        requires
            old(self)@.ready(),
        ensures
            final(self)@.ready(),
            old(self)@.write_step(
                SinkWriteOperation::Line,
                attempted_len,
                result,
                old(self)@.mode == LineWriteMode::AppendLf,
                r,
                final(self)@,
            ),
    {
        let delimits: bool = matches!(self.mode, LineWriteMode::AppendLf);
        self.on_written(SinkWriteOperation::Line, attempted_len, result, delimits)
    }

    /// Takes note of how writing the delimiter went.
    pub fn on_delimiter_written(&mut self, result: io::Result<()>) -> (r: LineWriteAction)
        requires
            old(self)@.ready(),
        ensures
            final(self)@.ready(),
            old(self)@.write_step(
                SinkWriteOperation::LineDelimiter,
                1,
                result,
                false,
                r,
                final(self)@,
            ),
    {
        self.on_written(SinkWriteOperation::LineDelimiter, 1, result, false)
    }

    /// Takes note of how a write went.
    fn on_written(
        &mut self,
        operation: SinkWriteOperation,
        attempted_len: usize,
        result: io::Result<()>,
        delimits: bool,
    ) -> (r: LineWriteAction)
        requires
            old(self)@.ready(),
        ensures
            final(self)@.ready(),
            old(self)@.write_step(operation, attempted_len, result, delimits, r, final(self)@),
    {
        let outcome = handle_write_result(
            self.stream_name,
            &mut self.error_handler,
            operation,
            attempted_len,
            result,
        );
        assert(write_outcome(
            old(self)@.error_handler,
            old(self)@.stream_name,
            operation,
            attempted_len,
            result,
            outcome,
            self@.error_handler,
        ));
        let next = match outcome {
            Ok(written) => {
                if written && delimits {
                    return LineWriteAction::WriteDelimiter;
                }
                Next::Continue
            },
            Err(error) => {
                self.error = Some(error);
                Next::Break
            },
        };
        match self.dispatch.on_visited(next) {
            LineAction::NextEvent => LineWriteAction::NextEvent,
            LineAction::Visit(line) => LineWriteAction::WriteLine(line),
            LineAction::Ended | LineAction::Stopped => LineWriteAction::Finished,
            LineAction::Failed(error) => LineWriteAction::Failed(error),
        }
    }

    /// The writer, or the error that ended the collection.
    pub fn into_output<W>(self, writer: W) -> (r: Result<W, SinkWriteError>)
        ensures
            r == match self@.error {
                Some(error) => Err::<W, SinkWriteError>(error),
                None => Ok(writer),
            },
    {
        match self.error {
            Some(error) => Err(error),
            None => Ok(writer),
        }
    }
}

/// The default handler stops at every failure, and the other one at none.
pub proof fn handlers_decide_alike_every_time(error: SinkWriteError, action: SinkWriteErrorAction)
    ensures
        FailOnSinkWriteError::decides(FailOnSinkWriteError, error, action, FailOnSinkWriteError) == (
        action == SinkWriteErrorAction::Stop),
        LogAndContinueSinkWriteErrors::decides(
            LogAndContinueSinkWriteErrors,
            error,
            action,
            LogAndContinueSinkWriteErrors,
        ) == (action == SinkWriteErrorAction::Continue),
{
}

} // verus!
