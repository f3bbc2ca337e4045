//! The contract between a stream and its observers, and the decisions of the loop that drives an
//! observer over the events of a stream.

use crate::error::StreamReadError;
use crate::output_stream::event::{Chunk, StreamEvent};
use crate::output_stream::Next;
use vstd::prelude::*;

verus! {

/// An observer of the chunks of a stream.
///
/// Implementors describe what they do with relations between their value before and after a call,
/// so that visitors with any kind of state fit in. One that states no relation promises nothing.
pub trait StreamVisitor: Sized + Send + 'static {
    /// Final value produced once the visitor is finished.
    type Output: Send + 'static;

    /// What the visitor relies on. It holds whenever the visitor is called.
    open spec fn ready(&self) -> bool {
        true
    }

    /// Whether the visitor has room for these bytes.
    open spec fn accepts(&self, chunk: Seq<u8>) -> bool {
        true
    }

    /// Whether the visitor may be shown this chunk.
    open spec fn takes(&self, chunk: Chunk) -> bool {
        true
    }

    /// Whether the visitor may be told of the end of the stream.
    open spec fn takes_end(&self) -> bool {
        true
    }

    /// How observing a chunk turns `before` into `after`, and which answer it gives.
    open spec fn chunk_step(before: Self, chunk: Chunk, next: Next, after: Self) -> bool {
        true
    }

    /// How a gap turns `before` into `after`.
    open spec fn gap_step(before: Self, after: Self) -> bool {
        true
    }

    /// How the end of the stream turns `before` into `after`.
    open spec fn eof_step(before: Self, after: Self) -> bool {
        true
    }

    /// Which output a visitor gives.
    open spec fn outputs(visitor: Self, output: Self::Output) -> bool {
        true
    }

    /// Whether the visitor has room for the chunk. Most visitors always have.
    fn has_room(&self, chunk: &Chunk) -> (r: bool)
        ensures
            r == self.accepts(chunk@),
    ;

    /// Invoked for every chunk. Return [`Next::Break`] to stop visiting.
    fn on_chunk(&mut self, chunk: Chunk) -> (r: Next)
        requires
            old(self).ready(),
            old(self).accepts(chunk@),
            old(self).takes(chunk),
        ensures
            final(self).ready(),
            Self::chunk_step(*old(self), chunk, r, *final(self)),
    ;

    /// Invoked where chunks were dropped between deliveries.
    fn on_gap(&mut self)
        requires
            old(self).ready(),
        ensures
            final(self).ready(),
            Self::gap_step(*old(self), *final(self)),
    ;

    /// Invoked once when the stream ends.
    fn on_eof(&mut self)
        requires
            old(self).ready(),
            old(self).takes_end(),
        ensures
            final(self).ready(),
            Self::eof_step(*old(self), *final(self)),
    ;

    /// Consumes the visitor and returns its final output.
    #[must_use]
    fn into_output(self) -> (r: Self::Output)
        ensures
            Self::outputs(self, r),
    ;
}

/// Calls a method on `target`. What is known of the call is what the contract of the method says of
/// some call that finds the old value and leaves the new one.
pub(crate) fn call_on<X, R, F: FnOnce(&mut X) -> R>(method: F, target: &mut X) -> (r: R)
    requires
        forall|called: &mut X|
            *called == *old(target) ==> #[trigger] call_requires(method, (called,)),
    ensures
        exists|called: &mut X|
            {
                &&& *called == *old(target)
                &&& *final(called) == *final(target)
                &&& #[trigger] call_ensures(method, (called,), r)
            },
{
    method(target)
}

/// Calls a method with an argument, as [`call_on`] does without one.
pub(crate) fn call_on_with<X, A, R, F: FnOnce(&mut X, A) -> R>(
    method: F,
    target: &mut X,
    argument: A,
) -> (r: R)
    requires
        forall|called: &mut X|
            *called == *old(target) ==> #[trigger] call_requires(method, (called, argument)),
    ensures
        exists|called: &mut X|
            {
                &&& *called == *old(target)
                &&& *final(called) == *final(target)
                &&& #[trigger] call_ensures(method, (called, argument), r)
            },
{
    method(target, argument)
}

/// How driving a visitor goes on after an event.
#[derive(Debug, PartialEq, Eq)]
pub enum Progress {
    /// Wait for the next event.
    Continue,
    /// The visitor is finished, its output can be taken.
    Finished,
    /// The stream failed. The output of the visitor is lost.
    Failed(StreamReadError),
}

/// What an event asks of a consumer.
#[derive(Debug, PartialEq, Eq)]
pub enum EventStep {
    /// Visit this chunk.
    Visit(Chunk),
    /// Take note that chunks were dropped.
    NoteGap,
    /// The stream has ended.
    End,
    /// The stream failed.
    Fail(StreamReadError),
}

/// Says what the next event of a stream asks for. No event at all means that the stream is closed.
#[must_use]
pub fn event_step(event: Option<StreamEvent>) -> (r: EventStep)
    ensures
        r == match event {
            Some(StreamEvent::Chunk(chunk)) => EventStep::Visit(chunk),
            Some(StreamEvent::Gap) => EventStep::NoteGap,
            Some(StreamEvent::Eof) | None => EventStep::End,
            Some(StreamEvent::ReadError(error)) => EventStep::Fail(error),
        },
{
    match event {
        Some(StreamEvent::Chunk(chunk)) => EventStep::Visit(chunk),
        Some(StreamEvent::Gap) => EventStep::NoteGap,
        Some(StreamEvent::Eof) | None => EventStep::End,
        Some(StreamEvent::ReadError(error)) => EventStep::Fail(error),
    }
}

/// How an event turns a visitor from `before` into `after`, and how driving it goes on.
pub open spec fn consumes<V: StreamVisitor>(
    before: V,
    event: Option<StreamEvent>,
    progress: Progress,
    after: V,
) -> bool {
    match event {
        Some(StreamEvent::Chunk(chunk)) => {
            ||| progress == Progress::Continue && V::chunk_step(
                before,
                chunk,
                Next::Continue,
                after,
            )
            ||| progress == Progress::Finished && V::chunk_step(before, chunk, Next::Break, after)
        },
        Some(StreamEvent::Gap) => progress == Progress::Continue && V::gap_step(before, after),
        Some(StreamEvent::Eof) | None => progress == Progress::Finished && V::eof_step(
            before,
            after,
        ),
        Some(StreamEvent::ReadError(error)) => progress == Progress::Failed(error) && after
            == before,
    }
}

/// Hands one event of a stream to a visitor. No event at all means that the stream is closed.
///
/// Driving a visitor is calling this for every event until it does not answer
/// [`Progress::Continue`]. Cancellation between two events also finishes the visitor.
///
/// The visitor gets exactly the one call that the event asks for, so all that the method promises
/// beyond the relations of the trait holds as well.
pub fn consume_event<V: StreamVisitor>(visitor: &mut V, event: Option<StreamEvent>) -> (r: Progress)
    requires
        old(visitor).ready(),
        event matches Some(StreamEvent::Chunk(chunk)) ==> old(visitor).accepts(chunk@),
        event matches Some(StreamEvent::Chunk(chunk)) ==> old(visitor).takes(chunk),
        event is None || event == Some(StreamEvent::Eof) ==> old(visitor).takes_end(),
    ensures
        final(visitor).ready(),
        consumes(*old(visitor), event, r, *final(visitor)),
        match event {
            Some(StreamEvent::Chunk(chunk)) => exists|called: &mut V, next: Next|
                {
                    &&& *called == *old(visitor)
                    &&& *final(called) == *final(visitor)
                    &&& #[trigger] call_ensures(V::on_chunk, (called, chunk), next)
                    &&& r == match next {
                        Next::Continue => Progress::Continue,
                        Next::Break => Progress::Finished,
                    }
                },
            Some(StreamEvent::Gap) => r == Progress::Continue && exists|called: &mut V|
                {
                    &&& *called == *old(visitor)
                    &&& *final(called) == *final(visitor)
                    &&& #[trigger] call_ensures(V::on_gap, (called,), ())
                },
            Some(StreamEvent::Eof) | None => r == Progress::Finished && exists|called: &mut V|
                {
                    &&& *called == *old(visitor)
                    &&& *final(called) == *final(visitor)
                    &&& #[trigger] call_ensures(V::on_eof, (called,), ())
                },
            Some(StreamEvent::ReadError(error)) => r == Progress::Failed(error) && *final(visitor)
                == *old(visitor),
        },
{
    match event_step(event) {
        EventStep::Visit(chunk) => {
            match call_on_with(V::on_chunk, visitor, chunk) {
                Next::Continue => Progress::Continue,
                Next::Break => Progress::Finished,
            }
        },
        EventStep::NoteGap => {
            call_on(V::on_gap, visitor);
            Progress::Continue
        },
        EventStep::End => {
            call_on(V::on_eof, visitor);
            Progress::Finished
        },
        EventStep::Fail(error) => Progress::Failed(error),
    }
}

} // verus!
