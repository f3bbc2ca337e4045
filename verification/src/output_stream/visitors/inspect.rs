//! Visitors that observe output without retaining it.

use crate::output_stream::event::Chunk;
use crate::output_stream::line::adapter::{self, LineVisitor, ParseLines, Parsing};
use crate::output_stream::line::options::LineParsingOptions;
use crate::output_stream::line::parser::{self, ParserState};
use crate::output_stream::line::text;
use crate::output_stream::visitor::StreamVisitor;
use crate::output_stream::Next;
use std::borrow::Cow;
use std::marker::PhantomData;
use vstd::prelude::*;

verus! {

/// [`StreamVisitor`] wrapping a per-chunk closure. It is the same closure for every call; what it
/// captures is no part of what is said of it.
pub struct InspectChunks<F> {
    /// Called once for each chunk.
    pub f: F,
}

impl<F> InspectChunks<F> where F: FnMut(Chunk) -> Next + Send + 'static {
    /// Creates a new visitor that calls `f` once for each chunk.
    pub fn new(f: F) -> (r: Self)
        ensures
            r.f == f,
    {
        Self { f }
    }
}

impl<F> StreamVisitor for InspectChunks<F> where F: FnMut(Chunk) -> Next + Send + 'static {
    type Output = ();

    open spec fn ready(&self) -> bool {
        true
    }

    open spec fn takes(&self, chunk: Chunk) -> bool {
        call_requires(self.f, (chunk,))
    }

    open spec fn accepts(&self, chunk: Seq<u8>) -> bool {
        true
    }

    open spec fn chunk_step(before: Self, chunk: Chunk, next: Next, after: Self) -> bool {
        &&& after == before
        &&& call_ensures(before.f, (chunk,), next)
    }

    open spec fn gap_step(before: Self, after: Self) -> bool {
        after == before
    }

    open spec fn eof_step(before: Self, after: Self) -> bool {
        after == before
    }

    open spec fn outputs(visitor: Self, output: ()) -> bool {
        true
    }

    fn has_room(&self, chunk: &Chunk) -> (r: bool) {
        true
    }

    fn on_chunk(&mut self, chunk: Chunk) -> (r: Next) {
        (self.f)(chunk)
    }

    fn on_gap(&mut self) {
    }

    fn on_eof(&mut self) {
    }

    fn into_output(self) -> (r: ()) {
    }
}

/// [`LineVisitor`] wrapping a per-line closure. Compose with [`ParseLines`] to inspect the lines of
/// a stream. It is the same closure for every call; what it captures is no part of what is said of
/// it.
pub struct InspectLineSink<F> {
    /// Called once for each line.
    pub f: F,
}

impl<F> InspectLineSink<F> where F: FnMut(Cow<'_, str>) -> Next + Send + 'static {
    /// Creates a new sink that calls `f` once for each parsed line.
    pub fn new(f: F) -> (r: Self)
        ensures
            r.f == f,
    {
        Self { f }
    }
}

impl<F> LineVisitor for InspectLineSink<F> where F: FnMut(Cow<'_, str>) -> Next + Send + 'static {
    type Output = ();

    open spec fn ready(&self) -> bool {
        true
    }

    open spec fn takes(&self, line: Cow<'_, str>) -> bool {
        call_requires(self.f, (line,))
    }

    open spec fn line_step(before: Self, line: Seq<char>, next: Next, after: Self) -> bool {
        &&& after == before
        &&& exists|text: Cow<'_, str>|
            text@ == line && #[trigger] call_ensures(before.f, (text,), next)
    }

    open spec fn gap_step(before: Self, after: Self) -> bool {
        after == before
    }

    open spec fn eof_step(before: Self, after: Self) -> bool {
        after == before
    }

    open spec fn outputs(visitor: Self, output: ()) -> bool {
        true
    }

    fn on_line(&mut self, line: Cow<'_, str>) -> (r: Next) {
        (self.f)(line)
    }

    fn on_gap(&mut self) {
    }

    fn on_eof(&mut self) {
    }

    fn into_output(self) -> (r: ()) {
    }
}

impl<F> ParseLines<InspectLineSink<F>> where F: FnMut(Cow<'_, str>) -> Next + Send + 'static {
    /// Convenience constructor: wraps `f` in an [`InspectLineSink`] and composes it with the line
    /// adapter.
    pub fn inspect(options: LineParsingOptions, f: F) -> (r: Self)
        requires
            options.is_limited(),
        ensures
            r@ == (Parsing {
                parser: ParserState::initial(),
                options,
                inner: InspectLineSink { f },
            }),
    {
        Self::new(options, InspectLineSink::new(f))
    }
}

/// Whether the closure may answer a line like this.
pub open spec fn may_answer<F>(f: F, line: Seq<char>, next: Next) -> bool where
    F: FnMut(Cow<'_, str>) -> Next + Send + 'static,
 {
    exists|text: Cow<'_, str>| text@ == line && #[trigger] call_ensures(f, (text,), next)
}

/// Lines that are passed over without a break were all shown to the closure, which answered each of
/// them.
pub proof fn passed_lines_were_inspected<F>(
    before: InspectLineSink<F>,
    lines: Seq<Seq<char>>,
    after: InspectLineSink<F>,
) where F: FnMut(Cow<'_, str>) -> Next + Send + 'static
    requires
        adapter::observes(before, lines, after),
    ensures
        after == before,
        forall|i: int|
            0 <= i < lines.len() ==> may_answer(before.f, #[trigger] lines[i], Next::Continue),
    decreases lines.len(),
{
    if lines.len() > 0 {
        let middle = choose|middle: InspectLineSink<F>|
            #![trigger InspectLineSink::<F>::line_step(middle, lines.last(), Next::Continue, after)]
            {
                &&& adapter::observes(before, lines.drop_last(), middle)
                &&& InspectLineSink::<F>::line_step(middle, lines.last(), Next::Continue, after)
            };
        passed_lines_were_inspected(before, lines.drop_last(), middle);
        assert forall|i: int| 0 <= i < lines.len() implies may_answer(
            before.f,
            #[trigger] lines[i],
            Next::Continue,
        ) by {
            if i < lines.len() - 1 {
                assert(lines.drop_last()[i] == lines[i]);
            }
        }
    }
}

/// A closure that can be called with any line can be called with those of any stream.
pub proof fn total_closure_takes_every_line<F>(
    visitor: ParseLines<InspectLineSink<F>>,
    chunk: Chunk,
) where F: FnMut(Cow<'_, str>) -> Next + Send + 'static
    requires
        forall|line: Cow<'_, str>| #[trigger] call_requires(visitor@.inner.f, (line,)),
    ensures
        visitor.takes(chunk),
        visitor.takes_end(),
{
    let lines = parser::feed(visitor@.parser, chunk@, visitor@.options).0;
    assert forall|i: int, inner: InspectLineSink<F>, line: Cow<'_, str>|
        #![trigger lines[i], inner.takes(line)]
        {
            &&& 0 <= i < lines.len()
            &&& adapter::observes(visitor@.inner, text::decoded(lines.take(i)), inner)
            &&& line@ == text::text_of(lines[i])
        } implies inner.takes(line) by {
        passed_lines_were_inspected(visitor@.inner, text::decoded(lines.take(i)), inner);
    }
}

/// Holds a per-line closure whose answer has to be awaited, to be called once for each parsed line.
pub struct InspectLineSinkAsync<F, Fut> {
    /// Called once for each line.
    pub f: F,
    /// Carries the type of the future, so callers never name it.
    pub future: PhantomData<Fut>,
}

impl<F, Fut> InspectLineSinkAsync<F, Fut> {
    /// Creates a new sink that awaits `f` once for each parsed line.
    pub fn new(f: F) -> (r: Self)
        ensures
            r.f == f,
    {
        Self { f, future: PhantomData }
    }
}

} // verus!
