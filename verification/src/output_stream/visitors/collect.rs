//! Visitors that retain observed output in a sink.

use crate::output_stream::collection::{
    self, CollectedBytes, CollectedLines, Collection, LineCollectionOptions, RawCollection,
    RawCollectionOptions,
};
use crate::output_stream::event::Chunk;
use crate::output_stream::line::adapter::{LineVisitor, ParseLines, Parsing};
use crate::output_stream::line::options::LineParsingOptions;
use crate::output_stream::line::parser::ParserState;
use crate::output_stream::line::text::into_owned;
use crate::output_stream::visitor::StreamVisitor;
use crate::output_stream::Next;
use std::borrow::Cow;
use vstd::prelude::*;

verus! {

/// A trait for types that can act as sinks for collected stream data.
///
/// This is automatically implemented for any type that is `Send + 'static`.
pub trait Sink: Send + 'static {

}

impl<T> Sink for T where T: Send + 'static {

}

/// [`StreamVisitor`] that hands every chunk to a closure together with a sink.
///
/// The closure is called with the sink as it was, and the visitor keeps the sink as the closure left
/// it. It is the same closure for every call; what it captures is no part of what is said of it.
pub struct CollectChunks<T, F> {
    /// What is collected into.
    pub sink: T,
    /// Called once for each chunk.
    pub f: F,
}

impl<T, F> CollectChunks<T, F> where T: Sink, F: FnMut(Chunk, &mut T) + Send + 'static {
    /// Creates a new visitor that calls `f` once for each chunk, with access to `sink`.
    pub fn new(sink: T, f: F) -> (r: Self)
        ensures
            r.sink == sink,
            r.f == f,
    {
        Self { sink, f }
    }
}

impl<T, F> StreamVisitor for CollectChunks<T, F> where
    T: Sink,
    F: FnMut(Chunk, &mut T) + Send + 'static,
 {
    type Output = T;

    open spec fn ready(&self) -> bool {
        forall|chunk: Chunk, sink: &mut T| #[trigger] call_requires(self.f, (chunk, sink))
    }

    open spec fn accepts(&self, chunk: Seq<u8>) -> bool {
        true
    }

    open spec fn chunk_step(before: Self, chunk: Chunk, next: Next, after: Self) -> bool {
        &&& next == Next::Continue
        &&& after.f == before.f
        &&& exists|sink: &mut T|
            *sink == before.sink && #[trigger] call_ensures(before.f, (chunk, sink), ())
    }

    open spec fn gap_step(before: Self, after: Self) -> bool {
        after == before
    }

    open spec fn eof_step(before: Self, after: Self) -> bool {
        after == before
    }

    open spec fn outputs(visitor: Self, output: T) -> bool {
        output == visitor.sink
    }

    fn has_room(&self, chunk: &Chunk) -> (r: bool) {
        true
    }

    fn on_chunk(&mut self, chunk: Chunk) -> (r: Next)
        ensures
            exists|sink: &mut T|
                {
                    &&& *sink == old(self).sink
                    &&& #[trigger] call_ensures(old(self).f, (chunk, sink), ())
                    &&& *final(sink) == final(self).sink
                },
    {
        (self.f)(chunk, &mut self.sink);
        Next::Continue
    }

    fn on_gap(&mut self) {
    }

    fn on_eof(&mut self) {
    }

    fn into_output(self) -> (r: T)
        ensures
            r == self.sink,
    {
        self.sink
    }
}

/// [`LineVisitor`] that hands every line to a closure together with a sink.
///
/// The closure is called with the sink as it was, and the visitor keeps the sink as the closure left
/// it. It is the same closure for every call; what it captures is no part of what is said of it.
pub struct CollectLines<T, F> {
    /// What is collected into.
    pub sink: T,
    /// Called once for each line.
    pub f: F,
}

impl<T, F> CollectLines<T, F> where T: Sink, F: FnMut(Cow<'_, str>, &mut T) -> Next + Send + 'static {
    /// Creates a new visitor that calls `f` once for each line, with access to `sink`.
    pub fn new(sink: T, f: F) -> (r: Self)
        ensures
            r.sink == sink,
            r.f == f,
    {
        Self { sink, f }
    }
}

impl<T, F> LineVisitor for CollectLines<T, F> where
    T: Sink,
    F: FnMut(Cow<'_, str>, &mut T) -> Next + Send + 'static,
 {
    type Output = T;

    open spec fn ready(&self) -> bool {
        forall|line: Cow<'_, str>, sink: &mut T| #[trigger] call_requires(self.f, (line, sink))
    }

    open spec fn line_step(before: Self, line: Seq<char>, next: Next, after: Self) -> bool {
        &&& after.f == before.f
        &&& exists|text: Cow<'_, str>, sink: &mut T|
            text@ == line && *sink == before.sink && #[trigger] call_ensures(
                before.f,
                (text, sink),
                next,
            )
    }

    open spec fn gap_step(before: Self, after: Self) -> bool {
        after == before
    }

    open spec fn eof_step(before: Self, after: Self) -> bool {
        after == before
    }

    open spec fn outputs(visitor: Self, output: T) -> bool {
        output == visitor.sink
    }

    fn on_line(&mut self, line: Cow<'_, str>) -> (r: Next)
        ensures
            exists|sink: &mut T|
                {
                    &&& *sink == old(self).sink
                    &&& #[trigger] call_ensures(old(self).f, (line, sink), r)
                    &&& *final(sink) == final(self).sink
                },
    {
        (self.f)(line, &mut self.sink)
    }

    fn on_gap(&mut self) {
    }

    fn on_eof(&mut self) {
    }

    fn into_output(self) -> (r: T)
        ensures
            r == self.sink,
    {
        self.sink
    }
}

impl<T, F> ParseLines<CollectLines<T, F>> where
    T: Sink,
    F: FnMut(Cow<'_, str>, &mut T) -> Next + Send + 'static,
 {
    /// Convenience constructor: wraps `sink` and `f` in a [`CollectLines`] and composes it with
    /// the line adapter.
    pub fn collect(options: LineParsingOptions, sink: T, f: F) -> (r: Self)
        requires
            options.is_limited(),
        ensures
            r@ == (Parsing {
                parser: ParserState::initial(),
                options,
                inner: CollectLines { sink, f },
            }),
    {
        Self::new(options, CollectLines::new(sink, f))
    }
}

/// [`StreamVisitor`] that collects raw bytes into memory.
pub struct CollectChunksIntoVec {
    collected: CollectedBytes,
    options: RawCollectionOptions,
}

impl CollectChunksIntoVec {
    /// What was collected so far.
    pub closed spec fn collection(&self) -> RawCollection {
        self.collected@
    }

    /// The limits of the collection.
    pub closed spec fn limits(&self) -> RawCollectionOptions {
        self.options
    }

    /// Creates a visitor that has collected nothing yet.
    pub fn new(options: RawCollectionOptions) -> (r: Self)
        ensures
            r.collection() == RawCollection::empty(),
            r.limits() == options,
    {
        Self { collected: CollectedBytes::new(), options }
    }
}

impl StreamVisitor for CollectChunksIntoVec {
    type Output = CollectedBytes;

    open spec fn ready(&self) -> bool {
        true
    }

    open spec fn accepts(&self, chunk: Seq<u8>) -> bool {
        collection::is_representable(self.collection().bytes.len(), chunk.len(), self.limits())
    }

    open spec fn chunk_step(before: Self, chunk: Chunk, next: Next, after: Self) -> bool {
        &&& next == Next::Continue
        &&& after.limits() == before.limits()
        &&& after.collection() == before.collection().with_chunk(chunk@, before.limits())
    }

    open spec fn gap_step(before: Self, after: Self) -> bool {
        after == before
    }

    open spec fn eof_step(before: Self, after: Self) -> bool {
        after == before
    }

    open spec fn outputs(visitor: Self, output: CollectedBytes) -> bool {
        output@ == visitor.collection()
    }

    fn has_room(&self, chunk: &Chunk) -> (r: bool) {
        self.collected.has_room(chunk.as_ref().len(), self.options)
    }

    fn on_chunk(&mut self, chunk: Chunk) -> (r: Next) {
        self.collected.push_chunk(chunk.as_ref(), self.options);
        Next::Continue
    }

    fn on_gap(&mut self) {
    }

    fn on_eof(&mut self) {
    }

    fn into_output(self) -> (r: CollectedBytes)
        ensures
            r@ == self.collection(),
    {
        self.collected
    }
}

/// [`LineVisitor`] that collects lines into memory.
pub struct CollectLinesIntoVec {
    collected: CollectedLines,
    options: LineCollectionOptions,
}

impl CollectLinesIntoVec {
    /// What was collected so far.
    pub closed spec fn collection(&self) -> Collection {
        self.collected@
    }

    /// The limits of the collection.
    pub closed spec fn limits(&self) -> LineCollectionOptions {
        self.options
    }

    /// The byte count of the collection is right.
    pub closed spec fn wf(&self) -> bool {
        self.collected.wf()
    }

    /// Creates a visitor that has collected nothing yet.
    pub fn new(options: LineCollectionOptions) -> (r: Self)
        ensures
            r.wf(),
            r.collection() == Collection::empty(),
            r.limits() == options,
    {
        Self { collected: CollectedLines::new(), options }
    }
}

impl LineVisitor for CollectLinesIntoVec {
    type Output = CollectedLines;

    open spec fn ready(&self) -> bool {
        self.wf()
    }

    open spec fn line_step(before: Self, line: Seq<char>, next: Next, after: Self) -> bool {
        &&& next == Next::Continue
        &&& after.limits() == before.limits()
        &&& after.collection() == before.collection().with_line(line, before.limits())
    }

    open spec fn gap_step(before: Self, after: Self) -> bool {
        after == before
    }

    open spec fn eof_step(before: Self, after: Self) -> bool {
        after == before
    }

    open spec fn outputs(visitor: Self, output: CollectedLines) -> bool {
        output@ == visitor.collection()
    }

    fn on_line(&mut self, line: Cow<'_, str>) -> (r: Next) {
        self.collected.push_line(into_owned(line), self.options);
        Next::Continue
    }

    fn on_gap(&mut self) {
    }

    fn on_eof(&mut self) {
    }

    fn into_output(self) -> (r: CollectedLines)
        ensures
            r@ == self.collection(),
    {
        self.collected
    }
}

/// Whether lines parsed with these options may be collected into memory like this: lines need a
/// length limit unless the collection is trusted and has no limit either.
pub open spec fn bounds_lines(
    parsing: LineParsingOptions,
    collection: LineCollectionOptions,
) -> bool {
    parsing.is_limited() || collection is TrustedUnbounded
}

/// What is wrong with collecting lines without a length limit into a bounded collection.
pub open spec fn unbounded_lines_message() -> Seq<char> {
    "parsing_options.max_line_length must be greater than zero unless line collection is trusted-unbounded"@
}

/// Checks that lines have a length limit, which collecting them into memory needs unless the
/// collection is trusted and has no limit either.
pub fn check_lines_bounded(
    parsing_options: &LineParsingOptions,
    collection_options: &LineCollectionOptions,
) -> (r: Result<(), &'static str>)
    ensures
        match r {
            Ok(_) => bounds_lines(*parsing_options, *collection_options),
            Err(message) => {
                &&& !bounds_lines(*parsing_options, *collection_options)
                &&& message@ == unbounded_lines_message()
            },
        },
        r is Ok == (parsing_options.max_line_length@ > 0 || *collection_options
            == LineCollectionOptions::TrustedUnbounded),
        r matches Err(message) ==> message@
            == "parsing_options.max_line_length must be greater than zero unless line collection is trusted-unbounded"@,
{
    let trusted = matches!(collection_options, LineCollectionOptions::TrustedUnbounded);
    if parsing_options.max_line_length.bytes() > 0 || trusted {
        Ok(())
    } else {
        Err(
            "parsing_options.max_line_length must be greater than zero unless line collection is trusted-unbounded",
        )
    }
}

impl ParseLines<CollectLinesIntoVec> {
    /// A visitor that parses lines and collects them into memory.
    ///
    /// Lines need a length limit unless the collection is trusted and has no limit either.
    pub fn collect_into_vec(
        parsing_options: LineParsingOptions,
        collection_options: LineCollectionOptions,
    ) -> (r: Self)
        requires
            bounds_lines(parsing_options, collection_options),
        ensures
            r.ready(),
            r@.parser == ParserState::initial(),
            r@.options == parsing_options,
            r@.inner.collection() == Collection::empty(),
            r@.inner.limits() == collection_options,
    {
        Self::from_parts(parsing_options, CollectLinesIntoVec::new(collection_options))
    }
}

} // verus!
