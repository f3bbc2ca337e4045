//! Adapter that turns a chunk-level [`StreamVisitor`] into a line-level [`LineVisitor`].
//!
//! Adding a new line-aware visitor is "implement [`LineVisitor`] and compose with [`ParseLines`]".

use crate::output_stream::event::Chunk;
use crate::output_stream::line::laws;
use crate::output_stream::line::options::LineParsingOptions;
use crate::output_stream::line::parser::{self, LineParser, ParserState};
use crate::output_stream::line::text;
use crate::output_stream::visitor::{call_on, call_on_with, StreamVisitor};
use crate::output_stream::Next;
use std::borrow::Cow;
use vstd::prelude::*;

verus! {

/// Per-line action selected by the [`StreamVisitor`] impl of [`ParseLines`].
///
/// Implementors only describe what should happen for each parsed line; chunk parsing, gap
/// handling, and EOF flushing are carried by the adapter. One that states no relation between its
/// value before and after a call promises nothing.
pub trait LineVisitor: Sized + Send + 'static {
    /// Final value produced once the adapter is finished.
    type Output: Send + 'static;

    /// What the visitor relies on. It holds whenever the visitor is called.
    open spec fn ready(&self) -> bool {
        true
    }

    /// Whether the visitor may be shown this line.
    open spec fn takes(&self, line: Cow<'_, str>) -> bool {
        true
    }

    /// How observing a line turns `before` into `after`, and which answer it gives.
    open spec fn line_step(before: Self, line: Seq<char>, next: Next, after: Self) -> bool {
        true
    }

    /// How a gap turns `before` into `after`.
    open spec fn gap_step(before: Self, after: Self) -> bool {
        true
    }

    /// How the end of the stream turns `before` into `after`.
    open spec fn eof_step(before: Self, after: Self) -> bool {
        true
    }

    /// Which output a visitor gives.
    open spec fn outputs(visitor: Self, output: Self::Output) -> bool {
        true
    }

    /// Invoked for every parsed line. Return [`Next::Break`] to stop further parsing.
    fn on_line(&mut self, line: Cow<'_, str>) -> (r: Next)
        requires
            old(self).ready(),
            old(self).takes(line),
        ensures
            final(self).ready(),
            Self::line_step(*old(self), line@, r, *final(self)),
    ;

    /// Invoked after the adapter resets the parser following a stream gap.
    fn on_gap(&mut self)
        requires
            old(self).ready(),
        ensures
            final(self).ready(),
            Self::gap_step(*old(self), *final(self)),
    ;

    /// Invoked once the adapter finishes flushing any trailing line at EOF.
    fn on_eof(&mut self)
        requires
            old(self).ready(),
        ensures
            final(self).ready(),
            Self::eof_step(*old(self), *final(self)),
    ;

    /// Consumes the visitor and returns its final output.
    #[must_use]
    fn into_output(self) -> (r: Self::Output)
        ensures
            Self::outputs(self, r),
    ;
}

/// Whether observing `lines` in order, each answered with [`Next::Continue`], turns `before` into
/// `after`.
pub open spec fn observes<S: LineVisitor>(before: S, lines: Seq<Seq<char>>, after: S) -> bool
    decreases lines.len(),
{
    if lines.len() == 0 {
        before == after
    } else {
        exists|middle: S|
            #![trigger S::line_step(middle, lines.last(), Next::Continue, after)]
            {
                &&& observes(before, lines.drop_last(), middle)
                &&& S::line_step(middle, lines.last(), Next::Continue, after)
            }
    }
}

proof fn observes_push<S: LineVisitor>(
    before: S,
    lines: Seq<Seq<char>>,
    middle: S,
    line: Seq<char>,
    after: S,
)
    requires
        observes(before, lines, middle),
        S::line_step(middle, line, Next::Continue, after),
    ensures
        observes(before, lines.push(line), after),
{
    assert(lines.push(line).drop_last() =~= lines);
    assert(S::line_step(middle, lines.push(line).last(), Next::Continue, after));
}

/// Whether `states` goes from `start` to `end`.
pub open spec fn leads<S>(states: Seq<S>, start: S, end: S) -> bool {
    states.len() > 0 && states[0] == start && states.last() == end
}

/// Whether `i` is one of the first `len` indices.
pub open spec fn is_index(i: int, len: int) -> bool {
    0 <= i < len
}

/// The answer to the line `i` of `seen` lines, of which only the last can have been answered with
/// something else than [`Next::Continue`].
pub open spec fn answer_of(i: int, seen: int, last: Next) -> Next {
    if i == seen - 1 {
        last
    } else {
        Next::Continue
    }
}

/// The parts of a [`ParseLines`].
pub struct Parsing<S> {
    /// The state of the parser.
    pub parser: ParserState,
    /// How lines are parsed.
    pub options: LineParsingOptions,
    /// The visitor of the lines.
    pub inner: S,
}

/// Whether the visitor may be shown every line that the chunk completes, whatever it became by
/// observing the lines before it.
pub open spec fn takes_lines<S: LineVisitor>(parsing: Parsing<S>, chunk: Seq<u8>) -> bool {
    let lines = parser::feed(parsing.parser, chunk, parsing.options).0;
    forall|i: int, inner: S, line: Cow<'_, str>|
        #![trigger lines[i], inner.takes(line)]
        {
            &&& 0 <= i < lines.len()
            &&& observes(parsing.inner, text::decoded(lines.take(i)), inner)
            &&& line@ == text::text_of(lines[i])
        } ==> inner.takes(line)
}

/// Whether the visitor may be shown the unterminated last line, if there is one.
pub open spec fn takes_trailing_line<S: LineVisitor>(parsing: Parsing<S>) -> bool {
    parser::trailing_line(parsing.parser) matches Some(bytes) ==> forall|line: Cow<'_, str>|
        line@ == text::text_of(bytes) ==> #[trigger] parsing.inner.takes(line)
}

/// How a chunk changes an adapter. Every line that the chunk completes is observed in order, until
/// one is answered with [`Next::Break`]. The lines behind that one are not observed.
pub open spec fn parse_step<S: LineVisitor>(
    before: Parsing<S>,
    chunk: Seq<u8>,
    next: Next,
    after: Parsing<S>,
) -> bool {
    let (lines, end) = parser::feed(before.parser, chunk, before.options);
    &&& after.options == before.options
    &&& match next {
        Next::Continue => {
            &&& after.parser == end
            &&& observes(before.inner, text::decoded(lines), after.inner)
        },
        Next::Break => exists|seen: int, middle: S|
            #![trigger S::line_step(
                middle,
                text::text_of(lines[seen]),
                Next::Break,
                after.inner,
            )]
            {
                &&& 0 <= seen < lines.len()
                &&& after.parser == parser::advance(
                    before.parser,
                    chunk,
                    before.options,
                    (seen + 1) as nat,
                ).0
                &&& observes(before.inner, text::decoded(lines.take(seen)), middle)
                &&& S::line_step(
                    middle,
                    text::text_of(lines[seen]),
                    Next::Break,
                    after.inner,
                )
            },
    }
}

/// How the end of the stream changes an adapter. An unterminated last line is observed first,
/// whatever it is answered with.
pub open spec fn finish_step<S: LineVisitor>(before: Parsing<S>, after: Parsing<S>) -> bool {
    &&& after.options == before.options
    &&& match parser::trailing_line(before.parser) {
        Some(line) => {
            &&& after.parser == (ParserState { mode: before.parser.mode, partial: Seq::empty() })
            &&& exists|next: Next, middle: S|
                #![trigger S::line_step(before.inner, text::text_of(line), next, middle)]
                {
                    &&& S::line_step(before.inner, text::text_of(line), next, middle)
                    &&& S::eof_step(middle, after.inner)
                }
        },
        None => {
            &&& after.parser == before.parser
            &&& S::eof_step(before.inner, after.inner)
        },
    }
}

/// Adapter that drives a [`LineParser`] over chunk events and dispatches every emitted line to
/// the `inner` [`LineVisitor`].
pub struct ParseLines<S> {
    parser: LineParser,
    options: LineParsingOptions,
    inner: S,
}

impl<S> View for ParseLines<S> {
    type V = Parsing<S>;

    closed spec fn view(&self) -> Parsing<S> {
        Parsing { parser: self.parser@, options: self.options, inner: self.inner }
    }
}

impl<S> ParseLines<S> {
    /// Creates a new line adapter.
    ///
    /// A line-consuming visitor needs a length limit; pass
    /// [`NumBytes::max_value`](crate::output_stream::num_bytes::NumBytes::max_value) for
    /// effectively-unbounded line parsing.
    pub fn new(options: LineParsingOptions, inner: S) -> (r: Self)
        requires
            options.is_limited(),
        ensures
            r@ == (Parsing { parser: ParserState::initial(), options, inner }),
    {
        Self::from_parts(options, inner)
    }

    /// Composes a visitor with a fresh parser.
    pub(crate) fn from_parts(options: LineParsingOptions, inner: S) -> (r: Self)
        ensures
            r@ == (Parsing { parser: ParserState::initial(), options, inner }),
    {
        Self { parser: LineParser::new(), options, inner }
    }
}

impl<S: LineVisitor> StreamVisitor for ParseLines<S> {
    type Output = S::Output;

    open spec fn ready(&self) -> bool {
        &&& self@.parser.wf()
        &&& self@.parser.within(self@.options)
        &&& self@.inner.ready()
    }

    open spec fn accepts(&self, chunk: Seq<u8>) -> bool {
        parser::has_room(self@.parser, chunk.len(), self@.options)
    }

    open spec fn takes(&self, chunk: Chunk) -> bool {
        takes_lines(self@, chunk@)
    }

    open spec fn takes_end(&self) -> bool {
        takes_trailing_line(self@)
    }

    open spec fn chunk_step(before: Self, chunk: Chunk, next: Next, after: Self) -> bool {
        parse_step(before@, chunk@, next, after@)
    }

    open spec fn gap_step(before: Self, after: Self) -> bool {
        &&& after@.parser == ParserState::discarding()
        &&& after@.options == before@.options
        &&& S::gap_step(before@.inner, after@.inner)
    }

    open spec fn eof_step(before: Self, after: Self) -> bool {
        finish_step(before@, after@)
    }

    open spec fn outputs(visitor: Self, output: S::Output) -> bool {
        S::outputs(visitor@.inner, output)
    }

    fn has_room(&self, chunk: &Chunk) -> (r: bool) {
        self.parser.has_room(chunk.as_ref().len(), self.options)
    }

    /// The visitor is called for one line after the other. Every call finds it as the one before left
    /// it.
    fn on_chunk(&mut self, chunk: Chunk) -> (r: Next)
        ensures
            ({
                let lines = parser::feed(old(self)@.parser, chunk@, old(self)@.options).0;
                exists|states: Seq<S>|
                    {
                        let seen = states.len() - 1;
                        &&& #[trigger] leads(states, old(self)@.inner, final(self)@.inner)
                        &&& r == Next::Continue ==> seen == lines.len()
                        &&& r == Next::Break ==> 0 < seen <= lines.len()
                        &&& forall|i: int| #[trigger]
                            is_index(i, seen) ==> exists|
                                visitor: &mut S,
                                line: Cow<'_, str>,
                                next: Next,
                            |
                                {
                                    &&& *visitor == states[i]
                                    &&& *final(visitor) == states[i + 1]
                                    &&& line@ == text::text_of(lines[i])
                                    &&& next == answer_of(i, seen, r)
                                    &&& #[trigger] call_ensures(S::on_line, (visitor, line), next)
                                }
                    }
            }),
    {
        let mut bytes: &[u8] = chunk.as_ref();
        let ghost start = self@;
        let ghost input = chunk@;
        let ghost lines = parser::feed(start.parser, input, start.options).0;
        let ghost mut seen: nat = 0;
        let ghost mut states: Seq<S> = seq![start.inner];
        proof {
            assert(lines.take(0) =~= Seq::<Seq<u8>>::empty());
            assert(text::decoded(lines.take(0)) =~= Seq::<Seq<char>>::empty());
            assert(lines.skip(0) =~= lines);
        }
        loop
            invariant
                self.ready(),
                self@.options == start.options,
                parser::has_room(self@.parser, bytes@.len(), self@.options),
                seen <= lines.len(),
                lines == parser::feed(start.parser, input, start.options).0,
                parser::advance(start.parser, input, start.options, seen) == (
                    self@.parser,
                    bytes@,
                ),
                parser::feed(self@.parser, bytes@, start.options) == (
                    lines.skip(seen as int),
                    parser::feed(start.parser, input, start.options).1,
                ),
                observes(start.inner, text::decoded(lines.take(seen as int)), self@.inner),
                states.len() == seen + 1,
                leads(states, start.inner, self@.inner),
                forall|i: int| #[trigger]
                    is_index(i, seen as int) ==> exists|
                        visitor: &mut S,
                        line: Cow<'_, str>,
                        next: Next,
                    |
                        {
                            &&& *visitor == states[i]
                            &&& *final(visitor) == states[i + 1]
                            &&& line@ == text::text_of(lines[i])
                            &&& next == Next::Continue
                            &&& #[trigger] call_ensures(S::on_line, (visitor, line), next)
                        },
                start == old(self)@,
                input == chunk@,
                takes_lines(start, input),
            decreases lines.len() - seen,
        {
            let ghost before = self@;
            let ghost left = bytes@;
            proof {
                laws::next_unrolls_feed(before.parser, left, before.options);
            }
            match self.parser.next_line(&mut bytes, self.options) {
                Some(line) => {
                    let ghost text = line@;
                    let ghost passed = states;
                    let ghost given = line;
                    assert(lines.skip(seen as int)[0] == lines[seen as int]);
                    assert(self.inner.takes(line));
                    let answer = call_on_with(S::on_line, &mut self.inner, line);
                    assert(exists|visitor: &mut S|
                        {
                            &&& *visitor == before.inner
                            &&& *final(visitor) == self@.inner
                            &&& #[trigger] call_ensures(S::on_line, (visitor, given), answer)
                        });
                    proof {
                        states = passed.push(self@.inner);
                        assert(lines.skip(seen as int)[0] == lines[seen as int]);
                        assert forall|i: int| #[trigger]
                            is_index(i, seen + 1int) implies exists|
                                visitor: &mut S,
                                line: Cow<'_, str>,
                                next: Next,
                            |
                                {
                                    &&& *visitor == states[i]
                                    &&& *final(visitor) == states[i + 1]
                                    &&& line@ == text::text_of(lines[i])
                                    &&& next == answer_of(i, seen + 1int, answer)
                                    &&& #[trigger] call_ensures(S::on_line, (visitor, line), next)
                                } by {
                            if i < seen {
                                assert(is_index(i, seen as int));
                                assert(states[i] == passed[i]);
                                assert(states[i + 1] == passed[i + 1]);
                            } else {
                                assert(states[i] == before.inner);
                                assert(states[i + 1] == self@.inner);
                                assert(given@ == text::text_of(lines[i]));
                            }
                        }
                        let rest = lines.skip(seen as int);
                        assert(rest[0] == lines[seen as int]);
                        assert(rest.skip(1) =~= lines.skip(seen as int + 1));
                        assert(text == text::text_of(lines[seen as int]));
                        laws::next_keeps_room(before.parser, left, before.options);
                        assert((seq![rest[0]] + rest.skip(1)) =~= rest);
                        assert(parser::feed(self@.parser, bytes@, start.options).0 =~= rest.skip(1));
                    }
                    if answer == Next::Break {
                        assert(leads(states, start.inner, self@.inner));
                        assert(states.len() - 1 == seen + 1int);
                        assert(S::line_step(
                            before.inner,
                            text::text_of(lines[seen as int]),
                            Next::Break,
                            self@.inner,
                        ));
                        return Next::Break;
                    }
                    proof {
                        observes_push(
                            start.inner,
                            text::decoded(lines.take(seen as int)),
                            before.inner,
                            text,
                            self@.inner,
                        );
                        assert(text::decoded(lines.take(seen as int)).push(text) =~= text::decoded(
                            lines.take(seen as int + 1),
                        ));
                        seen = seen + 1;
                    }
                },
                None => {
                    proof {
                        assert(lines.skip(seen as int).len() == 0);
                        assert(lines.take(seen as int) =~= lines);
                        assert(leads(states, start.inner, self@.inner));
                        assert(states.len() - 1 == seen as int);
                        assert(forall|i: int|
                            answer_of(i, seen as int, Next::Continue) == Next::Continue);
                    }
                    return Next::Continue;
                },
            }
        }
    }

    /// The visitor is told of the gap.
    fn on_gap(&mut self)
        ensures
            exists|visitor: &mut S|
                {
                    &&& *visitor == old(self)@.inner
                    &&& *final(visitor) == final(self)@.inner
                    &&& #[trigger] call_ensures(S::on_gap, (visitor,), ())
                },
    {
        self.parser.on_gap();
        call_on(S::on_gap, &mut self.inner);
    }

    /// The visitor is called for an unterminated last line, and is then told of the end.
    fn on_eof(&mut self)
        ensures
            exists|visitor: &mut S|
                {
                    &&& *final(visitor) == final(self)@.inner
                    &&& #[trigger] call_ensures(S::on_eof, (visitor,), ())
                    &&& match parser::trailing_line(old(self)@.parser) {
                        Some(bytes) => exists|called: &mut S, line: Cow<'_, str>, next: Next|
                            {
                                &&& *called == old(self)@.inner
                                &&& *final(called) == *visitor
                                &&& line@ == text::text_of(bytes)
                                &&& #[trigger] call_ensures(S::on_line, (called, line), next)
                            },
                        None => *visitor == old(self)@.inner,
                    }
                },
    {
        if let Some(line) = self.parser.finish() {
            let _ = call_on_with(S::on_line, &mut self.inner, line);
        }
        call_on(S::on_eof, &mut self.inner);
    }

    fn into_output(self) -> (r: S::Output)
        ensures
            call_ensures(S::into_output, (self@.inner,), r),
    {
        self.inner.into_output()
    }
}

} // verus!
