//! Visitor that waits for a single matching line.

use crate::error::StreamReadError;
use crate::output_stream::event::Chunk;
use crate::output_stream::line::adapter::{self, LineVisitor, ParseLines};
use crate::output_stream::line::parser;
use crate::output_stream::line::text;
use crate::output_stream::visitor::StreamVisitor;
use crate::output_stream::Next;
use std::borrow::Cow;
use vstd::prelude::*;

verus! {

/// [`LineVisitor`] that breaks the moment a predicate accepts a line and remembers whether it
/// has matched yet. Compose with [`ParseLines`](crate::output_stream::line::adapter::ParseLines) to
/// wait for a line.
pub struct WaitForLineSink<P> {
    predicate: P,
    matched: bool,
}

impl<P> WaitForLineSink<P> where P: Fn(Cow<'_, str>) -> bool + Send + Sync + 'static {
    /// Which lines are accepted.
    pub closed spec fn predicate(&self) -> P {
        self.predicate
    }

    /// Whether a line was accepted.
    pub closed spec fn matched(&self) -> bool {
        self.matched
    }

    /// Whether the predicate may answer `accepted` on a line.
    pub open spec fn may_answer(&self, line: Seq<char>, accepted: bool) -> bool {
        exists|text: Cow<'_, str>|
            text@ == line && #[trigger] call_ensures(self.predicate(), (text,), accepted)
    }

    /// Creates a new sink that breaks the parser the first time `predicate` returns `true`.
    pub fn new(predicate: P) -> (r: Self)
        ensures
            r.predicate() == predicate,
            !r.matched(),
    {
        Self { predicate, matched: false }
    }
}

impl<P> LineVisitor for WaitForLineSink<P> where
    P: Fn(Cow<'_, str>) -> bool + Send + Sync + 'static,
 {
    type Output = bool;

    open spec fn ready(&self) -> bool {
        true
    }

    open spec fn takes(&self, line: Cow<'_, str>) -> bool {
        call_requires(self.predicate(), (line,))
    }

    open spec fn line_step(before: Self, line: Seq<char>, next: Next, after: Self) -> bool {
        let accepted = next == Next::Break;
        &&& before.may_answer(line, accepted)
        &&& after.predicate() == before.predicate()
        &&& after.matched() == (before.matched() || accepted)
    }

    open spec fn gap_step(before: Self, after: Self) -> bool {
        after == before
    }

    open spec fn eof_step(before: Self, after: Self) -> bool {
        after == before
    }

    open spec fn outputs(visitor: Self, output: bool) -> bool {
        output == visitor.matched()
    }

    fn on_line(&mut self, line: Cow<'_, str>) -> (r: Next) {
        assert(call_requires(self.predicate(), (line,)));
        let accepted = (self.predicate)(line);
        assert(call_ensures(old(self).predicate(), (line,), accepted));
        if accepted {
            self.matched = true;
            Next::Break
        } else {
            Next::Continue
        }
    }

    fn on_gap(&mut self) {
    }

    fn on_eof(&mut self) {
    }

    fn into_output(self) -> (r: bool)
        ensures
            r == self.matched(),
    {
        self.matched
    }
}

/// Lines that are passed over without a break are lines that the predicate refused, and leave the
/// sink unmatched if it was.
pub proof fn passed_lines_were_refused<P>(
    before: WaitForLineSink<P>,
    lines: Seq<Seq<char>>,
    after: WaitForLineSink<P>,
) where P: Fn(Cow<'_, str>) -> bool + Send + Sync + 'static
    requires
        adapter::observes(before, lines, after),
    ensures
        after.predicate() == before.predicate(),
        after.matched() == before.matched(),
        forall|i: int| 0 <= i < lines.len() ==> before.may_answer(#[trigger] lines[i], false),
    decreases lines.len(),
{
    if lines.len() > 0 {
        let middle = choose|middle: WaitForLineSink<P>|
            #![trigger WaitForLineSink::<P>::line_step(middle, lines.last(), Next::Continue, after)]
            {
                &&& adapter::observes(before, lines.drop_last(), middle)
                &&& WaitForLineSink::<P>::line_step(middle, lines.last(), Next::Continue, after)
            };
        passed_lines_were_refused(before, lines.drop_last(), middle);
        assert forall|i: int| 0 <= i < lines.len() implies before.may_answer(
            #[trigger] lines[i],
            false,
        ) by {
            if i < lines.len() - 1 {
                assert(lines.drop_last()[i] == lines[i]);
            } else {
                assert(middle.may_answer(lines.last(), false));
            }
        }
    }
}

/// A predicate that can be asked about any line can be asked about those of any stream.
pub proof fn total_predicate_takes_every_line<P>(
    visitor: ParseLines<WaitForLineSink<P>>,
    chunk: Chunk,
) where P: Fn(Cow<'_, str>) -> bool + Send + Sync + 'static
    requires
        forall|line: Cow<'_, str>| #[trigger]
            call_requires(visitor@.inner.predicate(), (line,)),
    ensures
        visitor.takes(chunk),
        visitor.takes_end(),
{
    let lines = parser::feed(visitor@.parser, chunk@, visitor@.options).0;
    assert forall|i: int, inner: WaitForLineSink<P>, line: Cow<'_, str>|
        #![trigger lines[i], inner.takes(line)]
        {
            &&& 0 <= i < lines.len()
            &&& adapter::observes(visitor@.inner, text::decoded(lines.take(i)), inner)
            &&& line@ == text::text_of(lines[i])
        } implies inner.takes(line) by {
        passed_lines_were_refused(visitor@.inner, text::decoded(lines.take(i)), inner);
    }
}

/// How waiting for a line ended.
#[derive(Debug, Clone, Copy, PartialEq, Eq, Structural)]
pub enum WaitForLineResult {
    /// A matching line was seen.
    Matched,
    /// The stream ended before a matching line was seen.
    StreamClosed,
    /// The time was up before a matching line was seen.
    Timeout,
}

impl WaitForLineResult {
    /// Says how waiting ended from what the waiting visitor put out, `None` if it was not finished
    /// in time.
    pub fn from_outcome(outcome: Option<Result<bool, StreamReadError>>) -> (r: Result<
        WaitForLineResult,
        StreamReadError,
    >)
        ensures
            r == match outcome {
                Some(Ok(true)) => Ok::<WaitForLineResult, StreamReadError>(
                    WaitForLineResult::Matched,
                ),
                Some(Ok(false)) => Ok(WaitForLineResult::StreamClosed),
                Some(Err(error)) => Err(error),
                None => Ok(WaitForLineResult::Timeout),
            },
    {
        match outcome {
            Some(Ok(matched)) => if matched {
                Ok(WaitForLineResult::Matched)
            } else {
                Ok(WaitForLineResult::StreamClosed)
            },
            Some(Err(error)) => Err(error),
            None => Ok(WaitForLineResult::Timeout),
        }
    }
}

} // verus!
