//! Laws of consumption: what visitors make of a whole stream.

use crate::output_stream::collection::{
    Collection, CollectionOverflowBehavior, LineCollectionOptions, RawCollection,
    RawCollectionOptions,
};
use crate::output_stream::event::{self, Chunk, EventView, StreamEvent};
use crate::output_stream::forwarding;
use crate::output_stream::line::adapter::{self, LineVisitor, ParseLines, Parsing};
use crate::output_stream::line::laws;
use crate::output_stream::line::options::LineParsingOptions;
use crate::output_stream::line::parser::{self, ParserState};
use crate::output_stream::line::text;
use crate::output_stream::retention;
use crate::output_stream::visitor::{self, consume_event, Progress, StreamVisitor};
use crate::output_stream::visitors::collect::{
    CollectChunks, CollectChunksIntoVec, CollectLines, CollectLinesIntoVec, Sink,
};
use crate::output_stream::visitors::inspect::{self, InspectChunks, InspectLineSink};
use crate::output_stream::visitors::wait::{self, WaitForLineSink};
use crate::output_stream::Next;
use std::borrow::Cow;
use vstd::prelude::*;

verus! {

/// Whether driving a visitor over `events` turns `before` into `after`. All events but the last are
/// answered with [`Progress::Continue`], and the last one with `progress`.
pub open spec fn driven<V: StreamVisitor>(
    before: V,
    events: Seq<Option<StreamEvent>>,
    progress: Progress,
    after: V,
) -> bool
    decreases events.len(),
{
    if events.len() == 0 {
        progress == Progress::Continue && before == after
    } else {
        exists|middle: V|
            {
                &&& driven(before, events.drop_last(), Progress::Continue, middle)
                &&& #[trigger] visitor::consumes(middle, events.last(), progress, after)
            }
    }
}

/// What events say.
pub open spec fn event_views(events: Seq<Option<StreamEvent>>) -> Seq<Option<EventView>> {
    events.map_values(|event: Option<StreamEvent>| event::next_view(event))
}

/// The texts of the lines that are heard of a stream with these events, up to its first end. The
/// unterminated last line is among them once the stream has ended. What stands around a gap is not
/// joined.
pub open spec fn lines_of(
    events: Seq<Option<StreamEvent>>,
    options: LineParsingOptions,
) -> Seq<Seq<char>> {
    text::decoded(forwarding::hear_all(event_views(events), options).lines)
}

/// One event more adds the lines that it completes.
proof fn lines_of_longer_stream(events: Seq<Option<StreamEvent>>, options: LineParsingOptions)
    requires
        events.len() > 0,
    ensures
        ({
            let heard = forwarding::hear_all(event_views(events.drop_last()), options);
            let more = match events.last() {
                Some(StreamEvent::Chunk(chunk)) => parser::feed(
                    heard.parser,
                    chunk@,
                    options,
                ).0,
                Some(StreamEvent::Eof) | None => parser::option_to_seq(
                    parser::trailing_line(heard.parser),
                ),
                _ => Seq::empty(),
            };
            heard.open ==> lines_of(events, options) == lines_of(events.drop_last(), options)
                + text::decoded(more)
        }),
{
    let views = event_views(events);
    let heard = forwarding::hear_all(event_views(events.drop_last()), options);
    assert(views.drop_last() =~= event_views(events.drop_last()));
    assert(views.last() == event::next_view(events.last()));
    let all = forwarding::hear_all(views, options).lines;
    let more = all.skip(heard.lines.len() as int);
    if heard.open {
        assert(text::decoded(all) =~= text::decoded(heard.lines) + text::decoded(more));
        match events.last() {
            Some(StreamEvent::Chunk(chunk)) => {
                assert(more =~= parser::feed(heard.parser, chunk@, options).0);
            },
            Some(StreamEvent::Eof) | None => {
                assert(more =~= parser::option_to_seq(parser::trailing_line(heard.parser)));
            },
            _ => {
                assert(more =~= Seq::<Seq<u8>>::empty());
            },
        }
    }
}

/// Chunks and then the end, as events.
pub open spec fn ended_stream(chunks: Seq<Chunk>) -> Seq<Option<StreamEvent>> {
    chunks.map_values(|chunk: Chunk| Some(StreamEvent::Chunk(chunk))).push(Some(StreamEvent::Eof))
}

/// The lines of a stream without gaps are those of its bytes, however they are cut into chunks.
pub proof fn lines_of_ended_stream(chunks: Seq<Chunk>, options: LineParsingOptions)
    ensures
        lines_of(ended_stream(chunks), options) == text::decoded(
            laws::parse_chunks(chunks.map_values(|chunk: Chunk| chunk@), options),
        ),
{
    let views = chunks.map_values(|chunk: Chunk| chunk@);
    assert(event_views(ended_stream(chunks)) =~= forwarding::chunk_events(views).push(
        Some(EventView::Eof),
    ));
    forwarding::heard_lines_are_lines_of_stream(views, options);
}

/// What a line visitor is shown.
pub enum Shown {
    /// A line of this text.
    Line(Seq<char>),
    /// A gap.
    Gap,
}

/// Lines as what a line visitor is shown.
pub open spec fn shown_lines(lines: Seq<Seq<u8>>) -> Seq<Shown> {
    lines.map_values(|line: Seq<u8>| Shown::Line(text::text_of(line)))
}

/// What a line visitor is shown of a stream, and the state of the parser afterwards.
pub open spec fn shown(
    state: ParserState,
    events: Seq<Option<StreamEvent>>,
    options: LineParsingOptions,
) -> (Seq<Shown>, ParserState)
    decreases events.len(),
{
    if events.len() == 0 {
        (Seq::empty(), state)
    } else {
        let (before, middle) = shown(state, events.drop_last(), options);
        match events.last() {
            Some(StreamEvent::Chunk(chunk)) => {
                let (lines, end) = parser::feed(middle, chunk@, options);
                (before + shown_lines(lines), end)
            },
            Some(StreamEvent::Gap) => (before.push(Shown::Gap), ParserState::discarding()),
            _ => (before, middle),
        }
    }
}

/// How being shown an item turns a line visitor from `before` into `after`. A line is answered with
/// [`Next::Continue`].
pub open spec fn show_step<S: LineVisitor>(before: S, item: Shown, after: S) -> bool {
    match item {
        Shown::Line(line) => S::line_step(before, line, Next::Continue, after),
        Shown::Gap => S::gap_step(before, after),
    }
}

/// Whether being shown `items` in order turns a line visitor from `before` into `after`.
pub open spec fn watches<S: LineVisitor>(before: S, items: Seq<Shown>, after: S) -> bool
    decreases items.len(),
{
    if items.len() == 0 {
        before == after
    } else {
        exists|middle: S|
            {
                &&& watches(before, items.drop_last(), middle)
                &&& #[trigger] show_step(middle, items.last(), after)
            }
    }
}

proof fn watches_push<S: LineVisitor>(
    before: S,
    items: Seq<Shown>,
    middle: S,
    item: Shown,
    after: S,
)
    requires
        watches(before, items, middle),
        show_step(middle, item, after),
    ensures
        watches(before, items.push(item), after),
{
    assert(items.push(item).drop_last() =~= items);
    assert(show_step(middle, items.push(item).last(), after));
}

proof fn watches_lines<S: LineVisitor>(
    before: S,
    items: Seq<Shown>,
    middle: S,
    lines: Seq<Seq<u8>>,
    after: S,
)
    requires
        watches(before, items, middle),
        adapter::observes(middle, text::decoded(lines), after),
    ensures
        watches(before, items + shown_lines(lines), after),
    decreases lines.len(),
{
    if lines.len() == 0 {
        assert(items + shown_lines(lines) =~= items);
    } else {
        let texts = text::decoded(lines);
        let last = choose|last: S|
            #![trigger S::line_step(last, texts.last(), Next::Continue, after)]
            {
                &&& adapter::observes(middle, texts.drop_last(), last)
                &&& S::line_step(last, texts.last(), Next::Continue, after)
            };
        assert(texts.drop_last() =~= text::decoded(lines.drop_last()));
        watches_lines(before, items, middle, lines.drop_last(), last);
        let item = Shown::Line(texts.last());
        assert(show_step(last, item, after));
        watches_push(before, items + shown_lines(lines.drop_last()), last, item, after);
        assert((items + shown_lines(lines.drop_last())).push(item) =~= items + shown_lines(lines));
    }
}

/// A line visitor sees the lines of the stream and its gaps, one after the other.
pub proof fn line_visitor_sees_lines_of_stream<S: LineVisitor>(
    before: ParseLines<S>,
    events: Seq<Option<StreamEvent>>,
    after: ParseLines<S>,
)
    requires
        driven(before, events, Progress::Continue, after),
    ensures
        ({
            let (items, end) = shown(before@.parser, events, before@.options);
            &&& after@.parser == end
            &&& after@.options == before@.options
            &&& watches(before@.inner, items, after@.inner)
        }),
    decreases events.len(),
{
    if events.len() > 0 {
        let middle = choose|middle: ParseLines<S>|
            {
                &&& driven(before, events.drop_last(), Progress::Continue, middle)
                &&& #[trigger] visitor::consumes(
                    middle,
                    events.last(),
                    Progress::Continue,
                    after,
                )
            };
        line_visitor_sees_lines_of_stream(before, events.drop_last(), middle);
        let (items, state) = shown(before@.parser, events.drop_last(), before@.options);
        match events.last() {
            Some(StreamEvent::Chunk(chunk)) => {
                let lines = parser::feed(state, chunk@, before@.options).0;
                watches_lines(before@.inner, items, middle@.inner, lines, after@.inner);
            },
            Some(StreamEvent::Gap) => {
                assert(show_step(middle@.inner, Shown::Gap, after@.inner));
                watches_push(before@.inner, items, middle@.inner, Shown::Gap, after@.inner);
            },
            _ => {},
        }
    }
}

/// The lines among what a line visitor is shown.
pub open spec fn lines_in(items: Seq<Shown>) -> Seq<Seq<char>>
    decreases items.len(),
{
    if items.len() == 0 {
        Seq::empty()
    } else {
        let before = lines_in(items.drop_last());
        match items.last() {
            Shown::Line(line) => before.push(line),
            Shown::Gap => before,
        }
    }
}

proof fn lines_in_concat(items: Seq<Shown>, lines: Seq<Seq<u8>>)
    ensures
        lines_in(items + shown_lines(lines)) == lines_in(items) + text::decoded(lines),
    decreases lines.len(),
{
    let all = items + shown_lines(lines);
    if lines.len() == 0 {
        assert(all =~= items);
        assert(lines_in(items) + text::decoded(lines) =~= lines_in(items));
    } else {
        lines_in_concat(items, lines.drop_last());
        assert(all.drop_last() =~= items + shown_lines(lines.drop_last()));
        assert(all.last() == Shown::Line(text::text_of(lines.last())));
        assert((lines_in(items) + text::decoded(lines.drop_last())).push(
            text::text_of(lines.last()),
        ) =~= lines_in(items) + text::decoded(lines));
    }
}

/// Until the stream ends, the lines that a visitor is shown are exactly those that are heard of it.
pub proof fn shown_lines_are_lines_of_stream(
    events: Seq<Option<StreamEvent>>,
    options: LineParsingOptions,
)
    requires
        forall|i: int|
            0 <= i < events.len() ==> (#[trigger] events[i] matches Some(StreamEvent::Chunk(_)))
                || events[i] == Some(StreamEvent::Gap),
    ensures
        ({
            let (items, end) = shown(ParserState::initial(), events, options);
            let heard = forwarding::hear_all(event_views(events), options);
            &&& lines_in(items) == lines_of(events, options)
            &&& end == heard.parser
            &&& heard.open
        }),
    decreases events.len(),
{
    let views = event_views(events);
    if events.len() == 0 {
        assert(views =~= Seq::<Option<EventView>>::empty());
        assert(lines_of(events, options) =~= Seq::<Seq<char>>::empty());
    } else {
        let earlier = events.drop_last();
        assert(forall|i: int| 0 <= i < earlier.len() ==> earlier[i] == events[i]);
        assert(events.last() == events[events.len() - 1]);
        shown_lines_are_lines_of_stream(earlier, options);
        lines_of_longer_stream(events, options);
        assert(views.drop_last() =~= event_views(earlier));
        assert(views.last() == event::next_view(events.last()));
        let (items, state) = shown(ParserState::initial(), earlier, options);
        match events.last() {
            Some(StreamEvent::Chunk(chunk)) => {
                lines_in_concat(items, parser::feed(state, chunk@, options).0);
            },
            _ => {
                assert(items.push(Shown::Gap).drop_last() =~= items);
                assert(lines_of(earlier, options) + text::decoded(Seq::empty()) =~= lines_of(
                    earlier,
                    options,
                ));
            },
        }
    }
}

/// What a collection holds once it observed lines.
pub open spec fn collect_onto(
    collected: Collection,
    lines: Seq<Seq<char>>,
    limits: LineCollectionOptions,
) -> Collection
    decreases lines.len(),
{
    if lines.len() == 0 {
        collected
    } else {
        collect_onto(collected, lines.drop_last(), limits).with_line(lines.last(), limits)
    }
}

/// A collecting visitor takes every line in, in order.
pub proof fn collecting_visitor_takes_every_line(
    before: CollectLinesIntoVec,
    lines: Seq<Seq<char>>,
    after: CollectLinesIntoVec,
)
    requires
        adapter::observes(before, lines, after),
    ensures
        after.limits() == before.limits(),
        after.collection() == collect_onto(before.collection(), lines, before.limits()),
    decreases lines.len(),
{
    if lines.len() > 0 {
        let middle = choose|middle: CollectLinesIntoVec|
            #![trigger CollectLinesIntoVec::line_step(middle, lines.last(), Next::Continue, after)]
            {
                &&& adapter::observes(before, lines.drop_last(), middle)
                &&& CollectLinesIntoVec::line_step(middle, lines.last(), Next::Continue, after)
            };
        collecting_visitor_takes_every_line(before, lines.drop_last(), middle);
    }
}

proof fn collect_onto_collected(
    first: Seq<Seq<char>>,
    second: Seq<Seq<char>>,
    limits: LineCollectionOptions,
)
    ensures
        collect_onto(retention::collect_lines(first, limits), second, limits)
            == retention::collect_lines(first + second, limits),
    decreases second.len(),
{
    if second.len() == 0 {
        assert(first + second =~= first);
    } else {
        collect_onto_collected(first, second.drop_last(), limits);
        assert((first + second).drop_last() =~= first + second.drop_last());
        assert((first + second).last() == second.last());
    }
}

/// What one event makes of a collecting visitor.
proof fn event_collects_lines(
    before: ParseLines<CollectLinesIntoVec>,
    event: Option<StreamEvent>,
    progress: Progress,
    after: ParseLines<CollectLinesIntoVec>,
)
    requires
        visitor::consumes(before, event, progress, after),
    ensures
        after@.options == before@.options,
        after@.inner.limits() == before@.inner.limits(),
        ({
            let limits = before@.inner.limits();
            let collected = before@.inner.collection();
            match event {
                Some(StreamEvent::Chunk(chunk)) => {
                    let (lines, end) = parser::feed(before@.parser, chunk@, before@.options);
                    &&& progress == Progress::Continue
                    &&& after@.parser == end
                    &&& after@.inner.collection() == collect_onto(
                        collected,
                        text::decoded(lines),
                        limits,
                    )
                },
                Some(StreamEvent::Eof) | None => {
                    let trailing = parser::option_to_seq(parser::trailing_line(before@.parser));
                    after@.inner.collection() == collect_onto(
                        collected,
                        text::decoded(trailing),
                        limits,
                    )
                },
                _ => after@.inner.collection() == collected,
            }
        }),
{
    match event {
        Some(StreamEvent::Chunk(chunk)) => {
            let lines = parser::feed(before@.parser, chunk@, before@.options).0;
            if progress == Progress::Continue {
                collecting_visitor_takes_every_line(
                    before@.inner,
                    text::decoded(lines),
                    after@.inner,
                );
            }
        },
        Some(StreamEvent::Eof) | None => {
            let trailing = parser::option_to_seq(parser::trailing_line(before@.parser));
            let texts = text::decoded(trailing);
            reveal_with_fuel(collect_onto, 2);
            if trailing.len() > 0 {
                assert(texts.drop_last() =~= Seq::<Seq<char>>::empty());
            }
        },
        _ => {},
    }
}

/// Collecting the lines of a stream collects exactly the lines of the stream, within the limits of
/// the collection. The unterminated last line is among them once the stream has ended, and what
/// stands around a gap is not joined.
pub proof fn collected_lines_are_lines_of_stream(
    start: ParseLines<CollectLinesIntoVec>,
    events: Seq<Option<StreamEvent>>,
    progress: Progress,
    end: ParseLines<CollectLinesIntoVec>,
)
    requires
        start@.parser == ParserState::initial(),
        start@.inner.collection() == Collection::empty(),
        driven(start, events, progress, end),
    ensures
        end@.inner.collection() == retention::collect_lines(
            lines_of(events, start@.options),
            start@.inner.limits(),
        ),
        end@.inner.limits() == start@.inner.limits(),
        end@.options == start@.options,
        progress == Progress::Continue ==> {
            let heard = forwarding::hear_all(event_views(events), start@.options);
            heard.open && end@.parser == heard.parser
        },
    decreases events.len(),
{
    let options = start@.options;
    let limits = start@.inner.limits();
    let views = event_views(events);
    if events.len() == 0 {
        assert(views =~= Seq::<Option<EventView>>::empty());
        assert(lines_of(events, options) =~= Seq::<Seq<char>>::empty());
    } else {
        let earlier = events.drop_last();
        let middle = choose|middle: ParseLines<CollectLinesIntoVec>|
            {
                &&& driven(start, earlier, Progress::Continue, middle)
                &&& #[trigger] visitor::consumes(middle, events.last(), progress, end)
            };
        collected_lines_are_lines_of_stream(start, earlier, Progress::Continue, middle);
        event_collects_lines(middle, events.last(), progress, end);
        lines_of_longer_stream(events, options);
        assert(views.drop_last() =~= event_views(earlier));
        assert(views.last() == event::next_view(events.last()));
        let more = lines_of(events, options).skip(lines_of(earlier, options).len() as int);
        collect_onto_collected(lines_of(earlier, options), more, limits);
        assert(lines_of(earlier, options) + more =~= lines_of(events, options));
        match events.last() {
            Some(StreamEvent::Chunk(chunk)) => {
                assert(more =~= text::decoded(parser::feed(middle@.parser, chunk@, options).0));
            },
            Some(StreamEvent::Eof) | None => {
                assert(more =~= text::decoded(
                    parser::option_to_seq(parser::trailing_line(middle@.parser)),
                ));
            },
            _ => {
                assert(more =~= Seq::<Seq<char>>::empty());
            },
        }
    }
}

/// Waiting for a line goes on behind a chunk only if the predicate refused every line of it.
pub proof fn waiting_goes_on_without_match<P>(
    before: Parsing<WaitForLineSink<P>>,
    chunk: Seq<u8>,
    after: Parsing<WaitForLineSink<P>>,
) where P: Fn(Cow<'_, str>) -> bool + Send + Sync + 'static
    requires
        adapter::parse_step(before, chunk, Next::Continue, after),
    ensures
        after.inner.matched() == before.inner.matched(),
        after.inner.predicate() == before.inner.predicate(),
        ({
            let lines = text::decoded(parser::feed(before.parser, chunk, before.options).0);
            forall|i: int|
                0 <= i < lines.len() ==> before.inner.may_answer(#[trigger] lines[i], false)
        }),
{
    let lines = text::decoded(parser::feed(before.parser, chunk, before.options).0);
    wait::passed_lines_were_refused(before.inner, lines, after.inner);
}

/// Waiting for a line ends within a chunk only at a line that the predicate accepted, and the
/// predicate refused all lines before it.
pub proof fn waiting_ends_at_match<P>(
    before: Parsing<WaitForLineSink<P>>,
    chunk: Seq<u8>,
    after: Parsing<WaitForLineSink<P>>,
) where P: Fn(Cow<'_, str>) -> bool + Send + Sync + 'static
    requires
        adapter::parse_step(before, chunk, Next::Break, after),
    ensures
        after.inner.matched(),
        after.inner.predicate() == before.inner.predicate(),
        ({
            let lines = text::decoded(parser::feed(before.parser, chunk, before.options).0);
            exists|n: int|
                {
                    &&& 0 <= n < lines.len()
                    &&& before.inner.may_answer(#[trigger] lines[n], true)
                    &&& forall|i: int|
                        0 <= i < n ==> before.inner.may_answer(#[trigger] lines[i], false)
                }
        }),
{
    let lines = parser::feed(before.parser, chunk, before.options).0;
    let (seen, middle) = choose|seen: int, middle: WaitForLineSink<P>|
        #![trigger WaitForLineSink::<P>::line_step(
            middle,
            text::text_of(lines[seen]),
            Next::Break,
            after.inner,
        )]
        {
            &&& 0 <= seen < lines.len()
            &&& after.parser == parser::advance(
                before.parser,
                chunk,
                before.options,
                (seen + 1) as nat,
            ).0
            &&& adapter::observes(before.inner, text::decoded(lines.take(seen)), middle)
            &&& WaitForLineSink::<P>::line_step(
                middle,
                text::text_of(lines[seen]),
                Next::Break,
                after.inner,
            )
        };
    let passed = text::decoded(lines.take(seen));
    wait::passed_lines_were_refused(before.inner, passed, middle);
    let all = text::decoded(lines);
    assert(all[seen] == text::text_of(lines[seen]));
    assert(before.inner.may_answer(all[seen], true)) by {
        assert(middle.may_answer(all[seen], true));
    }
    assert forall|i: int| 0 <= i < seen implies before.inner.may_answer(
        #[trigger] all[i],
        false,
    ) by {
        assert(passed[i] == all[i]);
    }
}

/// Whether a predicate accepts exactly the lines that `accepts` says.
pub open spec fn answers_as<P>(predicate: P, accepts: spec_fn(Seq<char>) -> bool) -> bool where
    P: Fn(Cow<'_, str>) -> bool + Send + Sync + 'static,
 {
    forall|text: Cow<'_, str>, accepted: bool| #[trigger]
        call_ensures(predicate, (text,), accepted) ==> accepted == accepts(text@)
}

/// Whether one of the lines is accepted.
pub open spec fn any_accepted(accepts: spec_fn(Seq<char>) -> bool, lines: Seq<Seq<char>>) -> bool {
    exists|i: int| 0 <= i < lines.len() && accepts(#[trigger] lines[i])
}

proof fn any_accepted_concat(
    accepts: spec_fn(Seq<char>) -> bool,
    first: Seq<Seq<char>>,
    second: Seq<Seq<char>>,
)
    ensures
        any_accepted(accepts, first + second) == (any_accepted(accepts, first) || any_accepted(
            accepts,
            second,
        )),
{
    let all = first + second;
    if any_accepted(accepts, first) {
        let i = choose|i: int| 0 <= i < first.len() && accepts(#[trigger] first[i]);
        assert(all[i] == first[i]);
    }
    if any_accepted(accepts, second) {
        let i = choose|i: int| 0 <= i < second.len() && accepts(#[trigger] second[i]);
        assert(all[first.len() + i] == second[i]);
    }
    if any_accepted(accepts, all) {
        let i = choose|i: int| 0 <= i < all.len() && accepts(#[trigger] all[i]);
        if i < first.len() {
            assert(first[i] == all[i]);
        } else {
            assert(second[i - first.len()] == all[i]);
        }
    }
}

/// What one event makes of a visitor that waits for a line.
proof fn event_is_searched<P>(
    accepts: spec_fn(Seq<char>) -> bool,
    before: ParseLines<WaitForLineSink<P>>,
    event: Option<StreamEvent>,
    progress: Progress,
    after: ParseLines<WaitForLineSink<P>>,
) where P: Fn(Cow<'_, str>) -> bool + Send + Sync + 'static
    requires
        answers_as(before@.inner.predicate(), accepts),
        visitor::consumes(before, event, progress, after),
        !before@.inner.matched(),
    ensures
        after@.options == before@.options,
        after@.inner.predicate() == before@.inner.predicate(),
        match event {
            Some(StreamEvent::Chunk(chunk)) => {
                let (lines, end) = parser::feed(before@.parser, chunk@, before@.options);
                &&& after@.inner.matched() == any_accepted(accepts, text::decoded(lines))
                &&& progress == if after@.inner.matched() {
                    Progress::Finished
                } else {
                    Progress::Continue
                }
                &&& !after@.inner.matched() ==> after@.parser == end
            },
            Some(StreamEvent::Eof) | None => {
                let trailing = parser::option_to_seq(parser::trailing_line(before@.parser));
                after@.inner.matched() == any_accepted(accepts, text::decoded(trailing))
            },
            _ => !after@.inner.matched(),
        },
{
    match event {
        Some(StreamEvent::Chunk(chunk)) => {
            let lines = text::decoded(parser::feed(before@.parser, chunk@, before@.options).0);
            if progress == Progress::Continue {
                wait::passed_lines_were_refused(before@.inner, lines, after@.inner);
                assert forall|i: int| 0 <= i < lines.len() implies !accepts(
                    #[trigger] lines[i],
                ) by {
                    assert(before@.inner.may_answer(lines[i], false));
                }
            } else {
                waiting_ends_at_match(before@, chunk@, after@);
            }
        },
        Some(StreamEvent::Eof) | None => {
            let trailing = parser::option_to_seq(parser::trailing_line(before@.parser));
            let texts = text::decoded(trailing);
            if trailing.len() > 0 {
                assert(texts[0] == text::text_of(trailing[0]));
            }
        },
        _ => {},
    }
}

/// Waiting for a line matches exactly if the predicate accepts one of the lines of the stream. The
/// unterminated last line is among them once the stream has ended, and what stands around a gap is
/// not joined. Waiting goes on only as long as there was no match, and ends with the chunk that
/// completes the first line that is accepted.
pub proof fn waiting_matches_lines_of_stream<P>(
    accepts: spec_fn(Seq<char>) -> bool,
    start: ParseLines<WaitForLineSink<P>>,
    events: Seq<Option<StreamEvent>>,
    progress: Progress,
    end: ParseLines<WaitForLineSink<P>>,
) where P: Fn(Cow<'_, str>) -> bool + Send + Sync + 'static
    requires
        start@.parser == ParserState::initial(),
        !start@.inner.matched(),
        answers_as(start@.inner.predicate(), accepts),
        driven(start, events, progress, end),
    ensures
        end@.inner.matched() == any_accepted(accepts, lines_of(events, start@.options)),
        end@.inner.predicate() == start@.inner.predicate(),
        end@.options == start@.options,
        progress == Progress::Continue ==> {
            let heard = forwarding::hear_all(event_views(events), start@.options);
            !end@.inner.matched() && heard.open && end@.parser == heard.parser
        },
        events.len() > 0 && (events.last() matches Some(StreamEvent::Chunk(_)))
            && end@.inner.matched() ==> progress == Progress::Finished,
    decreases events.len(),
{
    let options = start@.options;
    let views = event_views(events);
    if events.len() == 0 {
        assert(views =~= Seq::<Option<EventView>>::empty());
        assert(lines_of(events, options) =~= Seq::<Seq<char>>::empty());
    } else {
        let earlier = events.drop_last();
        let middle = choose|middle: ParseLines<WaitForLineSink<P>>|
            {
                &&& driven(start, earlier, Progress::Continue, middle)
                &&& #[trigger] visitor::consumes(middle, events.last(), progress, end)
            };
        waiting_matches_lines_of_stream(accepts, start, earlier, Progress::Continue, middle);
        event_is_searched(accepts, middle, events.last(), progress, end);
        lines_of_longer_stream(events, options);
        assert(views.drop_last() =~= event_views(earlier));
        assert(views.last() == event::next_view(events.last()));
        let more = lines_of(events, options).skip(lines_of(earlier, options).len() as int);
        any_accepted_concat(accepts, lines_of(earlier, options), more);
        assert(lines_of(earlier, options) + more =~= lines_of(events, options));
        match events.last() {
            Some(StreamEvent::Chunk(chunk)) => {
                assert(more =~= text::decoded(parser::feed(middle@.parser, chunk@, options).0));
            },
            Some(StreamEvent::Eof) | None => {
                assert(more =~= text::decoded(
                    parser::option_to_seq(parser::trailing_line(middle@.parser)),
                ));
            },
            _ => {
                assert(more =~= Seq::<Seq<char>>::empty());
            },
        }
    }
}

/// What folding `lines` into `sink` leaves, and the last answer. Folding stops at the first line that
/// is answered with [`Next::Break`].
pub open spec fn folded<T, L>(
    step: spec_fn(T, L) -> (T, Next),
    sink: T,
    lines: Seq<L>,
) -> (T, Next)
    decreases lines.len(),
{
    if lines.len() == 0 {
        (sink, Next::Continue)
    } else {
        let (before, next) = folded(step, sink, lines.drop_last());
        match next {
            Next::Continue => step(before, lines.last()),
            Next::Break => (before, next),
        }
    }
}

/// Folding in two goes is folding in one.
pub proof fn folded_concat<T, L>(
    step: spec_fn(T, L) -> (T, Next),
    sink: T,
    first: Seq<L>,
    second: Seq<L>,
)
    ensures
        folded(step, sink, first + second) == match folded(step, sink, first) {
            (middle, Next::Continue) => folded(step, middle, second),
            stopped => stopped,
        },
    decreases second.len(),
{
    if second.len() == 0 {
        assert(first + second =~= first);
    } else {
        folded_concat(step, sink, first, second.drop_last());
        assert((first + second).drop_last() =~= first + second.drop_last());
        assert((first + second).last() == second.last());
    }
}

/// A collector that is called for one line after the other leaves its sink folded over the lines.
proof fn calls_fold_lines<T, F, A>(
    sight: spec_fn(T) -> A,
    step: spec_fn(A, Seq<char>) -> (A, Next),
    states: Seq<CollectLines<T, F>>,
    lines: Seq<Seq<u8>>,
    last: Next,
) where T: Sink, F: FnMut(Cow<'_, str>, &mut T) -> Next + Send + 'static
    requires
        0 < states.len() <= lines.len() + 1,
        forall|line: Cow<'_, str>, sink: &mut T, next: Next| #[trigger]
            call_ensures(states[0].f, (line, sink), next) ==> (sight(*final(sink)), next)
                == step(sight(*sink), line@),
        forall|i: int| #[trigger]
            adapter::is_index(i, states.len() - 1) ==> exists|
                visitor: &mut CollectLines<T, F>,
                line: Cow<'_, str>,
                next: Next,
            |
                {
                    &&& *visitor == states[i]
                    &&& *final(visitor) == states[i + 1]
                    &&& line@ == text::text_of(lines[i])
                    &&& next == adapter::answer_of(i, states.len() - 1, last)
                    &&& #[trigger] call_ensures(
                        <CollectLines<T, F> as LineVisitor>::on_line,
                        (visitor, line),
                        next,
                    )
                },
    ensures
        states.last().f == states[0].f,
        folded(step, sight(states[0].sink), text::decoded(lines.take(states.len() - 1))) == (
            sight(states.last().sink),
            if states.len() > 1 {
                last
            } else {
                Next::Continue
            },
        ),
    decreases states.len(),
{
    let seen = states.len() - 1;
    let shown = text::decoded(lines.take(seen));
    if seen > 0 {
        let before = states.drop_last();
        assert forall|i: int| #[trigger]
            adapter::is_index(i, before.len() - 1) implies exists|
            visitor: &mut CollectLines<T, F>,
            line: Cow<'_, str>,
            next: Next,
        |
            {
                &&& *visitor == before[i]
                &&& *final(visitor) == before[i + 1]
                &&& line@ == text::text_of(lines[i])
                &&& next == adapter::answer_of(i, before.len() - 1, Next::Continue)
                &&& #[trigger] call_ensures(
                    <CollectLines<T, F> as LineVisitor>::on_line,
                    (visitor, line),
                    next,
                )
            } by {
            assert(adapter::is_index(i, states.len() - 1));
            assert(before[i] == states[i] && before[i + 1] == states[i + 1]);
        }
        calls_fold_lines(sight, step, before, lines, Next::Continue);
        assert(shown.drop_last() =~= text::decoded(lines.take(seen - 1)));
        assert(shown.last() == text::text_of(lines[seen - 1]));
        assert(adapter::is_index(seen - 1, states.len() - 1));
    } else {
        assert(shown =~= Seq::<Seq<char>>::empty());
    }
}

/// What one event makes of a collector that folds lines into its sink.
proof fn event_folds_lines<T, F, A>(
    sight: spec_fn(T) -> A,
    step: spec_fn(A, Seq<char>) -> (A, Next),
    before: ParseLines<CollectLines<T, F>>,
    event: Option<StreamEvent>,
    progress: Progress,
    after: ParseLines<CollectLines<T, F>>,
) where T: Sink, F: FnMut(Cow<'_, str>, &mut T) -> Next + Send + 'static
    requires
        forall|line: Cow<'_, str>, sink: &mut T, next: Next| #[trigger]
            call_ensures(before@.inner.f, (line, sink), next) ==> (sight(*final(sink)), next)
                == step(sight(*sink), line@),
        ({
            &&& visitor::consumes(before, event, progress, after)
            &&& match event {
                Some(StreamEvent::Chunk(chunk)) => exists|
                    called: &mut ParseLines<CollectLines<T, F>>,
                    next: Next,
                |
                    {
                        &&& *called == before
                        &&& *final(called) == after
                        &&& #[trigger] call_ensures(
                            ParseLines::<CollectLines<T, F>>::on_chunk,
                            (called, chunk),
                            next,
                        )
                        &&& progress == match next {
                            Next::Continue => Progress::Continue,
                            Next::Break => Progress::Finished,
                        }
                    },
                Some(StreamEvent::Eof) | None => exists|called: &mut ParseLines<CollectLines<T, F>>|
                    {
                        &&& *called == before
                        &&& *final(called) == after
                        &&& #[trigger] call_ensures(
                            ParseLines::<CollectLines<T, F>>::on_eof,
                            (called,),
                            (),
                        )
                    },
                _ => true,
            }
        }),
    ensures
        after@.inner.f == before@.inner.f,
        after@.options == before@.options,
        match event {
            Some(StreamEvent::Chunk(chunk)) => {
                let (lines, end) = parser::feed(before@.parser, chunk@, before@.options);
                let (sink, next) = folded(step, sight(before@.inner.sink), text::decoded(lines));
                &&& sight(after@.inner.sink) == sink
                &&& (progress == Progress::Continue) == (next == Next::Continue)
                &&& next == Next::Continue ==> after@.parser == end
            },
            Some(StreamEvent::Gap) => {
                &&& after@.inner.sink == before@.inner.sink
                &&& after@.parser == ParserState::discarding()
            },
            Some(StreamEvent::Eof) | None => {
                let trailing = parser::option_to_seq(parser::trailing_line(before@.parser));
                &&& sight(after@.inner.sink) == folded(
                    step,
                    sight(before@.inner.sink),
                    text::decoded(trailing),
                ).0
                &&& progress != Progress::Continue
            },
            Some(StreamEvent::ReadError(_)) => after == before && progress != Progress::Continue,
        },
{
    match event {
        Some(StreamEvent::Chunk(chunk)) => {
            let lines = parser::feed(before@.parser, chunk@, before@.options).0;
            let answer = if progress == Progress::Continue {
                Next::Continue
            } else {
                Next::Break
            };
            assert forall|states: Seq<CollectLines<T, F>>|
                {
                    let seen = states.len() - 1;
                    &&& #[trigger] adapter::leads(states, before@.inner, after@.inner)
                    &&& answer == Next::Continue ==> seen == lines.len()
                    &&& answer == Next::Break ==> 0 < seen <= lines.len()
                    &&& forall|i: int| #[trigger]
                        adapter::is_index(i, seen) ==> exists|
                            visitor: &mut CollectLines<T, F>,
                            line: Cow<'_, str>,
                            next: Next,
                        |
                            {
                                &&& *visitor == states[i]
                                &&& *final(visitor) == states[i + 1]
                                &&& line@ == text::text_of(lines[i])
                                &&& next == adapter::answer_of(i, seen, answer)
                                &&& #[trigger] call_ensures(
                                    <CollectLines<T, F> as LineVisitor>::on_line,
                                    (visitor, line),
                                    next,
                                )
                            }
                } implies {
                &&& after@.inner.f == before@.inner.f
                &&& folded(step, sight(before@.inner.sink), text::decoded(lines)) == (
                    sight(after@.inner.sink),
                    answer,
                )
            } by {
                let seen = states.len() - 1;
                calls_fold_lines(sight, step, states, lines, answer);
                folded_concat(
                    step,
                    sight(before@.inner.sink),
                    text::decoded(lines.take(seen)),
                    text::decoded(lines.skip(seen)),
                );
                assert(text::decoded(lines.take(seen)) + text::decoded(lines.skip(seen))
                    =~= text::decoded(lines));
            }
        },
        Some(StreamEvent::Eof) | None => {
            let trailing = parser::option_to_seq(parser::trailing_line(before@.parser));
            reveal_with_fuel(folded, 2);
        },
        _ => {},
    }
}

/// A collecting closure leaves its sink folded over the lines of the stream: every line in order, up
/// to the first that it answers with [`Next::Break`]. The unterminated last line is among them once
/// the stream has ended, and what stands around a gap is not joined.
///
/// The visitor goes through `states` while [`consume_event`] hands it `events`, and `step` says what
/// the closure makes of a sink and a line, and how it answers. It speaks of sinks by what `sight`
/// shows of them.
pub proof fn collecting_closure_folds_lines<T, F, A>(
    sight: spec_fn(T) -> A,
    step: spec_fn(A, Seq<char>) -> (A, Next),
    states: Seq<ParseLines<CollectLines<T, F>>>,
    events: Seq<Option<StreamEvent>>,
    progress: Seq<Progress>,
) where T: Sink, F: FnMut(Cow<'_, str>, &mut T) -> Next + Send + 'static
    requires
        states.len() == events.len() + 1,
        progress.len() == events.len(),
        states[0]@.parser == ParserState::initial(),
        forall|line: Cow<'_, str>, sink: &mut T, next: Next| #[trigger]
            call_ensures(states[0]@.inner.f, (line, sink), next) ==> (sight(*final(sink)), next)
                == step(sight(*sink), line@),
        forall|i: int| #[trigger]
            adapter::is_index(i, events.len() as int) ==> {
                &&& visitor::consumes(states[i], events[i], progress[i], states[i + 1])
                &&& match events[i] {
                    Some(StreamEvent::Chunk(chunk)) => exists|
                        called: &mut ParseLines<CollectLines<T, F>>,
                        next: Next,
                    |
                        {
                            &&& *called == states[i]
                            &&& *final(called) == states[i + 1]
                            &&& #[trigger] call_ensures(
                                ParseLines::<CollectLines<T, F>>::on_chunk,
                                (called, chunk),
                                next,
                            )
                            &&& progress[i] == match next {
                                Next::Continue => Progress::Continue,
                                Next::Break => Progress::Finished,
                            }
                        },
                    Some(StreamEvent::Eof) | None => exists|
                        called: &mut ParseLines<CollectLines<T, F>>,
                    |
                        {
                            &&& *called == states[i]
                            &&& *final(called) == states[i + 1]
                            &&& #[trigger] call_ensures(
                                ParseLines::<CollectLines<T, F>>::on_eof,
                                (called,),
                                (),
                            )
                        },
                    _ => true,
                }
            },
        forall|i: int| 0 <= i < progress.len() - 1 ==> #[trigger] progress[i] == Progress::Continue,
    ensures
        sight(states.last()@.inner.sink) == folded(
            step,
            sight(states[0]@.inner.sink),
            lines_of(events, states[0]@.options),
        ).0,
        states.last()@.inner.f == states[0]@.inner.f,
        states.last()@.options == states[0]@.options,
        events.len() == 0 || progress.last() == Progress::Continue ==> {
            let heard = forwarding::hear_all(event_views(events), states[0]@.options);
            &&& heard.open
            &&& states.last()@.parser == heard.parser
            &&& folded(
                step,
                sight(states[0]@.inner.sink),
                lines_of(events, states[0]@.options),
            ).1 == Next::Continue
        },
    decreases events.len(),
{
    let options = states[0]@.options;
    let sink = sight(states[0]@.inner.sink);
    let views = event_views(events);
    if events.len() == 0 {
        assert(views =~= Seq::<Option<EventView>>::empty());
        assert(lines_of(events, options) =~= Seq::<Seq<char>>::empty());
    } else {
        let n = events.len() - 1;
        let earlier = events.drop_last();
        let before = states.drop_last();
        let answers = progress.drop_last();
        assert forall|i: int| #[trigger]
            adapter::is_index(i, earlier.len() as int) implies {
            &&& visitor::consumes(before[i], earlier[i], answers[i], before[i + 1])
            &&& match earlier[i] {
                Some(StreamEvent::Chunk(chunk)) => exists|
                    called: &mut ParseLines<CollectLines<T, F>>,
                    next: Next,
                |
                    {
                        &&& *called == before[i]
                        &&& *final(called) == before[i + 1]
                        &&& #[trigger] call_ensures(
                            ParseLines::<CollectLines<T, F>>::on_chunk,
                            (called, chunk),
                            next,
                        )
                        &&& answers[i] == match next {
                            Next::Continue => Progress::Continue,
                            Next::Break => Progress::Finished,
                        }
                    },
                Some(StreamEvent::Eof) | None => exists|called: &mut ParseLines<CollectLines<T, F>>|
                    {
                        &&& *called == before[i]
                        &&& *final(called) == before[i + 1]
                        &&& #[trigger] call_ensures(
                            ParseLines::<CollectLines<T, F>>::on_eof,
                            (called,),
                            (),
                        )
                    },
                _ => true,
            }
        } by {
            assert(adapter::is_index(i, events.len() as int));
            assert(before[i] == states[i] && before[i + 1] == states[i + 1]);
            assert(earlier[i] == events[i] && answers[i] == progress[i]);
        }
        assert(forall|i: int| 0 <= i < answers.len() ==> answers[i] == progress[i]);
        collecting_closure_folds_lines(sight, step, before, earlier, answers);
        assert(adapter::is_index(n, events.len() as int));
        let middle = states[n];
        event_folds_lines(sight, step, middle, events[n], progress[n], states[n + 1]);
        lines_of_longer_stream(events, options);
        assert(views.drop_last() =~= event_views(earlier));
        assert(views.last() == event::next_view(events.last()));
        let more = lines_of(events, options).skip(lines_of(earlier, options).len() as int);
        folded_concat(step, sink, lines_of(earlier, options), more);
        assert(lines_of(earlier, options) + more =~= lines_of(events, options));
        match events.last() {
            Some(StreamEvent::Chunk(chunk)) => {
                assert(more =~= text::decoded(parser::feed(middle@.parser, chunk@, options).0));
            },
            Some(StreamEvent::Eof) | None => {
                assert(more =~= text::decoded(
                    parser::option_to_seq(parser::trailing_line(middle@.parser)),
                ));
            },
            _ => {
                assert(more =~= Seq::<Seq<char>>::empty());
            },
        }
    }
}

/// The chunks among events.
pub open spec fn chunks_in(events: Seq<Option<StreamEvent>>) -> Seq<Chunk>
    decreases events.len(),
{
    if events.len() == 0 {
        Seq::empty()
    } else {
        let before = chunks_in(events.drop_last());
        match events.last() {
            Some(StreamEvent::Chunk(chunk)) => before.push(chunk),
            _ => before,
        }
    }
}

/// A closure that collects chunks leaves its sink folded over all chunks of the stream, in order.
///
/// The visitor goes through `states` while [`consume_event`] hands it `events`, and `step` says what
/// the closure makes of a sink and a chunk, by what `sight` shows of sinks.
pub proof fn collecting_closure_folds_chunks<T, F, A>(
    sight: spec_fn(T) -> A,
    step: spec_fn(A, Chunk) -> A,
    states: Seq<CollectChunks<T, F>>,
    events: Seq<Option<StreamEvent>>,
    progress: Seq<Progress>,
) where T: Sink, F: FnMut(Chunk, &mut T) + Send + 'static
    requires
        states.len() == events.len() + 1,
        progress.len() == events.len(),
        forall|chunk: Chunk, sink: &mut T| #[trigger]
            call_ensures(states[0].f, (chunk, sink), ()) ==> sight(*final(sink)) == step(
                sight(*sink),
                chunk,
            ),
        forall|i: int| #[trigger]
            adapter::is_index(i, events.len() as int) ==> {
                &&& visitor::consumes(states[i], events[i], progress[i], states[i + 1])
                &&& events[i] matches Some(StreamEvent::Chunk(chunk)) ==> exists|
                    called: &mut CollectChunks<T, F>,
                    next: Next,
                |
                    {
                        &&& *called == states[i]
                        &&& *final(called) == states[i + 1]
                        &&& #[trigger] call_ensures(
                            CollectChunks::<T, F>::on_chunk,
                            (called, chunk),
                            next,
                        )
                    }
            },
    ensures
        sight(states.last().sink) == chunks_in(events).fold_left(sight(states[0].sink), step),
        states.last().f == states[0].f,
    decreases events.len(),
{
    if events.len() > 0 {
        let n = events.len() - 1;
        let earlier = events.drop_last();
        let before = states.drop_last();
        let answers = progress.drop_last();
        assert forall|i: int| #[trigger]
            adapter::is_index(i, earlier.len() as int) implies {
            &&& visitor::consumes(before[i], earlier[i], answers[i], before[i + 1])
            &&& earlier[i] matches Some(StreamEvent::Chunk(chunk)) ==> exists|
                called: &mut CollectChunks<T, F>,
                next: Next,
            |
                {
                    &&& *called == before[i]
                    &&& *final(called) == before[i + 1]
                    &&& #[trigger] call_ensures(
                        CollectChunks::<T, F>::on_chunk,
                        (called, chunk),
                        next,
                    )
                }
        } by {
            assert(adapter::is_index(i, events.len() as int));
            assert(before[i] == states[i] && before[i + 1] == states[i + 1]);
            assert(earlier[i] == events[i] && answers[i] == progress[i]);
        }
        collecting_closure_folds_chunks(sight, step, before, earlier, answers);
        assert(adapter::is_index(n, events.len() as int));
        if let Some(StreamEvent::Chunk(chunk)) = events.last() {
            assert(chunks_in(events).drop_last() =~= chunks_in(earlier));
            assert(chunks_in(events).last() == chunk);
        }
    }
}

/// Whether these are answers of a visitor that is asked as long as it answers with
/// [`Next::Continue`].
pub open spec fn asked_until_break(answers: Seq<Next>) -> bool {
    forall|i: int| 0 <= i < answers.len() - 1 ==> #[trigger] answers[i] == Next::Continue
}

/// An inspecting closure is called once for each chunk of the stream, in order, with that chunk, and
/// for nothing else. Driving goes on exactly as long as it answers with [`Next::Continue`].
pub proof fn inspecting_closure_sees_each_chunk<F>(
    start: InspectChunks<F>,
    events: Seq<Option<StreamEvent>>,
    progress: Progress,
    end: InspectChunks<F>,
) -> (answers: Seq<Next>) where F: FnMut(Chunk) -> Next + Send + 'static
    requires
        driven(start, events, progress, end),
    ensures
        end == start,
        answers.len() == chunks_in(events).len(),
        forall|i: int|
            #![trigger answers[i]]
            0 <= i < answers.len() ==> call_ensures(start.f, (chunks_in(events)[i],), answers[i]),
        asked_until_break(answers),
        progress == Progress::Continue ==> forall|i: int|
            0 <= i < answers.len() ==> #[trigger] answers[i] == Next::Continue,
        events.len() > 0 && (events.last() matches Some(StreamEvent::Chunk(_))) ==> progress
            == match answers.last() {
            Next::Continue => Progress::Continue,
            Next::Break => Progress::Finished,
        },
    decreases events.len(),
{
    if events.len() == 0 {
        Seq::empty()
    } else {
        let earlier = events.drop_last();
        let middle = choose|middle: InspectChunks<F>|
            {
                &&& driven(start, earlier, Progress::Continue, middle)
                &&& #[trigger] visitor::consumes(middle, events.last(), progress, end)
            };
        let before = inspecting_closure_sees_each_chunk(start, earlier, Progress::Continue, middle);
        match events.last() {
            Some(StreamEvent::Chunk(_)) => {
                let answer = if progress == Progress::Continue {
                    Next::Continue
                } else {
                    Next::Break
                };
                let answers = before.push(answer);
                assert(forall|i: int| 0 <= i < before.len() ==> answers[i] == before[i]);
                assert(forall|i: int|
                    0 <= i < before.len() ==> chunks_in(events)[i] == chunks_in(earlier)[i]);
                answers
            },
            _ => before,
        }
    }
}

/// An inspecting closure is called once for each line of the stream, in order, with the text of that
/// line, up to the first that it answers with [`Next::Break`]. The unterminated last line is among
/// them once the stream has ended, and what stands around a gap is not joined.
pub proof fn inspecting_closure_sees_each_line<F>(
    start: ParseLines<InspectLineSink<F>>,
    events: Seq<Option<StreamEvent>>,
    progress: Progress,
    end: ParseLines<InspectLineSink<F>>,
) -> (answers: Seq<Next>) where F: FnMut(Cow<'_, str>) -> Next + Send + 'static
    requires
        start@.parser == ParserState::initial(),
        driven(start, events, progress, end),
    ensures
        ({
            let lines = lines_of(events, start@.options);
            &&& end@.inner == start@.inner
            &&& end@.options == start@.options
            &&& answers.len() <= lines.len()
            &&& forall|i: int|
                #![trigger answers[i]]
                0 <= i < answers.len() ==> inspect::may_answer(
                    start@.inner.f,
                    lines[i],
                    answers[i],
                )
            &&& asked_until_break(answers)
            &&& answers.len() < lines.len() ==> answers.len() > 0 && answers.last() == Next::Break
                && progress == Progress::Finished
            &&& progress == Progress::Continue ==> {
                let heard = forwarding::hear_all(event_views(events), start@.options);
                &&& heard.open
                &&& end@.parser == heard.parser
                &&& answers.len() == lines.len()
                &&& forall|i: int|
                    0 <= i < answers.len() ==> #[trigger] answers[i] == Next::Continue
            }
        }),
    decreases events.len(),
{
    let options = start@.options;
    let f = start@.inner.f;
    let views = event_views(events);
    let lines = lines_of(events, options);
    if events.len() == 0 {
        assert(views =~= Seq::<Option<EventView>>::empty());
        assert(lines =~= Seq::<Seq<char>>::empty());
        Seq::empty()
    } else {
        let earlier = events.drop_last();
        let middle = choose|middle: ParseLines<InspectLineSink<F>>|
            {
                &&& driven(start, earlier, Progress::Continue, middle)
                &&& #[trigger] visitor::consumes(middle, events.last(), progress, end)
            };
        let before = inspecting_closure_sees_each_line(start, earlier, Progress::Continue, middle);
        lines_of_longer_stream(events, options);
        assert(views.drop_last() =~= event_views(earlier));
        assert(views.last() == event::next_view(events.last()));
        let passed = lines_of(earlier, options);
        match events.last() {
            Some(StreamEvent::Chunk(chunk)) => {
                let fed = parser::feed(middle@.parser, chunk@, options).0;
                let more = text::decoded(fed);
                assert(lines =~= passed + more);
                if progress == Progress::Continue {
                    inspect::passed_lines_were_inspected(middle@.inner, more, end@.inner);
                    let answers = before + Seq::new(more.len(), |i: int| Next::Continue);
                    assert forall|i: int|
                        #![trigger answers[i]]
                        0 <= i < answers.len() implies inspect::may_answer(
                        f,
                        lines[i],
                        answers[i],
                    ) by {
                        if i < before.len() {
                            assert(answers[i] == before[i]);
                            assert(lines[i] == passed[i]);
                        } else {
                            assert(lines[i] == more[i - before.len()]);
                        }
                    }
                    answers
                } else {
                    let (seen, shown) = choose|seen: int, shown: InspectLineSink<F>|
                        #![trigger InspectLineSink::<F>::line_step(
                            shown,
                            text::text_of(fed[seen]),
                            Next::Break,
                            end@.inner,
                        )]
                        {
                            &&& 0 <= seen < fed.len()
                            &&& end@.parser == parser::advance(
                                middle@.parser,
                                chunk@,
                                options,
                                (seen + 1) as nat,
                            ).0
                            &&& adapter::observes(
                                middle@.inner,
                                text::decoded(fed.take(seen)),
                                shown,
                            )
                            &&& InspectLineSink::<F>::line_step(
                                shown,
                                text::text_of(fed[seen]),
                                Next::Break,
                                end@.inner,
                            )
                        };
                    let first = text::decoded(fed.take(seen));
                    inspect::passed_lines_were_inspected(middle@.inner, first, shown);
                    let answers = (before + Seq::new(seen as nat, |i: int| Next::Continue)).push(
                        Next::Break,
                    );
                    assert forall|i: int|
                        #![trigger answers[i]]
                        0 <= i < answers.len() implies inspect::may_answer(
                        f,
                        lines[i],
                        answers[i],
                    ) by {
                        if i < before.len() {
                            assert(answers[i] == before[i]);
                            assert(lines[i] == passed[i]);
                        } else if i < before.len() + seen {
                            assert(lines[i] == first[i - before.len()]);
                        } else {
                            assert(lines[i] == text::text_of(fed[seen]));
                        }
                    }
                    answers
                }
            },
            Some(StreamEvent::Eof) | None => {
                let trailing = parser::option_to_seq(parser::trailing_line(middle@.parser));
                assert(lines =~= passed + text::decoded(trailing));
                if trailing.len() == 0 {
                    assert(lines =~= passed);
                    before
                } else {
                    let line = text::text_of(trailing[0]);
                    let next = choose|next: Next| #[trigger] inspect::may_answer(f, line, next);
                    assert(inspect::may_answer(f, line, next)) by {
                        let (answer, told) = choose|answer: Next, told: InspectLineSink<F>|
                            #![trigger InspectLineSink::<F>::line_step(
                                middle@.inner,
                                line,
                                answer,
                                told,
                            )]
                            InspectLineSink::<F>::line_step(middle@.inner, line, answer, told)
                                && InspectLineSink::<F>::eof_step(told, end@.inner);
                        assert(inspect::may_answer(f, line, answer));
                    }
                    let answers = before.push(next);
                    assert forall|i: int|
                        #![trigger answers[i]]
                        0 <= i < answers.len() implies inspect::may_answer(
                        f,
                        lines[i],
                        answers[i],
                    ) by {
                        if i < before.len() {
                            assert(answers[i] == before[i]);
                            assert(lines[i] == passed[i]);
                        } else {
                            assert(lines[i] == line);
                        }
                    }
                    answers
                }
            },
            _ => {
                assert(lines =~= passed);
                before
            },
        }
    }
}

/// What is collected of a stream is what is collected of the bytes of its chunks, one after the
/// other. Gaps and the end add nothing.
pub proof fn collected_bytes_are_bytes_of_stream(
    start: CollectChunksIntoVec,
    events: Seq<Option<StreamEvent>>,
    progress: Progress,
    end: CollectChunksIntoVec,
)
    requires
        start.collection() == RawCollection::empty(),
        driven(start, events, progress, end),
    ensures
        end.limits() == start.limits(),
        end.collection() == retention::collect_chunks(
            chunks_in(events).map_values(|chunk: Chunk| chunk@),
            start.limits(),
        ),
        events.len() > 0 && (events.last() matches Some(StreamEvent::Chunk(_))) ==> progress
            == Progress::Continue,
    decreases events.len(),
{
    let chunks = chunks_in(events).map_values(|chunk: Chunk| chunk@);
    if events.len() > 0 {
        let earlier = events.drop_last();
        let middle = choose|middle: CollectChunksIntoVec|
            {
                &&& driven(start, earlier, Progress::Continue, middle)
                &&& #[trigger] visitor::consumes(middle, events.last(), progress, end)
            };
        collected_bytes_are_bytes_of_stream(start, earlier, Progress::Continue, middle);
        let before = chunks_in(earlier).map_values(|chunk: Chunk| chunk@);
        if let Some(StreamEvent::Chunk(chunk)) = events.last() {
            assert(chunks =~= before.push(chunk@));
            assert(chunks.drop_last() =~= before);
        } else {
            assert(chunks =~= before);
        }
    } else {
        assert(chunks =~= Seq::<Seq<u8>>::empty());
    }
}

/// The bytes that arrive with events, in order.
pub open spec fn bytes_of(events: Seq<Option<StreamEvent>>) -> Seq<u8> {
    chunks_in(events).map_values(|chunk: Chunk| chunk@).flatten()
}

/// A visitor that collects bytes and drops the oldest data ends up with the newest bytes of the
/// stream, as many as its limit allows. One that drops additional data ends up with the first ones,
/// and one without a limit with all. Truncation is reported exactly if a byte is missing.
pub proof fn byte_collector_keeps_one_end_of_the_stream(
    start: CollectChunksIntoVec,
    events: Seq<Option<StreamEvent>>,
    progress: Progress,
    end: CollectChunksIntoVec,
)
    requires
        start.collection() == RawCollection::empty(),
        driven(start, events, progress, end),
    ensures
        ({
            let stream = bytes_of(events);
            let collected = end.collection();
            match start.limits() {
                RawCollectionOptions::TrustedUnbounded => {
                    &&& collected.bytes == stream
                    &&& !collected.truncated
                },
                RawCollectionOptions::Bounded { max_bytes, overflow_behavior } => {
                    let max = max_bytes@ as int;
                    let all = stream.len() <= max;
                    &&& collected.truncated == !all
                    &&& all ==> collected.bytes == stream
                    &&& !all && overflow_behavior == CollectionOverflowBehavior::DropOldestData
                        ==> collected.bytes == stream.subrange(stream.len() - max, stream.len() as int)
                    &&& !all && overflow_behavior == CollectionOverflowBehavior::DropAdditionalData
                        ==> collected.bytes == stream.subrange(0, max)
                },
            }
        }),
{
    collected_bytes_are_bytes_of_stream(start, events, progress, end);
    let chunks = chunks_in(events).map_values(|chunk: Chunk| chunk@);
    retention::collected_bytes_are_one_end_of_the_stream(chunks, start.limits());
}

/// Whether a stream has not ended and did not fail with these events.
pub open spec fn goes_on(events: Seq<Option<StreamEvent>>) -> bool {
    forall|i: int|
        0 <= i < events.len() ==> (#[trigger] events[i] matches Some(StreamEvent::Chunk(_)))
            || events[i] == Some(StreamEvent::Gap)
}

proof fn lines_of_gap_and_chunk(
    events: Seq<Option<StreamEvent>>,
    chunk: Chunk,
    options: LineParsingOptions,
)
    requires
        goes_on(events),
    ensures
        ({
            let (lines, end) = parser::feed(ParserState::discarding(), chunk@, options);
            lines_of(
                events.push(Some(StreamEvent::Gap)).push(Some(StreamEvent::Chunk(chunk))).push(
                    Some(StreamEvent::Eof),
                ),
                options,
            ) == lines_of(events, options) + text::decoded(
                lines + parser::option_to_seq(parser::trailing_line(end)),
            )
        }),
{
    let gap = events.push(Some(StreamEvent::Gap));
    let behind = gap.push(Some(StreamEvent::Chunk(chunk)));
    let all = behind.push(Some(StreamEvent::Eof));
    shown_lines_are_lines_of_stream(events, options);
    assert(gap.drop_last() =~= events);
    assert(behind.drop_last() =~= gap);
    assert(all.drop_last() =~= behind);
    assert(goes_on(gap)) by {
        assert forall|i: int| 0 <= i < gap.len() implies (#[trigger] gap[i] matches Some(
            StreamEvent::Chunk(_),
        )) || gap[i] == Some(StreamEvent::Gap) by {
            if i < events.len() {
                assert(gap[i] == events[i]);
            }
        }
    }
    assert(goes_on(behind)) by {
        assert forall|i: int| 0 <= i < behind.len() implies (#[trigger] behind[i] matches Some(
            StreamEvent::Chunk(_),
        )) || behind[i] == Some(StreamEvent::Gap) by {
            if i < gap.len() {
                assert(behind[i] == gap[i]);
            }
        }
    }
    shown_lines_are_lines_of_stream(gap, options);
    shown_lines_are_lines_of_stream(behind, options);
    lines_of_longer_stream(gap, options);
    lines_of_longer_stream(behind, options);
    lines_of_longer_stream(all, options);
    let (lines, end) = parser::feed(ParserState::discarding(), chunk@, options);
    let trailing = parser::option_to_seq(parser::trailing_line(end));
    assert(text::decoded(lines + trailing) =~= text::decoded(lines) + text::decoded(trailing));
    assert(lines_of(events, options) + text::decoded(Seq::empty()) =~= lines_of(events, options));
    assert((lines_of(events, options) + text::decoded(lines)) + text::decoded(trailing)
        =~= lines_of(events, options) + (text::decoded(lines) + text::decoded(trailing)));
}

/// Nothing is joined across a gap. Of the chunk behind it, everything up to its first newline is left
/// out, and the rest is a stream of its own.
pub proof fn gap_parts_the_stream(
    events: Seq<Option<StreamEvent>>,
    chunk: Chunk,
    skipped: Seq<u8>,
    rest: Seq<u8>,
    options: LineParsingOptions,
)
    requires
        goes_on(events),
        forall|i: int| 0 <= i < skipped.len() ==> skipped[i] != 10u8,
        chunk@ == skipped.push(10u8) + rest,
    ensures
        lines_of(
            events.push(Some(StreamEvent::Gap)).push(Some(StreamEvent::Chunk(chunk))).push(
                Some(StreamEvent::Eof),
            ),
            options,
        ) == lines_of(events, options) + laws::parse_chunks(seq![rest], options).map_values(
            |line: Seq<u8>| text::text_of(line),
        ),
{
    lines_of_gap_and_chunk(events, chunk, options);
    laws::gap_restarts_after_newline(skipped, rest, options);
    laws::feed_chunks_is_feed(ParserState::initial(), seq![rest], options);
    assert(seq![rest].skip(1) =~= Seq::<Seq<u8>>::empty());
    assert(laws::joined(seq![rest].skip(1)) =~= Seq::<u8>::empty());
    assert(laws::joined(seq![rest]) =~= rest);
}

/// A chunk behind a gap that holds no newline shows nothing, not even at the end of the stream.
pub proof fn line_cut_by_a_gap_is_left_out(
    events: Seq<Option<StreamEvent>>,
    chunk: Chunk,
    options: LineParsingOptions,
)
    requires
        goes_on(events),
        forall|i: int| 0 <= i < chunk@.len() ==> chunk@[i] != 10u8,
    ensures
        lines_of(
            events.push(Some(StreamEvent::Gap)).push(Some(StreamEvent::Chunk(chunk))).push(
                Some(StreamEvent::Eof),
            ),
            options,
        ) == lines_of(events, options),
{
    lines_of_gap_and_chunk(events, chunk, options);
    laws::gap_discards_until_newline(chunk@, options);
    assert(lines_of(events, options) + text::decoded(
        Seq::<Seq<u8>>::empty() + Seq::<Seq<u8>>::empty(),
    ) =~= lines_of(events, options));
}

} // verus!
