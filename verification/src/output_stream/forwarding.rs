//! Laws of forwarding: what a consumer that waits between lines makes of a whole stream.

use crate::output_stream::event::EventView;
use crate::output_stream::line::dispatch::{DispatchPhase, Dispatching, LineAction};
use crate::output_stream::line::laws;
use crate::output_stream::line::options::LineParsingOptions;
use crate::output_stream::line::parser::{self, LineParserMode, ParserState, NEWLINE};
use crate::output_stream::line::text;
use crate::output_stream::visitors::write::{
    LineWriteAction, LineWriteMode, LineWriting, SinkWriteError, SinkWriteErrorAction,
    SinkWriteErrorHandler, SinkWriteOperation, WriteFailure,
};
use crate::output_stream::Next;
use std::io;
use vstd::prelude::*;
use vstd::utf8::*;

verus! {

/// What was heard of a stream.
#[verifier::ext_equal]
pub struct Heard {
    /// The lines, the unterminated last one among them once the stream has ended.
    pub lines: Seq<Seq<u8>>,
    /// The state of a parser that took in all of it.
    pub parser: ParserState,
    /// Whether the stream goes on.
    pub open: bool,
}

/// What is heard of a stream with one event more. The first end of a stream is its end.
pub open spec fn hear(
    heard: Heard,
    event: Option<EventView>,
    options: LineParsingOptions,
) -> Heard {
    if !heard.open {
        heard
    } else {
        match event {
            Some(EventView::Chunk(chunk)) => {
                let (lines, end) = parser::feed(heard.parser, chunk, options);
                Heard { lines: heard.lines + lines, parser: end, open: true }
            },
            Some(EventView::Gap) => Heard { parser: ParserState::discarding(), ..heard },
            Some(EventView::Eof) | None => {
                let trailing = parser::trailing_line(heard.parser);
                Heard {
                    lines: heard.lines + parser::option_to_seq(trailing),
                    parser: if trailing is Some {
                        ParserState { mode: heard.parser.mode, partial: Seq::empty() }
                    } else {
                        heard.parser
                    },
                    open: false,
                }
            },
            Some(EventView::ReadError(_)) => heard,
        }
    }
}

/// What is heard of a stream with these events.
pub open spec fn hear_all(events: Seq<Option<EventView>>, options: LineParsingOptions) -> Heard
    decreases events.len(),
{
    if events.len() == 0 {
        Heard { lines: Seq::empty(), parser: ParserState::initial(), open: true }
    } else {
        hear(hear_all(events.drop_last(), options), events.last(), options)
    }
}

/// Chunks as events.
pub open spec fn chunk_events(chunks: Seq<Seq<u8>>) -> Seq<Option<EventView>> {
    chunks.map_values(|chunk: Seq<u8>| Some(EventView::Chunk(chunk)))
}

proof fn hear_chunks(chunks: Seq<Seq<u8>>, options: LineParsingOptions)
    ensures
        ({
            let (lines, parser) = laws::feed_chunks(ParserState::initial(), chunks, options);
            hear_all(chunk_events(chunks), options) == (Heard { lines, parser, open: true })
        }),
    decreases chunks.len(),
{
    if chunks.len() > 0 {
        hear_chunks(chunks.drop_last(), options);
        laws::feed_chunks_push(
            ParserState::initial(),
            chunks.drop_last(),
            chunks.last(),
            options,
        );
        assert(chunks.drop_last().push(chunks.last()) =~= chunks);
        assert(chunk_events(chunks).drop_last() =~= chunk_events(chunks.drop_last()));
    }
}

/// The lines heard of a stream of chunks up to its end are those of the stream, the unterminated
/// last one among them.
pub proof fn heard_lines_are_lines_of_stream(chunks: Seq<Seq<u8>>, options: LineParsingOptions)
    ensures
        hear_all(chunk_events(chunks).push(Some(EventView::Eof)), options).lines
            == laws::parse_chunks(chunks, options),
{
    let events = chunk_events(chunks).push(Some(EventView::Eof));
    hear_chunks(chunks, options);
    assert(events.drop_last() =~= chunk_events(chunks));
}

/// What a dispatch is told.
pub enum Input {
    /// The next event of the stream.
    Event(Option<EventView>),
    /// The answer of a visit.
    Answer(Next),
}

/// The events among inputs.
pub open spec fn events_in(inputs: Seq<Input>) -> Seq<Option<EventView>>
    decreases inputs.len(),
{
    if inputs.len() == 0 {
        Seq::empty()
    } else {
        let before = events_in(inputs.drop_last());
        match inputs.last() {
            Input::Event(event) => before.push(event),
            Input::Answer(_) => before,
        }
    }
}

/// The lines that a dispatch hands out while it is told `inputs`, and what is left to do.
pub open spec fn dispatch_all(start: Dispatching, inputs: Seq<Input>) -> (
    Seq<Seq<char>>,
    Dispatching,
)
    decreases inputs.len(),
{
    if inputs.len() == 0 {
        (Seq::empty(), start)
    } else {
        let (visited, before) = dispatch_all(start, inputs.drop_last());
        let told = match inputs.last() {
            Input::Event(event) => before.receive(event),
            Input::Answer(next) => before.answer(next),
        };
        let fails = inputs.last() matches Input::Event(Some(EventView::ReadError(_)))
            && before.phase == DispatchPhase::Open;
        if fails {
            (visited, before)
        } else {
            (
                if told.pending.len() > 0 {
                    visited.push(told.pending[0])
                } else {
                    visited
                },
                told.handed_out(),
            )
        }
    }
}

/// A dispatch that has not been told anything.
pub open spec fn fresh(options: LineParsingOptions) -> Dispatching {
    Dispatching {
        parser: ParserState::initial(),
        options,
        pending: Seq::empty(),
        phase: DispatchPhase::Open,
    }
}

proof fn decoded_concat(first: Seq<Seq<u8>>, second: Seq<Seq<u8>>)
    ensures
        text::decoded(first + second) == text::decoded(first) + text::decoded(second),
{
    assert(text::decoded(first + second) =~= text::decoded(first) + text::decoded(second));
}

/// As long as no visit asks to stop, the lines handed out and those that wait for it are together
/// the lines of the stream, in order.
pub proof fn dispatched_lines_are_lines_of_stream(
    options: LineParsingOptions,
    inputs: Seq<Input>,
)
    requires
        forall|i: int| 0 <= i < inputs.len() ==> #[trigger] inputs[i] != Input::Answer(Next::Break),
    ensures
        ({
            let (visited, left) = dispatch_all(fresh(options), inputs);
            let heard = hear_all(events_in(inputs), options);
            &&& visited + left.pending == text::decoded(heard.lines)
            &&& left.parser == heard.parser
            &&& left.options == options
            &&& left.phase == if heard.open {
                DispatchPhase::Open
            } else {
                DispatchPhase::Ended
            }
        }),
    decreases inputs.len(),
{
    if inputs.len() == 0 {
        assert(text::decoded(Seq::<Seq<u8>>::empty()) =~= Seq::<Seq<char>>::empty());
        assert(Seq::<Seq<char>>::empty() + Seq::<Seq<char>>::empty() =~= Seq::<Seq<char>>::empty());
    } else {
        let earlier = inputs.drop_last();
        assert forall|i: int| 0 <= i < earlier.len() implies #[trigger] earlier[i]
            != Input::Answer(Next::Break) by {
            assert(earlier[i] == inputs[i]);
        }
        dispatched_lines_are_lines_of_stream(options, earlier);
        let (visited, before) = dispatch_all(fresh(options), earlier);
        let heard = hear_all(events_in(earlier), options);
        let (now, left) = dispatch_all(fresh(options), inputs);
        let told = match inputs.last() {
            Input::Event(event) => before.receive(event),
            Input::Answer(next) => before.answer(next),
        };
        match inputs.last() {
            Input::Event(event) => {
                assert(events_in(inputs).drop_last() =~= events_in(earlier));
                let more = hear(heard, event, options);
                match event {
                    Some(EventView::Chunk(chunk)) => {
                        decoded_concat(heard.lines, parser::feed(heard.parser, chunk, options).0);
                    },
                    Some(EventView::Eof) | None => {
                        decoded_concat(
                            heard.lines,
                            parser::option_to_seq(parser::trailing_line(heard.parser)),
                        );
                    },
                    _ => {},
                }
                assert(visited + told.pending =~= text::decoded(more.lines));
            },
            Input::Answer(_) => {
                assert(inputs[inputs.len() - 1] == inputs.last());
            },
        }
        assert(now + left.pending =~= visited + told.pending);
    }
}

/// Once a visit asked to stop, no line is handed out any more.
pub proof fn nothing_is_visited_behind_a_stop(
    start: Dispatching,
    before: Seq<Input>,
    behind: Seq<Input>,
)
    ensures
        ({
            let (visited, _) = dispatch_all(start, before);
            let (now, left) = dispatch_all(
                start,
                before.push(Input::Answer(Next::Break)) + behind,
            );
            &&& now == visited
            &&& left.pending.len() == 0
            &&& left.phase != DispatchPhase::Open
        }),
    decreases behind.len(),
{
    let stopped = before.push(Input::Answer(Next::Break));
    if behind.len() == 0 {
        assert(stopped + behind =~= stopped);
        assert(stopped.drop_last() =~= before);
    } else {
        nothing_is_visited_behind_a_stop(start, before, behind.drop_last());
        assert((stopped + behind).drop_last() =~= stopped + behind.drop_last());
        assert((stopped + behind).last() == behind.last());
    }
}

/// The bytes that writing lines puts out if no write fails.
pub open spec fn written(lines: Seq<Seq<u8>>, mode: LineWriteMode) -> Seq<u8>
    decreases lines.len(),
{
    if lines.len() == 0 {
        Seq::empty()
    } else {
        let line = match mode {
            LineWriteMode::AsIs => lines[0],
            LineWriteMode::AppendLf => lines[0].push(NEWLINE),
        };
        line + written(lines.skip(1), mode)
    }
}

/// Lines written as they are follow each other without anything between them.
pub proof fn as_is_adds_nothing(lines: Seq<Seq<u8>>)
    ensures
        written(lines, LineWriteMode::AsIs) == laws::joined(lines),
    decreases lines.len(),
{
    if lines.len() > 0 {
        as_is_adds_nothing(lines.skip(1));
    }
}

/// Parsing a stream of lines that each end in a newline and stay within the limit, and writing them
/// with a newline appended, reconstructs the stream.
pub proof fn append_lf_reconstructs_stream(lines: Seq<Seq<u8>>, options: LineParsingOptions)
    requires
        forall|i: int|
            0 <= i < lines.len() ==> laws::is_one_line(#[trigger] lines[i]) && options.allows(
                lines[i].len(),
            ),
    ensures
        ({
            let stream = laws::terminated(lines);
            written(
                parser::feed(ParserState::initial(), stream, options).0,
                LineWriteMode::AppendLf,
            ) == stream
        }),
{
    laws::terminated_lines_are_read_back(lines, options);
    append_lf_terminates(lines);
}

proof fn append_lf_terminates(lines: Seq<Seq<u8>>)
    ensures
        written(lines, LineWriteMode::AppendLf) == laws::terminated(lines),
    decreases lines.len(),
{
    if lines.len() > 0 {
        append_lf_terminates(lines.skip(1));
    }
}

/// The bytes that writing texts puts out if no write fails.
pub open spec fn written_texts(texts: Seq<Seq<char>>, mode: LineWriteMode) -> Seq<u8>
    decreases texts.len(),
{
    if texts.len() == 0 {
        Seq::empty()
    } else {
        let line = written_texts(texts.drop_last(), mode) + encode_utf8(texts.last());
        match mode {
            LineWriteMode::AsIs => line,
            LineWriteMode::AppendLf => line.push(NEWLINE),
        }
    }
}

proof fn written_push(lines: Seq<Seq<u8>>, line: Seq<u8>, mode: LineWriteMode)
    ensures
        written(lines.push(line), mode) == written(lines, mode) + match mode {
            LineWriteMode::AsIs => line,
            LineWriteMode::AppendLf => line.push(NEWLINE),
        },
    decreases lines.len(),
{
    let all = lines.push(line);
    if lines.len() == 0 {
        assert(all.skip(1) =~= Seq::<Seq<u8>>::empty());
        assert(written(all.skip(1), mode) =~= Seq::<u8>::empty());
    } else {
        written_push(lines.skip(1), line, mode);
        assert(all.skip(1) =~= lines.skip(1).push(line));
    }
}

/// Lines that are valid UTF-8 are written with the bytes they were read with.
pub proof fn valid_lines_are_written_unchanged(lines: Seq<Seq<u8>>, mode: LineWriteMode)
    requires
        forall|i: int| 0 <= i < lines.len() ==> valid_utf8(#[trigger] lines[i]),
    ensures
        written_texts(text::decoded(lines), mode) == written(lines, mode),
    decreases lines.len(),
{
    if lines.len() > 0 {
        let earlier = lines.drop_last();
        assert forall|i: int| 0 <= i < earlier.len() implies valid_utf8(#[trigger] earlier[i]) by {
            assert(earlier[i] == lines[i]);
        }
        valid_lines_are_written_unchanged(earlier, mode);
        assert(text::decoded(lines).drop_last() =~= text::decoded(earlier));
        assert(valid_utf8(lines[lines.len() - 1]));
        decode_utf8_encode_utf8(lines.last());
        written_push(earlier, lines.last(), mode);
        assert(earlier.push(lines.last()) =~= lines);
        assert(written_texts(text::decoded(lines), mode) =~= written(lines, mode));
    }
}

/// What a writer of lines is told if no write fails.
pub enum WriteInput {
    /// The next event of the stream.
    Event(Option<EventView>),
    /// So many bytes of a line were written.
    LineWritten(usize),
    /// The delimiter was written.
    DelimiterWritten,
}

/// The action that an input responds to last.
pub open spec fn last_action(actions: Seq<LineWriteAction>) -> LineWriteAction {
    if actions.len() == 0 {
        LineWriteAction::NextEvent
    } else {
        actions.last()
    }
}

/// Whether the input tells how the action went.
pub open spec fn responds(input: WriteInput, action: LineWriteAction) -> bool {
    match action {
        LineWriteAction::NextEvent => input matches WriteInput::Event(event)
            && !(event matches Some(EventView::ReadError(_))),
        LineWriteAction::WriteLine(_) => input is LineWritten,
        LineWriteAction::WriteDelimiter => input is DelimiterWritten,
        LineWriteAction::Finished | LineWriteAction::Failed(_) => false,
    }
}

/// How an input changes a writer, and what it does next.
pub open spec fn write_goes_on<H: SinkWriteErrorHandler>(
    before: LineWriting<H>,
    input: WriteInput,
    action: LineWriteAction,
    after: LineWriting<H>,
) -> bool {
    match input {
        WriteInput::Event(event) => {
            let received = before.dispatch.receive(event);
            &&& crate::output_stream::visitors::write::offers_write(received, action)
            &&& after == (LineWriting { dispatch: received.handed_out(), ..before })
        },
        WriteInput::LineWritten(len) => before.write_step(
            SinkWriteOperation::Line,
            len,
            Ok(()),
            before.mode == LineWriteMode::AppendLf,
            action,
            after,
        ),
        WriteInput::DelimiterWritten => before.write_step(
            SinkWriteOperation::LineDelimiter,
            1,
            Ok(()),
            false,
            action,
            after,
        ),
    }
}

/// Whether a writer that is told `inputs`, each in response to the action before it, does `actions`
/// and ends up as `end`.
pub open spec fn writes_through<H: SinkWriteErrorHandler>(
    start: LineWriting<H>,
    inputs: Seq<WriteInput>,
    actions: Seq<LineWriteAction>,
    end: LineWriting<H>,
) -> bool
    decreases inputs.len(),
{
    &&& actions.len() == inputs.len()
    &&& if inputs.len() == 0 {
        end == start
    } else {
        exists|middle: LineWriting<H>|
            {
                &&& writes_through(start, inputs.drop_last(), actions.drop_last(), middle)
                &&& responds(inputs.last(), last_action(actions.drop_last()))
                &&& #[trigger] write_goes_on(middle, inputs.last(), actions.last(), end)
            }
    }
}

/// The events among inputs.
pub open spec fn write_events_in(inputs: Seq<WriteInput>) -> Seq<Option<EventView>>
    decreases inputs.len(),
{
    if inputs.len() == 0 {
        Seq::empty()
    } else {
        let before = write_events_in(inputs.drop_last());
        match inputs.last() {
            WriteInput::Event(event) => before.push(event),
            _ => before,
        }
    }
}

/// The lines that actions write.
pub open spec fn lines_in(actions: Seq<LineWriteAction>) -> Seq<Seq<char>>
    decreases actions.len(),
{
    if actions.len() == 0 {
        Seq::empty()
    } else {
        let before = lines_in(actions.drop_last());
        match actions.last() {
            LineWriteAction::WriteLine(line) => before.push(line@),
            _ => before,
        }
    }
}

/// The bytes that actions write.
pub open spec fn put_out(actions: Seq<LineWriteAction>) -> Seq<u8>
    decreases actions.len(),
{
    if actions.len() == 0 {
        Seq::empty()
    } else {
        let before = put_out(actions.drop_last());
        match actions.last() {
            LineWriteAction::WriteLine(line) => before + encode_utf8(line@),
            LineWriteAction::WriteDelimiter => before.push(NEWLINE),
            _ => before,
        }
    }
}

/// A write that succeeds leaves the handler alone. The delimiter follows if one is asked for, and
/// the next line otherwise.
pub proof fn successful_write_goes_on<H: SinkWriteErrorHandler>(
    before: LineWriting<H>,
    operation: SinkWriteOperation,
    attempted_len: usize,
    delimits: bool,
    action: LineWriteAction,
    after: LineWriting<H>,
)
    requires
        before.write_step(operation, attempted_len, Ok(()), delimits, action, after),
    ensures
        if delimits {
            action == LineWriteAction::WriteDelimiter && after == before
        } else {
            &&& crate::output_stream::visitors::write::offers_write(before.dispatch, action)
            &&& after == (LineWriting { dispatch: before.dispatch.handed_out(), ..before })
        },
{
}

/// The bytes put out so far are those of the lines handed out so far. Only a delimiter may still be
/// missing behind the last one.
proof fn put_out_follows_lines<H: SinkWriteErrorHandler>(
    start: LineWriting<H>,
    inputs: Seq<WriteInput>,
    actions: Seq<LineWriteAction>,
    end: LineWriting<H>,
)
    requires
        start.dispatch == fresh(start.dispatch.options),
        writes_through(start, inputs, actions, end),
    ensures
        ({
            let heard = hear_all(write_events_in(inputs), start.dispatch.options);
            let lines = lines_in(actions);
            &&& lines + end.dispatch.pending == text::decoded(heard.lines)
            &&& end == (LineWriting { dispatch: end.dispatch, ..start })
            &&& end.dispatch.options == start.dispatch.options
            &&& end.dispatch.parser == heard.parser
            &&& end.dispatch.phase == if heard.open {
                DispatchPhase::Open
            } else {
                DispatchPhase::Ended
            }
            &&& match last_action(actions) {
                LineWriteAction::WriteLine(line) => {
                    &&& lines.len() > 0
                    &&& lines.last() == line@
                    &&& put_out(actions) == written_texts(lines.drop_last(), start.mode)
                        + encode_utf8(line@)
                },
                LineWriteAction::WriteDelimiter => {
                    &&& start.mode == LineWriteMode::AppendLf
                    &&& put_out(actions) == written_texts(lines, start.mode)
                },
                _ => {
                    &&& end.dispatch.pending.len() == 0
                    &&& put_out(actions) == written_texts(lines, start.mode)
                    &&& heard.open == (last_action(actions) is NextEvent)
                },
            }
        }),
    decreases inputs.len(),
{
    let options = start.dispatch.options;
    if inputs.len() == 0 {
        assert(text::decoded(Seq::<Seq<u8>>::empty()) =~= Seq::<Seq<char>>::empty());
        assert(Seq::<Seq<char>>::empty() + Seq::<Seq<char>>::empty() =~= Seq::<Seq<char>>::empty());
    } else {
        let middle = choose|middle: LineWriting<H>|
            {
                &&& writes_through(start, inputs.drop_last(), actions.drop_last(), middle)
                &&& responds(inputs.last(), last_action(actions.drop_last()))
                &&& #[trigger] write_goes_on(middle, inputs.last(), actions.last(), end)
            };
        put_out_follows_lines(start, inputs.drop_last(), actions.drop_last(), middle);
        let heard = hear_all(write_events_in(inputs.drop_last()), options);
        let earlier = lines_in(actions.drop_last());
        let lines = lines_in(actions);
        let told = match inputs.last() {
            WriteInput::Event(event) => {
                assert(write_events_in(inputs).drop_last() =~= write_events_in(
                    inputs.drop_last(),
                ));
                let more = hear(heard, event, options);
                match event {
                    Some(EventView::Chunk(chunk)) => {
                        decoded_concat(heard.lines, parser::feed(heard.parser, chunk, options).0);
                    },
                    Some(EventView::Eof) | None => {
                        decoded_concat(
                            heard.lines,
                            parser::option_to_seq(parser::trailing_line(heard.parser)),
                        );
                    },
                    _ => {},
                }
                let received = middle.dispatch.receive(event);
                assert(earlier + received.pending =~= text::decoded(more.lines));
                received
            },
            WriteInput::LineWritten(len) => {
                successful_write_goes_on(
                    middle,
                    SinkWriteOperation::Line,
                    len,
                    middle.mode == LineWriteMode::AppendLf,
                    actions.last(),
                    end,
                );
                middle.dispatch
            },
            WriteInput::DelimiterWritten => {
                successful_write_goes_on(
                    middle,
                    SinkWriteOperation::LineDelimiter,
                    1,
                    false,
                    actions.last(),
                    end,
                );
                middle.dispatch
            },
        };
        assert(lines + end.dispatch.pending =~= earlier + told.pending);
        if let LineWriteAction::WriteLine(line) = actions.last() {
            assert(lines.drop_last() =~= earlier);
        }
    }
}

/// A writer of lines whose writes succeed has written, whenever it waits for the next event or is
/// finished, exactly the lines of the stream so far, in the requested mode. It waits for more as long
/// as the stream goes on, and is finished exactly if the stream has ended.
pub proof fn forwarded_output_is_lines_of_stream<H: SinkWriteErrorHandler>(
    start: LineWriting<H>,
    inputs: Seq<WriteInput>,
    actions: Seq<LineWriteAction>,
    end: LineWriting<H>,
)
    requires
        start.dispatch == fresh(start.dispatch.options),
        writes_through(start, inputs, actions, end),
        last_action(actions) is NextEvent || last_action(actions) is Finished,
    ensures
        put_out(actions) == written_texts(
            text::decoded(hear_all(write_events_in(inputs), start.dispatch.options).lines),
            start.mode,
        ),
        hear_all(write_events_in(inputs), start.dispatch.options).open == (last_action(
            actions,
        ) is NextEvent),
{
    put_out_follows_lines(start, inputs, actions, end);
    assert(lines_in(actions) + end.dispatch.pending =~= lines_in(actions));
}

/// Forwarding a stream of terminated lines that are valid UTF-8 and within the limit, with newlines
/// appended, puts out the stream as it came in, however it was cut into chunks.
pub proof fn append_lf_forwards_stream_unchanged<H: SinkWriteErrorHandler>(
    start: LineWriting<H>,
    lines: Seq<Seq<u8>>,
    chunks: Seq<Seq<u8>>,
    inputs: Seq<WriteInput>,
    actions: Seq<LineWriteAction>,
    end: LineWriting<H>,
)
    requires
        start.dispatch == fresh(start.dispatch.options),
        start.mode == LineWriteMode::AppendLf,
        forall|i: int|
            0 <= i < lines.len() ==> laws::is_one_line(#[trigger] lines[i])
                && start.dispatch.options.allows(lines[i].len()) && valid_utf8(lines[i]),
        laws::joined(chunks) == laws::terminated(lines),
        write_events_in(inputs) == chunk_events(chunks).push(Some(EventView::Eof)),
        writes_through(start, inputs, actions, end),
        last_action(actions) is Finished,
    ensures
        put_out(actions) == laws::joined(chunks),
{
    let options = start.dispatch.options;
    forwarded_output_is_lines_of_stream(start, inputs, actions, end);
    heard_lines_are_lines_of_stream(chunks, options);
    laws::feed_chunks_is_feed(ParserState::initial(), chunks, options);
    laws::terminated_lines_are_read_back(lines, options);
    assert(laws::parse_chunks(chunks, options) =~= lines);
    valid_lines_are_written_unchanged(lines, LineWriteMode::AppendLf);
    append_lf_terminates(lines);
}

/// What a dispatch offers is the first line that waits, if there is one. Only then it asks for the
/// next event while the stream goes on, and says that it is done once the stream has ended or a visit
/// asked to stop.
pub proof fn offered_action_is_what_is_next(dispatch: Dispatching, action: LineAction)
    requires
        dispatch.offers(action),
    ensures
        match action {
            LineAction::Visit(line) => dispatch.pending.len() > 0 && line@ == dispatch.pending[0],
            LineAction::NextEvent => {
                &&& dispatch.pending.len() == 0
                &&& dispatch.phase == DispatchPhase::Open
            },
            LineAction::Ended => {
                &&& dispatch.pending.len() == 0
                &&& dispatch.phase == DispatchPhase::Ended
            },
            LineAction::Stopped => {
                &&& dispatch.pending.len() == 0
                &&& dispatch.phase == DispatchPhase::Stopped
            },
            LineAction::Failed(_) => false,
        },
{
}

/// The same of a writer: it writes the first line that waits, asks for the next event only while the
/// stream goes on and no line waits, and is finished only once neither is the case.
pub proof fn offered_write_is_what_is_next(dispatch: Dispatching, action: LineWriteAction)
    requires
        crate::output_stream::visitors::write::offers_write(dispatch, action),
    ensures
        match action {
            LineWriteAction::WriteLine(line) => {
                &&& dispatch.pending.len() > 0
                &&& line@ == dispatch.pending[0]
            },
            LineWriteAction::NextEvent => {
                &&& dispatch.pending.len() == 0
                &&& dispatch.phase == DispatchPhase::Open
            },
            LineWriteAction::Finished => {
                &&& dispatch.pending.len() == 0
                &&& dispatch.phase != DispatchPhase::Open
            },
            LineWriteAction::WriteDelimiter | LineWriteAction::Failed(_) => false,
        },
{
}

/// Handing a line out takes the first one away and nothing else. Without a line, nothing changes.
pub proof fn handing_out_takes_the_first_line(dispatch: Dispatching)
    ensures
        dispatch.pending.len() > 0 ==> seq![dispatch.pending[0]] + dispatch.handed_out().pending
            == dispatch.pending,
        dispatch.pending.len() == 0 ==> dispatch.handed_out().pending.len() == 0,
        dispatch.handed_out().parser == dispatch.parser,
        dispatch.handed_out().options == dispatch.options,
        dispatch.handed_out().phase == dispatch.phase,
{
    if dispatch.pending.len() > 0 {
        assert(seq![dispatch.pending[0]] + dispatch.pending.skip(1) =~= dispatch.pending);
    }
}

/// Behind the end of a stream, and once a visit asked to stop, no event changes anything.
pub proof fn events_behind_the_end_are_ignored(dispatch: Dispatching, event: Option<EventView>)
    requires
        dispatch.phase != DispatchPhase::Open,
    ensures
        dispatch.receive(event) == dispatch,
{
}

/// While a stream goes on, an event adds the lines that it completes behind those that wait, and
/// takes none away. Only the end of the stream ends the dispatch.
pub proof fn events_add_lines_behind_those_that_wait(
    dispatch: Dispatching,
    event: Option<EventView>,
)
    requires
        dispatch.phase == DispatchPhase::Open,
    ensures
        ({
            let after = dispatch.receive(event);
            let fed = match event {
                Some(EventView::Chunk(chunk)) => parser::feed(
                    dispatch.parser,
                    chunk,
                    dispatch.options,
                ),
                Some(EventView::Gap) => (Seq::empty(), ParserState::discarding()),
                _ => (Seq::empty(), dispatch.parser),
            };
            &&& after.options == dispatch.options
            &&& (after.phase == DispatchPhase::Open) == (event is Some && event != Some(
                EventView::Eof,
            ))
            &&& after.phase != DispatchPhase::Stopped
            &&& if after.phase == DispatchPhase::Open {
                &&& after.parser == fed.1
                &&& after.pending == dispatch.pending + fed.0.map_values(
                    |line: Seq<u8>| text::text_of(line),
                )
            } else {
                after.pending == dispatch.pending + if dispatch.parser.mode
                    == LineParserMode::DiscardUntilNewline || dispatch.parser.partial.len() == 0 {
                    Seq::empty()
                } else {
                    seq![text::text_of(dispatch.parser.partial)]
                }
            }
        }),
{
    let after = dispatch.receive(event);
    assert(dispatch.pending + Seq::<Seq<u8>>::empty().map_values(
        |line: Seq<u8>| text::text_of(line),
    ) =~= dispatch.pending);
    let trailing = parser::option_to_seq(parser::trailing_line(dispatch.parser));
    if trailing.len() > 0 {
        assert(text::decoded(trailing) =~= seq![text::text_of(dispatch.parser.partial)]);
    } else {
        assert(text::decoded(trailing) =~= Seq::<Seq<char>>::empty());
    }
}

/// A visit that asks to go on changes nothing. One that asks to stop drops the lines that wait, and
/// stops a stream that has not ended yet.
pub proof fn answers_only_stop(dispatch: Dispatching)
    ensures
        dispatch.answer(Next::Continue) == dispatch,
        ({
            let stopped = dispatch.answer(Next::Break);
            &&& stopped.pending.len() == 0
            &&& stopped.parser == dispatch.parser
            &&& stopped.options == dispatch.options
            &&& dispatch.phase == DispatchPhase::Open ==> stopped.phase == DispatchPhase::Stopped
            &&& dispatch.phase != DispatchPhase::Open ==> stopped.phase == dispatch.phase
        }),
{
}

/// A write that succeeds does not concern the handler, and counts as written.
pub proof fn successful_write_is_not_handled<H: SinkWriteErrorHandler>(
    before: H,
    stream_name: &'static str,
    operation: SinkWriteOperation,
    attempted_len: usize,
    outcome: Result<bool, SinkWriteError>,
    after: H,
)
    requires
        crate::output_stream::visitors::write::write_outcome(before, stream_name, operation, attempted_len, Ok(()), outcome, after),
    ensures
        outcome == Ok::<bool, SinkWriteError>(true),
        after == before,
{
}

/// A write that fails is put before the handler with all that is known of it. If the handler asks to
/// stop, that very error is the outcome, and otherwise the write counts as not written.
pub proof fn failed_write_is_put_before_the_handler<H: SinkWriteErrorHandler>(
    before: H,
    stream_name: &'static str,
    operation: SinkWriteOperation,
    attempted_len: usize,
    source: io::Error,
    outcome: Result<bool, SinkWriteError>,
    after: H,
) -> (handled: (SinkWriteError, SinkWriteErrorAction))
    requires
        crate::output_stream::visitors::write::write_outcome(
            before,
            stream_name,
            operation,
            attempted_len,
            Err(source),
            outcome,
            after,
        ),
    ensures
        H::decides(before, handled.0, handled.1, after),
        handled.0@.stream_name == stream_name,
        handled.0@.operation == operation,
        handled.0@.attempted_len == attempted_len,
        handled.0@.source == source,
        handled.1 == SinkWriteErrorAction::Stop ==> outcome == Err::<bool, SinkWriteError>(
            handled.0,
        ),
        handled.1 == SinkWriteErrorAction::Continue ==> outcome == Ok::<bool, SinkWriteError>(
            false,
        ),
{
    choose|error: SinkWriteError, action: SinkWriteErrorAction|
        {
            &&& #[trigger] H::decides(before, error, action, after)
            &&& error@ == (WriteFailure { stream_name, operation, attempted_len, source })
            &&& outcome == match action {
                SinkWriteErrorAction::Stop => Err::<bool, SinkWriteError>(error),
                SinkWriteErrorAction::Continue => Ok(false),
            }
        }
}

/// A failed write that the handler accepts costs only that line: no delimiter follows it, and the
/// lines behind it are written as if nothing had happened.
pub proof fn accepted_failure_costs_only_the_line<H: SinkWriteErrorHandler>(
    before: LineWriting<H>,
    operation: SinkWriteOperation,
    attempted_len: usize,
    source: io::Error,
    delimits: bool,
    action: LineWriteAction,
    after: LineWriting<H>,
)
    requires
        before.write_step(operation, attempted_len, Err(source), delimits, action, after),
        forall|error: SinkWriteError, answer: SinkWriteErrorAction| #[trigger]
            H::decides(before.error_handler, error, answer, after.error_handler) ==> answer
                == SinkWriteErrorAction::Continue,
    ensures
        crate::output_stream::visitors::write::offers_write(before.dispatch, action),
        action != LineWriteAction::WriteDelimiter,
        after.dispatch == before.dispatch.handed_out(),
        after.error == before.error,
        after.mode == before.mode,
        after.stream_name == before.stream_name,
{
    let outcome = choose|outcome: Result<bool, SinkWriteError>|
        {
            &&& #[trigger] crate::output_stream::visitors::write::write_outcome(
                before.error_handler,
                before.stream_name,
                operation,
                attempted_len,
                Err(source),
                outcome,
                after.error_handler,
            )
            &&& match outcome {
                Ok(written) => if written && delimits {
                    &&& action == LineWriteAction::WriteDelimiter
                    &&& after == (LineWriting { error_handler: after.error_handler, ..before })
                } else {
                    &&& crate::output_stream::visitors::write::offers_write(before.dispatch, action)
                    &&& after == (LineWriting {
                        error_handler: after.error_handler,
                        dispatch: before.dispatch.handed_out(),
                        ..before
                    })
                },
                Err(error) => {
                    &&& action == LineWriteAction::Finished
                    &&& after == (LineWriting {
                        error_handler: after.error_handler,
                        dispatch: before.dispatch.answer(Next::Break),
                        error: Some(error),
                        ..before
                    })
                },
            }
        };
    failed_write_is_put_before_the_handler(
        before.error_handler,
        before.stream_name,
        operation,
        attempted_len,
        source,
        outcome,
        after.error_handler,
    );
}

/// A failed write that the handler does not accept finishes the writing. No line is written behind
/// it, and the error tells what failed.
pub proof fn refused_failure_finishes_the_writing<H: SinkWriteErrorHandler>(
    before: LineWriting<H>,
    operation: SinkWriteOperation,
    attempted_len: usize,
    source: io::Error,
    delimits: bool,
    action: LineWriteAction,
    after: LineWriting<H>,
)
    requires
        before.write_step(operation, attempted_len, Err(source), delimits, action, after),
        forall|error: SinkWriteError, answer: SinkWriteErrorAction| #[trigger]
            H::decides(before.error_handler, error, answer, after.error_handler) ==> answer
                == SinkWriteErrorAction::Stop,
    ensures
        action == LineWriteAction::Finished,
        after.dispatch.pending.len() == 0,
        after.dispatch.phase != DispatchPhase::Open,
        after.error matches Some(error) && {
            &&& error@.stream_name == before.stream_name
            &&& error@.operation == operation
            &&& error@.attempted_len == attempted_len
            &&& error@.source == source
        },
{
    let outcome = choose|outcome: Result<bool, SinkWriteError>|
        {
            &&& #[trigger] crate::output_stream::visitors::write::write_outcome(
                before.error_handler,
                before.stream_name,
                operation,
                attempted_len,
                Err(source),
                outcome,
                after.error_handler,
            )
            &&& match outcome {
                Ok(written) => if written && delimits {
                    &&& action == LineWriteAction::WriteDelimiter
                    &&& after == (LineWriting { error_handler: after.error_handler, ..before })
                } else {
                    &&& crate::output_stream::visitors::write::offers_write(before.dispatch, action)
                    &&& after == (LineWriting {
                        error_handler: after.error_handler,
                        dispatch: before.dispatch.handed_out(),
                        ..before
                    })
                },
                Err(error) => {
                    &&& action == LineWriteAction::Finished
                    &&& after == (LineWriting {
                        error_handler: after.error_handler,
                        dispatch: before.dispatch.answer(Next::Break),
                        error: Some(error),
                        ..before
                    })
                },
            }
        };
    failed_write_is_put_before_the_handler(
        before.error_handler,
        before.stream_name,
        operation,
        attempted_len,
        source,
        outcome,
        after.error_handler,
    );
}

} // verus!
