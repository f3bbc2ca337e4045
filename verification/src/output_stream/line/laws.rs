//! Laws of line parsing: what holds of every byte stream, however it is cut into chunks.

use crate::output_stream::line::options::LineParsingOptions;
use crate::output_stream::line::parser::{self, LineParserMode, ParserState, NEWLINE};
use crate::output_stream::line::text;
use crate::output_stream::num_bytes::NumBytes;
use vstd::prelude::*;
use vstd::utf8::*;

verus! {

/// A state within the limit stays within it, whatever byte comes.
pub proof fn absorb_keeps_limit(state: ParserState, byte: u8, options: LineParsingOptions)
    requires
        state.wf(),
        state.within(options),
    ensures
        parser::absorb(state, byte, options).1.wf(),
        parser::absorb(state, byte, options).1.within(options),
{
}

/// A state within the limit stays within it, whatever bytes come.
pub proof fn feed_keeps_limit(state: ParserState, input: Seq<u8>, options: LineParsingOptions)
    requires
        state.wf(),
        state.within(options),
    ensures
        parser::feed(state, input, options).1.wf(),
        parser::feed(state, input, options).1.within(options),
    decreases input.len(),
{
    if input.len() > 0 {
        absorb_keeps_limit(state, input[0], options);
        feed_keeps_limit(parser::absorb(state, input[0], options).1, input.skip(1), options);
    }
}

/// Asking for one line after the other gives exactly the lines that feeding the input at once
/// gives, and ends in the same state.
pub proof fn next_unrolls_feed(state: ParserState, input: Seq<u8>, options: LineParsingOptions)
    requires
        state.wf(),
        state.within(options),
    ensures
        ({
            let (line, after, rest) = parser::next(state, input, options);
            let (lines, end) = parser::feed(state, input, options);
            match line {
                Some(bytes) => {
                    let (more, more_end) = parser::feed(after, rest, options);
                    &&& lines == seq![bytes] + more
                    &&& end == more_end
                },
                None => {
                    &&& lines == Seq::<Seq<u8>>::empty()
                    &&& end == after
                    &&& rest.len() == 0
                },
            }
        }),
    decreases input.len(),
{
    if input.len() > 0 {
        let first = parser::step(state, input[0], options);
        let (lines, after) = parser::absorb(state, input[0], options);
        let (more, end) = parser::feed(after, input.skip(1), options);
        if first.line is Some {
            if !first.consumed {
                let second = parser::step(first.state, input[0], options);
                assert(parser::feed(first.state, input, options).0 == parser::option_to_seq(second.line) + more);
                assert(lines + more == seq![first.line->Some_0] + (parser::option_to_seq(second.line)
                    + more));
            }
        } else {
            absorb_keeps_limit(state, input[0], options);
            next_unrolls_feed(first.state, input.skip(1), options);
            assert(lines + more == more);
        }
    }
}

/// Asking for a line keeps the state within the limit.
proof fn next_keeps_limit(state: ParserState, input: Seq<u8>, options: LineParsingOptions)
    requires
        state.wf(),
        state.within(options),
    ensures
        parser::next(state, input, options).1.wf(),
        parser::next(state, input, options).1.within(options),
    decreases input.len(),
{
    if input.len() > 0 {
        let first = parser::step(state, input[0], options);
        if first.line is None {
            next_keeps_limit(first.state, input.skip(1), options);
        }
    }
}

proof fn advance_leaves_the_other_lines(
    state: ParserState,
    input: Seq<u8>,
    options: LineParsingOptions,
    n: nat,
)
    requires
        state.wf(),
        state.within(options),
        n <= parser::feed(state, input, options).0.len(),
    ensures
        ({
            let (lines, end) = parser::feed(state, input, options);
            let (before, left) = parser::advance(state, input, options, n);
            &&& parser::feed(before, left, options) == (lines.skip(n as int), end)
            &&& before.wf()
            &&& before.within(options)
        }),
    decreases n,
{
    let (lines, end) = parser::feed(state, input, options);
    if n == 0 {
        assert(lines.skip(0) == lines);
    } else {
        let (before, left) = parser::advance(state, input, options, (n - 1) as nat);
        advance_leaves_the_other_lines(state, input, options, (n - 1) as nat);
        next_unrolls_feed(before, left, options);
        next_keeps_limit(before, left, options);
        let (_, after, rest) = parser::next(before, left, options);
        let more = parser::feed(after, rest, options).0;
        assert((seq![lines.skip(n - 1)[0]] + more).skip(1) == more);
        assert(lines.skip(n - 1).skip(1) == lines.skip(n as int));
    }
}

/// A run that asks for one line after the other gets, for the `n`-th time, the `n`-th line that
/// feeding the input at once gives. Once it has them all it gets none, the input is used up, and the
/// state is the one that feeding ends in.
pub proof fn asking_gives_the_fed_lines(
    state: ParserState,
    input: Seq<u8>,
    options: LineParsingOptions,
    n: nat,
)
    requires
        state.wf(),
        state.within(options),
        n <= parser::feed(state, input, options).0.len(),
    ensures
        ({
            let (lines, end) = parser::feed(state, input, options);
            let (before, left) = parser::advance(state, input, options, n);
            let (line, after, rest) = parser::next(before, left, options);
            if n < lines.len() {
                line == Some(lines[n as int])
            } else {
                line is None && after == end && rest.len() == 0
            }
        }),
{
    let lines = parser::feed(state, input, options).0;
    let (before, left) = parser::advance(state, input, options, n);
    advance_leaves_the_other_lines(state, input, options, n);
    next_unrolls_feed(before, left, options);
    if n < lines.len() {
        assert(lines.skip(n as int)[0] == lines[n as int]);
    }
}

/// Asking for a line leaves room for what is left of the input.
pub proof fn next_keeps_room(state: ParserState, input: Seq<u8>, options: LineParsingOptions)
    requires
        parser::has_room(state, input.len(), options),
    ensures
        ({
            let (_, after, rest) = parser::next(state, input, options);
            parser::has_room(after, rest.len(), options)
        }),
    decreases input.len(),
{
    if input.len() > 0 {
        let first = parser::step(state, input[0], options);
        if first.line is None {
            next_keeps_room(first.state, input.skip(1), options);
        }
    }
}

/// Feeding two byte strings one after the other is feeding their concatenation: the place where a
/// stream is cut into chunks does not show.
pub proof fn feed_concat(
    state: ParserState,
    first: Seq<u8>,
    second: Seq<u8>,
    options: LineParsingOptions,
)
    ensures
        ({
            let (lines, middle) = parser::feed(state, first, options);
            let (more, end) = parser::feed(middle, second, options);
            parser::feed(state, first + second, options) == (lines + more, end)
        }),
    decreases first.len(),
{
    if first.len() == 0 {
        assert(first + second == second);
        assert(Seq::<Seq<u8>>::empty() + parser::feed(state, second, options).0 == parser::feed(
            state,
            second,
            options,
        ).0);
    } else {
        let (lines, after) = parser::absorb(state, first[0], options);
        feed_concat(after, first.skip(1), second, options);
        assert((first + second).skip(1) == first.skip(1) + second);
        let (rest, middle) = parser::feed(after, first.skip(1), options);
        let more = parser::feed(middle, second, options).0;
        assert(lines + (rest + more) == (lines + rest) + more);
    }
}

/// The lines of a stream that arrives in chunks, and the state after the last chunk.
pub open spec fn feed_chunks(
    state: ParserState,
    chunks: Seq<Seq<u8>>,
    options: LineParsingOptions,
) -> (Seq<Seq<u8>>, ParserState)
    decreases chunks.len(),
{
    if chunks.len() == 0 {
        (Seq::empty(), state)
    } else {
        let (lines, after) = parser::feed(state, chunks[0], options);
        let (more, end) = feed_chunks(after, chunks.skip(1), options);
        (lines + more, end)
    }
}

/// All lines of a finished stream that arrives in chunks, the unterminated last one among them.
pub open spec fn parse_chunks(chunks: Seq<Seq<u8>>, options: LineParsingOptions) -> Seq<Seq<u8>> {
    let (lines, end) = feed_chunks(ParserState::initial(), chunks, options);
    lines + parser::option_to_seq(parser::trailing_line(end))
}

/// The bytes of all chunks, in order.
pub open spec fn joined(chunks: Seq<Seq<u8>>) -> Seq<u8>
    decreases chunks.len(),
{
    if chunks.len() == 0 {
        Seq::empty()
    } else {
        chunks[0] + joined(chunks.skip(1))
    }
}

/// Feeding chunks and one chunk more is feeding the chunks, and then the one.
pub proof fn feed_chunks_push(
    state: ParserState,
    chunks: Seq<Seq<u8>>,
    chunk: Seq<u8>,
    options: LineParsingOptions,
)
    ensures
        ({
            let (lines, middle) = feed_chunks(state, chunks, options);
            let (more, end) = parser::feed(middle, chunk, options);
            feed_chunks(state, chunks.push(chunk), options) == (lines + more, end)
        }),
    decreases chunks.len(),
{
    if chunks.len() == 0 {
        assert(chunks.push(chunk).skip(1) =~= Seq::<Seq<u8>>::empty());
        let (more, end) = parser::feed(state, chunk, options);
        assert(feed_chunks(end, chunks.push(chunk).skip(1), options) == (
            Seq::<Seq<u8>>::empty(),
            end,
        ));
        assert(more + Seq::<Seq<u8>>::empty() =~= more);
        assert(Seq::<Seq<u8>>::empty() + more =~= more);
    } else {
        let (head, after) = parser::feed(state, chunks[0], options);
        feed_chunks_push(after, chunks.skip(1), chunk, options);
        assert(chunks.push(chunk).skip(1) =~= chunks.skip(1).push(chunk));
        let (lines, middle) = feed_chunks(after, chunks.skip(1), options);
        let more = parser::feed(middle, chunk, options).0;
        assert(head + (lines + more) =~= (head + lines) + more);
    }
}

/// Feeding chunks one by one is feeding their joined bytes.
pub proof fn feed_chunks_is_feed(
    state: ParserState,
    chunks: Seq<Seq<u8>>,
    options: LineParsingOptions,
)
    ensures
        feed_chunks(state, chunks, options) == parser::feed(state, joined(chunks), options),
    decreases chunks.len(),
{
    if chunks.len() > 0 {
        let after = parser::feed(state, chunks[0], options).1;
        feed_chunks_is_feed(after, chunks.skip(1), options);
        feed_concat(state, chunks[0], joined(chunks.skip(1)), options);
    }
}

/// Two ways to cut the same bytes into chunks give the same lines.
pub proof fn rechunking_preserves_lines(
    chunks: Seq<Seq<u8>>,
    others: Seq<Seq<u8>>,
    options: LineParsingOptions,
)
    requires
        joined(chunks) == joined(others),
    ensures
        parse_chunks(chunks, options) == parse_chunks(others, options),
{
    feed_chunks_is_feed(ParserState::initial(), chunks, options);
    feed_chunks_is_feed(ParserState::initial(), others, options);
}

/// The compaction threshold shows in no line and no state.
pub proof fn compaction_preserves_fed_lines(
    state: ParserState,
    input: Seq<u8>,
    options: LineParsingOptions,
    threshold: Option<NumBytes>,
)
    ensures
        parser::feed(
            state,
            input,
            LineParsingOptions { buffer_compaction_threshold: threshold, ..options },
        ) == parser::feed(state, input, options),
    decreases input.len(),
{
    if input.len() > 0 {
        let compacting = LineParsingOptions { buffer_compaction_threshold: threshold, ..options };
        let after = parser::absorb(state, input[0], options).1;
        assert(parser::absorb(state, input[0], compacting) == parser::absorb(
            state,
            input[0],
            options,
        ));
        compaction_preserves_fed_lines(after, input.skip(1), options, threshold);
    }
}

/// Two runs over the same bytes give the same lines, whatever the chunks that the bytes arrive in
/// and whatever the compaction thresholds.
pub proof fn rechunking_and_compaction_preserve_lines(
    chunks: Seq<Seq<u8>>,
    others: Seq<Seq<u8>>,
    options: LineParsingOptions,
    threshold: Option<NumBytes>,
)
    requires
        joined(chunks) == joined(others),
    ensures
        parse_chunks(
            chunks,
            LineParsingOptions { buffer_compaction_threshold: threshold, ..options },
        ) == parse_chunks(others, options),
{
    let compacting = LineParsingOptions { buffer_compaction_threshold: threshold, ..options };
    feed_chunks_is_feed(ParserState::initial(), chunks, compacting);
    feed_chunks_is_feed(ParserState::initial(), others, options);
    compaction_preserves_fed_lines(ParserState::initial(), joined(others), options, threshold);
}

/// A byte string cut into chunks of one byte each.
pub open spec fn single_byte_chunks(input: Seq<u8>) -> Seq<Seq<u8>> {
    input.map_values(|byte: u8| seq![byte])
}

/// Chunks of one byte each give the same lines as the whole stream in one chunk.
pub proof fn single_byte_chunks_match_single_chunk(input: Seq<u8>, options: LineParsingOptions)
    ensures
        parse_chunks(single_byte_chunks(input), options) == parse_chunks(seq![input], options),
{
    joined_single_byte_chunks(input);
    assert(joined(seq![input]) == input) by {
        assert(seq![input].skip(1) == Seq::<Seq<u8>>::empty());
        assert(joined(seq![input].skip(1)) == Seq::<u8>::empty());
    }
    rechunking_preserves_lines(single_byte_chunks(input), seq![input], options);
}

proof fn joined_single_byte_chunks(input: Seq<u8>)
    ensures
        joined(single_byte_chunks(input)) == input,
    decreases input.len(),
{
    if input.len() > 0 {
        joined_single_byte_chunks(input.skip(1));
        assert(single_byte_chunks(input).skip(1) == single_byte_chunks(input.skip(1)));
        assert(seq![input[0]] + input.skip(1) == input);
    }
}

/// Whether a byte string holds no newline.
pub open spec fn is_one_line(bytes: Seq<u8>) -> bool {
    forall|i: int| 0 <= i < bytes.len() ==> bytes[i] != NEWLINE
}

/// The stream that writes each line followed by a newline.
pub open spec fn terminated(lines: Seq<Seq<u8>>) -> Seq<u8>
    decreases lines.len(),
{
    if lines.len() == 0 {
        Seq::empty()
    } else {
        lines[0].push(NEWLINE) + terminated(lines.skip(1))
    }
}

/// Reading bytes that neither end the line nor go beyond the limit completes no line, except for
/// the one that ends exactly at the limit.
pub proof fn feed_within_limit(partial: Seq<u8>, bytes: Seq<u8>, options: LineParsingOptions)
    requires
        is_one_line(bytes),
        options.allows(partial.len() + bytes.len()),
        !options.is_full(partial.len()) || bytes.len() == 0,
    ensures
        parser::feed(ParserState::reading(partial), bytes, options) == if options.is_full(
            partial.len() + bytes.len(),
        ) && options.continues_on_new_line() && bytes.len() > 0 {
            (
                seq![partial + bytes],
                ParserState {
                    mode: LineParserMode::PendingLimitDelimiter,
                    partial: Seq::empty(),
                },
            )
        } else {
            (Seq::empty(), ParserState::reading(partial + bytes))
        },
    decreases bytes.len(),
{
    if bytes.len() == 0 {
        assert(partial + bytes == partial);
    } else {
        let rest = bytes.skip(1);
        let state = ParserState::reading(partial);
        let (lines, after) = parser::absorb(state, bytes[0], options);
        assert(partial.push(bytes[0]) + rest == partial + bytes);
        if rest.len() == 0 {
            assert(lines + Seq::<Seq<u8>>::empty() == lines);
            assert(parser::feed(after, rest, options) == (Seq::<Seq<u8>>::empty(), after));
            assert(partial.push(bytes[0]) == partial + bytes);
        } else {
            assert(lines == Seq::<Seq<u8>>::empty());
            feed_within_limit(partial.push(bytes[0]), rest, options);
            let more = parser::feed(after, rest, options).0;
            assert(lines + more == more);
        }
    }
}

/// A line within the limit followed by a newline is read as that one line.
pub proof fn feed_terminated_line(line: Seq<u8>, options: LineParsingOptions)
    requires
        is_one_line(line),
        options.allows(line.len()),
    ensures
        parser::feed(ParserState::initial(), line.push(NEWLINE), options) == (
            seq![line],
            ParserState::initial(),
        ),
{
    let start = ParserState::initial();
    let end = seq![NEWLINE];
    feed_within_limit(Seq::empty(), line, options);
    assert(Seq::<u8>::empty() + line == line);
    let (lines, middle) = parser::feed(start, line, options);
    feed_concat(start, line, end, options);
    assert(line.push(NEWLINE) == line + end);
    let (more, last) = parser::absorb(middle, NEWLINE, options);
    assert(end.skip(1) == Seq::<u8>::empty());
    assert(parser::feed(last, end.skip(1), options) == (Seq::<Seq<u8>>::empty(), last));
    assert(more + Seq::<Seq<u8>>::empty() == more);
    assert(parser::feed(middle, end, options) == (more, last));
    assert(lines + more == seq![line]);
}

/// Only newlines split lines: a stream that writes lines within the limit, each followed by a
/// newline, is read back as exactly those lines, whatever other bytes they hold.
pub proof fn terminated_lines_are_read_back(lines: Seq<Seq<u8>>, options: LineParsingOptions)
    requires
        forall|i: int|
            0 <= i < lines.len() ==> is_one_line(#[trigger] lines[i]) && options.allows(
                lines[i].len(),
            ),
    ensures
        parser::feed(ParserState::initial(), terminated(lines), options) == (lines, ParserState::initial()),
    decreases lines.len(),
{
    if lines.len() > 0 {
        let start = ParserState::initial();
        let rest = lines.skip(1);
        assert(is_one_line(lines[0]));
        assert(forall|i: int| 0 <= i < rest.len() ==> rest[i] == lines[i + 1]);
        terminated_lines_are_read_back(rest, options);
        feed_terminated_line(lines[0], options);
        feed_concat(start, lines[0].push(NEWLINE), terminated(rest), options);
        assert(seq![lines[0]] + rest == lines);
    }
}

/// No line is longer than the limit, under either overflow behavior.
pub proof fn emitted_lines_stay_within_limit(
    state: ParserState,
    input: Seq<u8>,
    options: LineParsingOptions,
)
    requires
        state.wf(),
        state.within(options),
    ensures
        forall|i: int|
            0 <= i < parser::feed(state, input, options).0.len() ==> options.allows(
                (#[trigger] parser::feed(state, input, options).0[i]).len(),
            ),
        parser::trailing_line(parser::feed(state, input, options).1) is Some ==> options.allows(
            parser::trailing_line(parser::feed(state, input, options).1)->Some_0.len(),
        ),
    decreases input.len(),
{
    feed_keeps_limit(state, input, options);
    if input.len() > 0 {
        let (lines, after) = parser::absorb(state, input[0], options);
        absorb_keeps_limit(state, input[0], options);
        emitted_lines_stay_within_limit(after, input.skip(1), options);
        let more = parser::feed(after, input.skip(1), options).0;
        assert forall|i: int| 0 <= i < (lines + more).len() implies options.allows(
            (#[trigger] (lines + more)[i]).len(),
        ) by {
            if i < lines.len() {
                assert((lines + more)[i] == lines[i]);
            } else {
                assert((lines + more)[i] == more[i - lines.len()]);
            }
        }
    }
}

/// The text of a line that is valid UTF-8 takes the bytes of the line, so it is within the limit too.
/// Replacement characters can make the text of another line longer than the limit.
pub proof fn emitted_texts_stay_within_limit(
    state: ParserState,
    input: Seq<u8>,
    options: LineParsingOptions,
    i: int,
)
    requires
        state.wf(),
        state.within(options),
        0 <= i < parser::feed(state, input, options).0.len(),
        valid_utf8(parser::feed(state, input, options).0[i]),
    ensures
        ({
            let line = parser::feed(state, input, options).0[i];
            &&& encode_utf8(text::text_of(line)) == line
            &&& options.allows(encode_utf8(text::text_of(line)).len())
        }),
{
    emitted_lines_stay_within_limit(state, input, options);
    decode_utf8_encode_utf8(parser::feed(state, input, options).0[i]);
}

/// The bytes of `input` without its newlines.
pub open spec fn without_newlines(input: Seq<u8>) -> Seq<u8> {
    input.filter(|byte: u8| byte != NEWLINE)
}

/// Where lines continue beyond the limit, or have none, no byte is lost or invented: the lines and
/// the line in progress together hold all bytes but the newlines, in order.
pub proof fn emit_additional_preserves_all_bytes(
    state: ParserState,
    input: Seq<u8>,
    options: LineParsingOptions,
)
    requires
        state.wf(),
        state.mode != LineParserMode::DiscardUntilNewline,
        options.continues_on_new_line() || !options.is_limited(),
    ensures
        ({
            let (lines, end) = parser::feed(state, input, options);
            &&& joined(lines) + end.partial == state.partial + without_newlines(input)
            &&& end.mode != LineParserMode::DiscardUntilNewline
        }),
    decreases input.len(),
{
    if input.len() == 0 {
        assert(without_newlines(input) == Seq::<u8>::empty()) by {
            reveal(Seq::filter);
        }
        assert(joined(Seq::<Seq<u8>>::empty()) + state.partial == state.partial + Seq::<
            u8,
        >::empty());
    } else {
        let byte = input[0];
        let (lines, after) = parser::absorb(state, byte, options);
        let (more, end) = parser::feed(after, input.skip(1), options);
        emit_additional_preserves_all_bytes(after, input.skip(1), options);
        joined_concat(lines, more);
        without_newlines_first(input);
        let kept = if byte == NEWLINE { Seq::empty() } else { seq![byte] };
        assert(joined(lines) + after.partial == state.partial + kept) by {
            reveal_with_fuel(joined, 3);
            assert(lines.len() <= 2);
            if lines.len() >= 1 {
                assert(lines.skip(1).len() == lines.len() - 1);
            }
            if lines.len() == 2 {
                assert(lines.skip(1)[0] == lines[1]);
            }
        }
        assert(joined(lines + more) + end.partial == joined(lines) + (joined(more) + end.partial));
        assert(joined(lines) + (after.partial + without_newlines(input.skip(1))) == (joined(lines)
            + after.partial) + without_newlines(input.skip(1)));
        assert((state.partial + kept) + without_newlines(input.skip(1)) == state.partial + (kept
            + without_newlines(input.skip(1))));
    }
}

proof fn without_newlines_first(input: Seq<u8>)
    requires
        input.len() > 0,
    ensures
        without_newlines(input) == (if input[0] == NEWLINE {
            Seq::empty()
        } else {
            seq![input[0]]
        }) + without_newlines(input.skip(1)),
{
    let keep = |byte: u8| byte != NEWLINE;
    let head = seq![input[0]];
    assert(input == head + input.skip(1));
    Seq::filter_distributes_over_add(head, input.skip(1), keep);
    reveal_with_fuel(Seq::filter, 2);
    assert(head.drop_last() == Seq::<u8>::empty());
}

pub proof fn joined_concat(first: Seq<Seq<u8>>, second: Seq<Seq<u8>>)
    ensures
        joined(first + second) == joined(first) + joined(second),
    decreases first.len(),
{
    if first.len() == 0 {
        assert(first + second == second);
    } else {
        joined_concat(first.skip(1), second);
        assert((first + second).skip(1) == first.skip(1) + second);
        assert(first[0] + (joined(first.skip(1)) + joined(second)) == (first[0] + joined(
            first.skip(1),
        )) + joined(second));
    }
}

/// Whatever came before, a newline brings the parser back to the start of a line.
pub proof fn newline_resynchronizes(state: ParserState, options: LineParsingOptions)
    requires
        state.wf(),
    ensures
        parser::absorb(state, NEWLINE, options).1 == ParserState::initial(),
{
}

/// After a gap the lines are the last lines of the run without the gap: nothing is joined across
/// the gap, and nothing comes out that would not have come out anyway.
pub proof fn gap_emits_suffix_of_no_gap_run(
    state: ParserState,
    input: Seq<u8>,
    options: LineParsingOptions,
)
    requires
        state.wf(),
        state.within(options),
    ensures
        ({
            let (lines, end) = parser::feed(state, input, options);
            let (after_gap, gap_end) = parser::feed(ParserState::discarding(), input, options);
            let all = lines + parser::option_to_seq(parser::trailing_line(end));
            let all_after_gap = after_gap + parser::option_to_seq(parser::trailing_line(gap_end));
            &&& after_gap.is_suffix_of(lines)
            &&& all_after_gap.is_suffix_of(all)
        }),
    decreases input.len(),
{
    let (lines, end) = parser::feed(state, input, options);
    let (after_gap, gap_end) = parser::feed(ParserState::discarding(), input, options);
    if input.len() == 0 {
    } else if input[0] == NEWLINE {
        newline_resynchronizes(state, options);
        newline_resynchronizes(ParserState::discarding(), options);
        let more = parser::feed(ParserState::initial(), input.skip(1), options).0;
        assert(after_gap == more);
        assert(end == gap_end);
        assert(lines == parser::absorb(state, NEWLINE, options).0 + more);
    } else {
        let (head, after) = parser::absorb(state, input[0], options);
        absorb_keeps_limit(state, input[0], options);
        gap_emits_suffix_of_no_gap_run(after, input.skip(1), options);
        let more = parser::feed(after, input.skip(1), options).0;
        assert(lines == head + more);
        assert(after_gap == parser::feed(ParserState::discarding(), input.skip(1), options).0);
        let all = lines + parser::option_to_seq(parser::trailing_line(end));
        assert(all == head + (more + parser::option_to_seq(parser::trailing_line(end))));
    }
}

/// Until a newline comes, nothing is emitted after a gap.
pub proof fn gap_discards_until_newline(input: Seq<u8>, options: LineParsingOptions)
    requires
        is_one_line(input),
    ensures
        parser::feed(ParserState::discarding(), input, options) == (
            Seq::<Seq<u8>>::empty(),
            ParserState::discarding(),
        ),
        parser::trailing_line(ParserState::discarding()) is None,
    decreases input.len(),
{
    if input.len() > 0 {
        let rest = input.skip(1);
        assert(forall|i: int| 0 <= i < rest.len() ==> rest[i] == input[i + 1]);
        gap_discards_until_newline(rest, options);
    }
}

/// After a gap the rest of the line is skipped, and what follows the first newline is read as by a
/// fresh parser.
pub proof fn gap_restarts_after_newline(
    skipped: Seq<u8>,
    rest: Seq<u8>,
    options: LineParsingOptions,
)
    requires
        is_one_line(skipped),
    ensures
        parser::feed(ParserState::discarding(), skipped.push(NEWLINE) + rest, options)
            == parser::feed(ParserState::initial(), rest, options),
{
    gap_discards_until_newline(skipped, options);
    let input = seq![NEWLINE] + rest;
    assert(skipped.push(NEWLINE) + rest == skipped + input);
    feed_concat(ParserState::discarding(), skipped, input, options);
    assert(input.skip(1) == rest);
    newline_resynchronizes(ParserState::discarding(), options);
    let lines = parser::feed(ParserState::initial(), rest, options).0;
    assert(Seq::<Seq<u8>>::empty() + (Seq::<Seq<u8>>::empty() + lines) == lines);
}

/// Dropping the rest of an over-long line cuts it at the limit: a line of any length, followed by a
/// newline, is read as its longest prefix within the limit.
pub proof fn drop_additional_truncates(line: Seq<u8>, options: LineParsingOptions)
    requires
        is_one_line(line),
        options.is_limited(),
        !options.continues_on_new_line(),
        line.len() > options.max_line_length@,
    ensures
        parser::feed(ParserState::initial(), line.push(NEWLINE), options) == (
            seq![line.take(options.max_line_length@ as int)],
            ParserState::initial(),
        ),
{
    let max = options.max_line_length@ as int;
    let start = ParserState::initial();
    let kept = line.take(max);
    let dropped = line.skip(max);
    feed_within_limit(Seq::empty(), kept, options);
    assert(Seq::<u8>::empty() + kept == kept);
    assert(parser::feed(start, kept, options) == (Seq::<Seq<u8>>::empty(), ParserState::reading(kept)));
    let (cut, after) = parser::absorb(ParserState::reading(kept), dropped[0], options);
    assert(dropped[0] == line[max]);
    assert(cut == seq![kept] && after == ParserState::discarding());
    let rest = dropped.skip(1);
    assert(forall|i: int| 0 <= i < rest.len() ==> rest[i] == line[max + 1 + i]);
    gap_discards_until_newline(rest, options);
    let end = seq![NEWLINE];
    assert(end.skip(1) == Seq::<u8>::empty());
    assert(parser::feed(ParserState::discarding(), end, options) == (
        Seq::<Seq<u8>>::empty(),
        ParserState::initial(),
    )) by {
        assert(parser::feed(ParserState::initial(), end.skip(1), options) == (
            Seq::<Seq<u8>>::empty(),
            ParserState::initial(),
        ));
    }
    feed_concat(ParserState::discarding(), rest, end, options);
    assert(dropped + end == (seq![dropped[0]] + rest) + end);
    assert((dropped + end).skip(1) == rest + end);
    assert(parser::feed(ParserState::reading(kept), dropped + end, options).0 == seq![kept]);
    feed_concat(start, kept, dropped + end, options);
    assert(line.push(NEWLINE) == kept + (dropped + end));
}

} // verus!
