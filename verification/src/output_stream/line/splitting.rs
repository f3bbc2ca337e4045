//! What the lines of a whole stream are: the stream split at its newlines, each piece cut at the
//! length limit.

use crate::output_stream::line::laws;
use crate::output_stream::line::options::{LineOverflowBehavior, LineParsingOptions};
use crate::output_stream::line::parser::{self, LineParserMode, ParserState, NEWLINE};
use crate::output_stream::line::text;
use vstd::arithmetic::div_mod::*;
use vstd::prelude::*;
use vstd::utf8::*;

verus! {

/// The pieces of a stream that a newline ends, and the bytes after the last newline.
pub open spec fn split(stream: Seq<u8>) -> (Seq<Seq<u8>>, Seq<u8>)
    decreases stream.len(),
{
    if stream.len() == 0 {
        (Seq::empty(), Seq::empty())
    } else {
        let (pieces, tail) = split(stream.drop_last());
        if stream.last() == NEWLINE {
            (pieces.push(tail), Seq::empty())
        } else {
            (pieces, tail.push(stream.last()))
        }
    }
}

/// All pieces of a finished stream. The bytes after the last newline are one of them, unless there
/// are none.
pub open spec fn pieces_of(stream: Seq<u8>) -> Seq<Seq<u8>> {
    let (pieces, tail) = split(stream);
    if tail.len() == 0 {
        pieces
    } else {
        pieces.push(tail)
    }
}

/// The lines that one piece gives. A piece within the limit is one line. A longer one is cut at the
/// limit: the rest is dropped, or cut in the same way.
pub open spec fn cut(piece: Seq<u8>, options: LineParsingOptions) -> Seq<Seq<u8>>
    decreases piece.len(),
{
    let max = options.max_line_length@ as int;
    if options.allows(piece.len()) {
        seq![piece]
    } else if options.continues_on_new_line() {
        seq![piece.take(max)] + cut(piece.skip(max), options)
    } else {
        seq![piece.take(max)]
    }
}

/// The lines that all pieces give, in order.
pub open spec fn cut_all(pieces: Seq<Seq<u8>>, options: LineParsingOptions) -> Seq<Seq<u8>>
    decreases pieces.len(),
{
    if pieces.len() == 0 {
        Seq::empty()
    } else {
        cut_all(pieces.drop_last(), options) + cut(pieces.last(), options)
    }
}

/// Splitting loses nothing: the pieces with their newlines, and the bytes after the last one, are
/// the stream. No piece holds a newline.
pub proof fn split_keeps_the_stream(stream: Seq<u8>)
    ensures
        ({
            let (pieces, tail) = split(stream);
            &&& laws::terminated(pieces) + tail == stream
            &&& forall|i: int| 0 <= i < pieces.len() ==> laws::is_one_line(#[trigger] pieces[i])
            &&& laws::is_one_line(tail)
        }),
    decreases stream.len(),
{
    if stream.len() > 0 {
        split_keeps_the_stream(stream.drop_last());
        let (pieces, tail) = split(stream.drop_last());
        assert(stream == stream.drop_last().push(stream.last()));
        if stream.last() == NEWLINE {
            terminated_push(pieces, tail);
            assert(laws::terminated(pieces.push(tail)) + Seq::<u8>::empty() == stream);
            assert forall|i: int| 0 <= i < pieces.push(tail).len() implies laws::is_one_line(
                #[trigger] pieces.push(tail)[i],
            ) by {
                if i < pieces.len() {
                    assert(pieces.push(tail)[i] == pieces[i]);
                }
            }
        } else {
            assert(laws::terminated(pieces) + tail.push(stream.last()) == stream);
        }
    } else {
        assert(laws::terminated(Seq::empty()) + Seq::<u8>::empty() == stream);
    }
}

/// Splitting finds exactly the lines that were written, and the bytes after the last newline.
pub proof fn split_finds_what_was_written(lines: Seq<Seq<u8>>, tail: Seq<u8>)
    requires
        forall|i: int| 0 <= i < lines.len() ==> laws::is_one_line(#[trigger] lines[i]),
        laws::is_one_line(tail),
    ensures
        split(laws::terminated(lines) + tail) == (lines, tail),
    decreases lines.len(), tail.len(),
{
    let stream = laws::terminated(lines) + tail;
    if tail.len() > 0 {
        let shorter = tail.drop_last();
        assert(forall|i: int| 0 <= i < shorter.len() ==> shorter[i] == tail[i]);
        split_finds_what_was_written(lines, shorter);
        assert(stream.drop_last() == laws::terminated(lines) + shorter);
        assert(stream.last() == tail.last());
        assert(shorter.push(tail.last()) == tail);
    } else if lines.len() > 0 {
        let before = lines.drop_last();
        let last = lines.last();
        assert(forall|i: int| 0 <= i < before.len() ==> before[i] == lines[i]);
        assert(laws::is_one_line(lines[lines.len() - 1]));
        split_finds_what_was_written(before, last);
        terminated_push(before, last);
        assert(before.push(last) == lines);
        assert(stream.drop_last() == laws::terminated(before) + last);
        assert(stream.last() == NEWLINE);
        assert(tail == Seq::<u8>::empty());
    } else {
        assert(stream == Seq::<u8>::empty());
        assert(lines == Seq::<Seq<u8>>::empty());
        assert(tail == Seq::<u8>::empty());
    }
}

proof fn terminated_push(lines: Seq<Seq<u8>>, line: Seq<u8>)
    ensures
        laws::terminated(lines.push(line)) == laws::terminated(lines) + line.push(NEWLINE),
    decreases lines.len(),
{
    if lines.len() == 0 {
        assert(lines.push(line).skip(1) == Seq::<Seq<u8>>::empty());
        assert(laws::terminated(lines.push(line).skip(1)) == Seq::<u8>::empty());
    } else {
        terminated_push(lines.skip(1), line);
        assert(lines.push(line).skip(1) == lines.skip(1).push(line));
    }
}

/// Without a newline in it, a line longer than the limit is cut there, and the rest is dropped.
proof fn feed_dropping(piece: Seq<u8>, options: LineParsingOptions)
    requires
        laws::is_one_line(piece),
        !options.allows(piece.len()),
        !options.continues_on_new_line(),
    ensures
        parser::feed(ParserState::initial(), piece, options) == (
            seq![piece.take(options.max_line_length@ as int)],
            ParserState::discarding(),
        ),
{
    let max = options.max_line_length@ as int;
    let kept = piece.take(max);
    let dropped = piece.skip(max);
    let rest = dropped.skip(1);
    laws::feed_within_limit(Seq::empty(), kept, options);
    assert(Seq::<u8>::empty() + kept == kept);
    assert(dropped[0] == piece[max]);
    assert(forall|i: int| 0 <= i < rest.len() ==> rest[i] == piece[max + 1 + i]);
    laws::gap_discards_until_newline(rest, options);
    assert(parser::feed(ParserState::reading(kept), dropped, options).0 == seq![kept]);
    laws::feed_concat(ParserState::initial(), kept, dropped, options);
    assert(piece == kept + dropped);
}

/// The first bytes of a longer line come out as a line of their own, and the rest is read as if it
/// started a line.
proof fn feed_continuing(piece: Seq<u8>, rest: Seq<u8>, options: LineParsingOptions)
    requires
        laws::is_one_line(piece),
        options.is_full(piece.len()),
        options.continues_on_new_line(),
        rest.len() > 0,
        rest[0] != NEWLINE,
    ensures
        ({
            let (lines, end) = parser::feed(ParserState::initial(), rest, options);
            parser::feed(ParserState::initial(), piece + rest, options) == (
                seq![piece] + lines,
                end,
            )
        }),
{
    laws::feed_within_limit(Seq::empty(), piece, options);
    assert(Seq::<u8>::empty() + piece == piece);
    laws::feed_concat(ParserState::initial(), piece, rest, options);
    let pending = ParserState {
        mode: LineParserMode::PendingLimitDelimiter,
        partial: Seq::empty(),
    };
    assert(parser::absorb(pending, rest[0], options) == parser::absorb(
        ParserState::initial(),
        rest[0],
        options,
    ));
}

/// A piece followed by a newline gives the lines that it is cut into.
pub proof fn feed_terminated_piece(piece: Seq<u8>, options: LineParsingOptions)
    requires
        laws::is_one_line(piece),
    ensures
        parser::feed(ParserState::initial(), piece.push(NEWLINE), options) == (
            cut(piece, options),
            ParserState::initial(),
        ),
    decreases piece.len(),
{
    let max = options.max_line_length@ as int;
    if options.allows(piece.len()) {
        laws::feed_terminated_line(piece, options);
    } else if options.continues_on_new_line() {
        let kept = piece.take(max);
        let rest = piece.skip(max);
        assert(forall|i: int| 0 <= i < rest.len() ==> rest[i] == piece[max + i]);
        feed_terminated_piece(rest, options);
        feed_continuing(kept, rest.push(NEWLINE), options);
        assert(kept + rest.push(NEWLINE) == piece.push(NEWLINE));
    } else {
        laws::drop_additional_truncates(piece, options);
    }
}

/// A piece at the end of the stream gives the lines that it is cut into, the one in progress among
/// them.
pub proof fn feed_unterminated_piece(piece: Seq<u8>, options: LineParsingOptions)
    requires
        laws::is_one_line(piece),
        piece.len() > 0,
    ensures
        ({
            let (lines, end) = parser::feed(ParserState::initial(), piece, options);
            lines + parser::option_to_seq(parser::trailing_line(end)) == cut(piece, options)
        }),
    decreases piece.len(),
{
    let max = options.max_line_length@ as int;
    let (lines, end) = parser::feed(ParserState::initial(), piece, options);
    if options.allows(piece.len()) {
        laws::feed_within_limit(Seq::empty(), piece, options);
        assert(Seq::<u8>::empty() + piece == piece);
        assert(lines + parser::option_to_seq(parser::trailing_line(end)) == seq![piece]);
    } else if options.continues_on_new_line() {
        let kept = piece.take(max);
        let rest = piece.skip(max);
        assert(forall|i: int| 0 <= i < rest.len() ==> rest[i] == piece[max + i]);
        feed_unterminated_piece(rest, options);
        feed_continuing(kept, rest, options);
        assert(kept + rest == piece);
        let more = parser::feed(ParserState::initial(), rest, options).0;
        let trailing = parser::option_to_seq(parser::trailing_line(end));
        assert(lines + trailing == seq![kept] + (more + trailing));
    } else {
        feed_dropping(piece, options);
        assert(lines + parser::option_to_seq(parser::trailing_line(end)) == cut(piece, options));
    }
}

/// Feeding a stream gives the lines of its terminated pieces, and then what the bytes after the last
/// newline give.
proof fn feed_splits(stream: Seq<u8>, options: LineParsingOptions)
    ensures
        ({
            let (pieces, tail) = split(stream);
            let (lines, end) = parser::feed(ParserState::initial(), tail, options);
            parser::feed(ParserState::initial(), stream, options) == (
                cut_all(pieces, options) + lines,
                end,
            )
        }),
    decreases stream.len(),
{
    let start = ParserState::initial();
    if stream.len() == 0 {
        assert(Seq::<Seq<u8>>::empty() + Seq::<Seq<u8>>::empty() == Seq::<Seq<u8>>::empty());
    } else {
        let before = stream.drop_last();
        let last = seq![stream.last()];
        let (pieces, tail) = split(before);
        split_keeps_the_stream(before);
        feed_splits(before, options);
        let (lines, middle) = parser::feed(start, tail, options);
        let (more, end) = parser::feed(middle, last, options);
        laws::feed_concat(start, before, last, options);
        laws::feed_concat(start, tail, last, options);
        assert(before + last == stream);
        assert(tail + last == tail.push(stream.last()));
        assert((cut_all(pieces, options) + lines) + more == cut_all(pieces, options) + (lines
            + more));
        if stream.last() == NEWLINE {
            feed_terminated_piece(tail, options);
            assert(pieces.push(tail).drop_last() == pieces);
            assert(cut_all(pieces.push(tail), options) + Seq::<Seq<u8>>::empty() == cut_all(
                pieces,
                options,
            ) + cut(tail, options));
        }
    }
}

/// The lines of a finished stream are its pieces, cut at the limit, whatever the chunks it arrives
/// in.
pub proof fn lines_are_the_cut_pieces(chunks: Seq<Seq<u8>>, options: LineParsingOptions)
    ensures
        laws::parse_chunks(chunks, options) == cut_all(pieces_of(laws::joined(chunks)), options),
{
    let stream = laws::joined(chunks);
    let (pieces, tail) = split(stream);
    laws::feed_chunks_is_feed(ParserState::initial(), chunks, options);
    feed_splits(stream, options);
    split_keeps_the_stream(stream);
    let (lines, end) = parser::feed(ParserState::initial(), tail, options);
    let trailing = parser::option_to_seq(parser::trailing_line(end));
    assert((cut_all(pieces, options) + lines) + trailing == cut_all(pieces, options) + (lines
        + trailing));
    if tail.len() == 0 {
        assert(cut_all(pieces, options) + (lines + trailing) == cut_all(pieces, options));
    } else {
        feed_unterminated_piece(tail, options);
        assert(pieces.push(tail).drop_last() == pieces);
    }
}

proof fn cut_all_within_limit(pieces: Seq<Seq<u8>>, options: LineParsingOptions)
    requires
        forall|i: int| 0 <= i < pieces.len() ==> options.allows((#[trigger] pieces[i]).len()),
    ensures
        cut_all(pieces, options) == pieces,
    decreases pieces.len(),
{
    if pieces.len() > 0 {
        let before = pieces.drop_last();
        assert(forall|i: int| 0 <= i < before.len() ==> before[i] == pieces[i]);
        cut_all_within_limit(before, options);
        assert(options.allows(pieces[pieces.len() - 1].len()));
        assert(before + seq![pieces.last()] == pieces);
    }
}

/// Where no piece is longer than the limit, or there is no limit, the lines are exactly the pieces
/// between the newlines. Only an empty piece at the very end is left out.
pub proof fn pieces_within_limit_are_the_lines(chunks: Seq<Seq<u8>>, options: LineParsingOptions)
    requires
        ({
            let pieces = pieces_of(laws::joined(chunks));
            forall|i: int| 0 <= i < pieces.len() ==> options.allows((#[trigger] pieces[i]).len())
        }),
    ensures
        laws::parse_chunks(chunks, options) == pieces_of(laws::joined(chunks)),
{
    lines_are_the_cut_pieces(chunks, options);
    cut_all_within_limit(pieces_of(laws::joined(chunks)), options);
}

/// What is written is read back: lines within the limit, each followed by a newline, and a last one
/// that no newline follows, whatever the chunks that they arrive in.
pub proof fn unterminated_last_line_is_read_back(
    lines: Seq<Seq<u8>>,
    tail: Seq<u8>,
    chunks: Seq<Seq<u8>>,
    options: LineParsingOptions,
)
    requires
        forall|i: int|
            0 <= i < lines.len() ==> laws::is_one_line(#[trigger] lines[i]) && options.allows(
                lines[i].len(),
            ),
        laws::is_one_line(tail),
        options.allows(tail.len()),
        tail.len() > 0,
        laws::joined(chunks) == laws::terminated(lines) + tail,
    ensures
        laws::parse_chunks(chunks, options) == lines.push(tail),
{
    split_finds_what_was_written(lines, tail);
    let pieces = pieces_of(laws::joined(chunks));
    assert(pieces == lines.push(tail));
    assert forall|i: int| 0 <= i < pieces.len() implies options.allows(
        (#[trigger] pieces[i]).len(),
    ) by {
        if i < lines.len() {
            assert(pieces[i] == lines[i]);
        }
    }
    pieces_within_limit_are_the_lines(chunks, options);
}

/// The bytes of a piece that fit in one line.
pub open spec fn truncated(piece: Seq<u8>, options: LineParsingOptions) -> Seq<u8> {
    if options.allows(piece.len()) {
        piece
    } else {
        piece.take(options.max_line_length@ as int)
    }
}

/// Where additional data is dropped, each piece of the stream gives one line: its first bytes, as
/// many as the limit allows. That holds of bytes at the end that no newline follows, too.
pub proof fn drop_additional_truncates_each_piece(
    chunks: Seq<Seq<u8>>,
    options: LineParsingOptions,
)
    requires
        !options.continues_on_new_line(),
    ensures
        laws::parse_chunks(chunks, options) == pieces_of(laws::joined(chunks)).map_values(
            |piece: Seq<u8>| truncated(piece, options),
        ),
{
    lines_are_the_cut_pieces(chunks, options);
    cut_all_truncates(pieces_of(laws::joined(chunks)), options);
}

proof fn cut_all_truncates(pieces: Seq<Seq<u8>>, options: LineParsingOptions)
    requires
        !options.continues_on_new_line(),
    ensures
        cut_all(pieces, options) == pieces.map_values(
            |piece: Seq<u8>| truncated(piece, options),
        ),
    decreases pieces.len(),
{
    let each = |piece: Seq<u8>| truncated(piece, options);
    if pieces.len() > 0 {
        cut_all_truncates(pieces.drop_last(), options);
        assert(pieces.drop_last().map_values(each) + seq![truncated(pieces.last(), options)]
            == pieces.map_values(each));
    } else {
        assert(pieces.map_values(each) == Seq::<Seq<u8>>::empty());
    }
}

/// Where additional data continues on new lines, a piece of `n` bytes gives `n / max` lines, rounded
/// up, and an empty piece gives one empty line. The lines hold the bytes of the piece in order, and
/// only the last one can be shorter than the limit.
pub proof fn emit_additional_fills_lines(piece: Seq<u8>, options: LineParsingOptions)
    requires
        options.is_limited(),
        options.continues_on_new_line(),
    ensures
        ({
            let max = options.max_line_length@ as int;
            let lines = cut(piece, options);
            &&& piece.len() > 0 ==> lines.len() == (piece.len() + max - 1) / max
            &&& piece.len() == 0 ==> lines == seq![Seq::<u8>::empty()]
            &&& laws::joined(lines) == piece
            &&& forall|i: int| 0 <= i < lines.len() - 1 ==> (#[trigger] lines[i]).len() == max
            &&& lines.last().len() <= max
        }),
    decreases piece.len(),
{
    let max = options.max_line_length@ as int;
    let lines = cut(piece, options);
    if options.allows(piece.len()) {
        assert(lines.skip(1) == Seq::<Seq<u8>>::empty());
        assert(laws::joined(lines.skip(1)) == Seq::<u8>::empty());
        assert(laws::joined(lines) == piece);
        if piece.len() > 0 {
            lemma_basic_div(piece.len() - 1, max);
            lemma_div_plus_one(piece.len() - 1, max);
        }
    } else {
        let more = cut(piece.skip(max), options);
        emit_additional_fills_lines(piece.skip(max), options);
        lemma_div_plus_one(piece.len() - 1, max);
        assert(lines.skip(1) == more);
        assert(laws::joined(lines) == piece.take(max) + piece.skip(max));
        assert(piece.take(max) + piece.skip(max) == piece);
        assert(more.len() > 0);
        assert forall|i: int| 0 <= i < lines.len() - 1 implies (#[trigger] lines[i]).len()
            == max by {
            if i > 0 {
                assert(lines[i] == more[i - 1]);
            }
        }
        assert(lines.last() == more.last());
    }
}

/// Where lines continue beyond the limit, or have none, the lines of a finished stream hold all its
/// bytes but the newlines, in order.
pub proof fn emit_additional_preserves_the_stream(
    chunks: Seq<Seq<u8>>,
    options: LineParsingOptions,
)
    requires
        options.continues_on_new_line() || !options.is_limited(),
    ensures
        laws::joined(laws::parse_chunks(chunks, options)) == laws::without_newlines(
            laws::joined(chunks),
        ),
{
    let start = ParserState::initial();
    let stream = laws::joined(chunks);
    laws::feed_chunks_is_feed(start, chunks, options);
    laws::emit_additional_preserves_all_bytes(start, stream, options);
    let (lines, end) = parser::feed(start, stream, options);
    let trailing = parser::option_to_seq(parser::trailing_line(end));
    laws::joined_concat(lines, trailing);
    assert(laws::joined(trailing) == end.partial) by {
        reveal_with_fuel(laws::joined, 2);
        if trailing.len() > 0 {
            assert(trailing.skip(1) == Seq::<Seq<u8>>::empty());
        }
    }
    assert(start.partial + laws::without_newlines(stream) == laws::without_newlines(stream));
}

/// The same of text: where each line is valid UTF-8, the texts of the lines together are the text of
/// the stream without its newlines. A limit that falls into the middle of a character makes a line
/// that is not valid.
pub proof fn emit_additional_preserves_the_text(chunks: Seq<Seq<u8>>, options: LineParsingOptions)
    requires
        options.continues_on_new_line() || !options.is_limited(),
        ({
            let lines = laws::parse_chunks(chunks, options);
            forall|i: int| 0 <= i < lines.len() ==> valid_utf8(#[trigger] lines[i])
        }),
    ensures
        ({
            let kept = laws::without_newlines(laws::joined(chunks));
            &&& valid_utf8(kept)
            &&& text::decoded(laws::parse_chunks(chunks, options)).flatten() == text::text_of(kept)
        }),
{
    emit_additional_preserves_the_stream(chunks, options);
    decoded_flatten(laws::parse_chunks(chunks, options));
}

/// Texts one after the other are the text of the bytes one after the other.
pub proof fn decoded_flatten(lines: Seq<Seq<u8>>)
    requires
        forall|i: int| 0 <= i < lines.len() ==> valid_utf8(#[trigger] lines[i]),
    ensures
        valid_utf8(laws::joined(lines)),
        text::decoded(lines).flatten() == text::text_of(laws::joined(lines)),
    decreases lines.len(),
{
    if lines.len() == 0 {
        assert(text::decoded(lines) == Seq::<Seq<char>>::empty());
        assert(decode_utf8(Seq::<u8>::empty()) == Seq::<char>::empty());
    } else {
        let rest = lines.skip(1);
        assert(valid_utf8(lines[0]));
        assert(forall|i: int| 0 <= i < rest.len() ==> rest[i] == lines[i + 1]);
        decoded_flatten(rest);
        assert(text::decoded(lines).drop_first() == text::decoded(rest));
        valid_utf8_concat(lines[0], laws::joined(rest));
        decode_concat(lines[0], laws::joined(rest));
    }
}

/// Decoding two valid byte strings one after the other is decoding them together.
pub proof fn decode_concat(first: Seq<u8>, second: Seq<u8>)
    requires
        valid_utf8(first),
        valid_utf8(second),
    ensures
        decode_utf8(first + second) == decode_utf8(first) + decode_utf8(second),
{
    let chars = decode_utf8(first);
    let more = decode_utf8(second);
    decode_utf8_encode_utf8(first);
    decode_utf8_encode_utf8(second);
    encode_concat(chars, more);
    encode_utf8_decode_utf8(chars + more);
}

/// Encoding two texts one after the other is encoding them together.
pub proof fn encode_concat(first: Seq<char>, second: Seq<char>)
    ensures
        encode_utf8(first + second) == encode_utf8(first) + encode_utf8(second),
    decreases first.len(),
{
    if first.len() == 0 {
        assert(first + second == second);
    } else {
        encode_concat(first.drop_first(), second);
        assert((first + second).drop_first() == first.drop_first() + second);
    }
}

proof fn parse_single(stream: Seq<u8>, options: LineParsingOptions)
    ensures
        ({
            let (lines, end) = parser::feed(ParserState::initial(), stream, options);
            laws::parse_chunks(seq![stream], options) == lines + parser::option_to_seq(
                parser::trailing_line(end),
            )
        }),
        laws::joined(seq![stream]) == stream,
{
    assert(seq![stream].skip(1) =~= Seq::<Seq<u8>>::empty());
    assert(laws::joined(seq![stream].skip(1)) =~= Seq::<u8>::empty());
    assert(laws::joined(seq![stream]) =~= stream);
    laws::feed_chunks_is_feed(ParserState::initial(), seq![stream], options);
}

/// A stream is parsed line by line: what stands before a newline and what stands behind it have
/// nothing to do with each other.
pub proof fn newline_parts_the_stream(
    first: Seq<u8>,
    second: Seq<u8>,
    options: LineParsingOptions,
)
    ensures
        laws::parse_chunks(seq![first.push(10u8) + second], options) == laws::parse_chunks(
            seq![first.push(10u8)],
            options,
        ) + laws::parse_chunks(seq![second], options),
{
    let start = ParserState::initial();
    let head = first.push(10u8);
    let newline = seq![10u8];
    assert(head =~= first + newline);
    laws::feed_concat(start, first, newline, options);
    laws::feed_keeps_limit(start, first, options);
    let middle = parser::feed(start, first, options).1;
    laws::newline_resynchronizes(middle, options);
    assert(newline.skip(1) =~= Seq::<u8>::empty());
    assert(parser::feed(start, newline.skip(1), options).1 == start);
    assert(parser::feed(start, head, options).1 == start);
    laws::feed_concat(start, head, second, options);
    parse_single(head, options);
    parse_single(second, options);
    parse_single(head + second, options);
    let lines = parser::feed(start, head, options).0;
    let (more, end) = parser::feed(start, second, options);
    let trailing = parser::option_to_seq(parser::trailing_line(end));
    assert((lines + more) + trailing =~= (lines + Seq::<Seq<u8>>::empty()) + (more + trailing));
}

/// What bytes without a newline are parsed to, with a newline behind them or at the end of the
/// stream. Without a limit, or within it, they are one line. If they go beyond it, the first bytes are
/// one line, and the rest is dropped or parsed like any other bytes. At the end of the stream there
/// is no empty line.
pub proof fn limit_parts_the_line(piece: Seq<u8>, options: LineParsingOptions)
    requires
        forall|i: int| 0 <= i < piece.len() ==> piece[i] != 10u8,
    ensures
        ({
            let max = options.max_line_length@ as int;
            let terminated = laws::parse_chunks(seq![piece.push(10u8)], options);
            let unterminated = laws::parse_chunks(seq![piece], options);
            &&& piece.len() > 0 ==> unterminated == terminated
            &&& piece.len() == 0 ==> unterminated == Seq::<Seq<u8>>::empty()
            &&& terminated == if max == 0 || piece.len() <= max {
                seq![piece]
            } else if options.overflow_behavior == LineOverflowBehavior::DropAdditionalData {
                seq![piece.subrange(0, max)]
            } else {
                seq![piece.subrange(0, max)] + laws::parse_chunks(
                    seq![piece.subrange(max, piece.len() as int)],
                    options,
                )
            }
        }),
    decreases piece.len(),
{
    let max = options.max_line_length@ as int;
    assert(laws::is_one_line(piece));
    parse_single(piece, options);
    parse_single(piece.push(10u8), options);
    feed_terminated_piece(piece, options);
    let terminated = laws::parse_chunks(seq![piece.push(10u8)], options);
    assert(terminated =~= cut(piece, options));
    if piece.len() > 0 {
        feed_unterminated_piece(piece, options);
    } else {
        assert(laws::parse_chunks(seq![piece], options) =~= Seq::<Seq<u8>>::empty());
    }
    if max != 0 && piece.len() > max {
        assert(piece.take(max) =~= piece.subrange(0, max));
        if options.overflow_behavior != LineOverflowBehavior::DropAdditionalData {
            let rest = piece.skip(max);
            assert(rest =~= piece.subrange(max, piece.len() as int));
            assert(forall|i: int| 0 <= i < rest.len() ==> rest[i] == piece[max + i]);
            parse_single(rest, options);
            feed_unterminated_piece(rest, options);
        }
    }
}

/// No line is longer than the configured length, whatever happens to the rest.
pub proof fn no_line_is_longer_than_configured(chunks: Seq<Seq<u8>>, options: LineParsingOptions)
    requires
        options.max_line_length@ > 0,
    ensures
        ({
            let lines = laws::parse_chunks(chunks, options);
            forall|i: int|
                0 <= i < lines.len() ==> (#[trigger] lines[i]).len() <= options.max_line_length@
        }),
{
    let start = ParserState::initial();
    let stream = laws::joined(chunks);
    laws::feed_chunks_is_feed(start, chunks, options);
    laws::emitted_lines_stay_within_limit(start, stream, options);
    let (fed, end) = parser::feed(start, stream, options);
    let lines = laws::parse_chunks(chunks, options);
    assert forall|i: int| 0 <= i < lines.len() implies (#[trigger] lines[i]).len()
        <= options.max_line_length@ by {
        if i < fed.len() {
            assert(lines[i] == fed[i]);
        }
    }
}

} // verus!
