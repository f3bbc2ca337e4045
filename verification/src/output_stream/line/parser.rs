//! Stateful line parser that splits arbitrary byte chunks into lines.
//!
//! The parser exposes one primitive, [`LineParser::next_line`]. A single state machine handles the
//! chunk-spanning, max-line-length, and gap cases.
//!
//! What the parser computes is stated byte by byte: [`step`] says what one byte does to the state,
//! [`next`] runs until a line comes out, and [`feed`] gives all lines of a byte string.

use crate::buffers::{self, MAX_BUFFERED_BYTES};
use crate::output_stream::line::options::{LineOverflowBehavior, LineParsingOptions};
use crate::output_stream::line::laws;
use crate::output_stream::line::text::{self, decode_line_lossy, into_owned};
use crate::output_stream::num_bytes::NumBytes;
use bytes::BytesMut;
use memchr::memchr;
use std::borrow::Cow;
use vstd::prelude::*;
use vstd::slice::slice_subrange;
use vstd::utf8::*;

verus! {

/// The byte that ends a line.
pub const NEWLINE: u8 = 10;

/// How the parser treats the next byte.
#[derive(Debug, Clone, Copy, PartialEq, Eq, Structural)]
pub enum LineParserMode {
    /// The byte belongs to the line in progress, or ends it.
    ReadingLine,
    /// The byte is dropped, up to and with the next newline.
    DiscardUntilNewline,
    /// A line was just emitted because it reached the limit. A newline that follows immediately is
    /// the end of that line and starts no further one.
    PendingLimitDelimiter,
}

/// What a parser remembers between bytes.
#[verifier::ext_equal]
pub struct ParserState {
    /// How the next byte is treated.
    pub mode: LineParserMode,
    /// The bytes of the line in progress.
    pub partial: Seq<u8>,
}

impl ParserState {
    /// The state at the start of a line.
    pub open spec fn initial() -> ParserState {
        ParserState { mode: LineParserMode::ReadingLine, partial: Seq::empty() }
    }

    /// The state that skips everything up to the next newline.
    pub open spec fn discarding() -> ParserState {
        ParserState { mode: LineParserMode::DiscardUntilNewline, partial: Seq::empty() }
    }

    /// A state that reads a line of which `partial` was seen.
    pub open spec fn reading(partial: Seq<u8>) -> ParserState {
        ParserState { mode: LineParserMode::ReadingLine, partial }
    }

    /// Bytes are only kept while a line is being read.
    pub open spec fn wf(self) -> bool {
        self.mode != LineParserMode::ReadingLine ==> self.partial.len() == 0
    }

    /// The line in progress is within the limit of `options`.
    pub open spec fn within(self, options: LineParsingOptions) -> bool {
        options.allows(self.partial.len())
    }
}

/// What one byte does.
pub struct Step {
    /// Whether the byte was used up. If not, it is still to be handled in the new state.
    pub consumed: bool,
    /// The bytes of the line that is complete now, if any.
    pub line: Option<Seq<u8>>,
    /// The state afterwards.
    pub state: ParserState,
}

/// The mode after a line was cut off at the limit.
pub open spec fn mode_after_limit(options: LineParsingOptions) -> LineParserMode {
    if options.continues_on_new_line() {
        LineParserMode::PendingLimitDelimiter
    } else {
        LineParserMode::DiscardUntilNewline
    }
}

/// What `byte` does to a line of which `partial` was seen.
pub open spec fn read_step(partial: Seq<u8>, byte: u8, options: LineParsingOptions) -> Step {
    if options.is_full(partial.len()) {
        Step {
            consumed: false,
            line: Some(partial),
            state: ParserState { mode: mode_after_limit(options), partial: Seq::empty() },
        }
    } else if byte == NEWLINE {
        Step { consumed: true, line: Some(partial), state: ParserState::initial() }
    } else if options.is_full(partial.len() + 1) && options.continues_on_new_line() {
        Step {
            consumed: true,
            line: Some(partial.push(byte)),
            state: ParserState {
                mode: LineParserMode::PendingLimitDelimiter,
                partial: Seq::empty(),
            },
        }
    } else {
        Step { consumed: true, line: None, state: ParserState::reading(partial.push(byte)) }
    }
}

/// What `byte` does in `state`.
pub open spec fn step(state: ParserState, byte: u8, options: LineParsingOptions) -> Step {
    match state.mode {
        LineParserMode::DiscardUntilNewline => Step {
            consumed: true,
            line: None,
            state: if byte == NEWLINE {
                ParserState { mode: LineParserMode::ReadingLine, ..state }
            } else {
                state
            },
        },
        LineParserMode::PendingLimitDelimiter => if byte == NEWLINE {
            Step {
                consumed: true,
                line: None,
                state: ParserState { mode: LineParserMode::ReadingLine, ..state },
            }
        } else {
            read_step(state.partial, byte, options)
        },
        LineParserMode::ReadingLine => read_step(state.partial, byte, options),
    }
}

/// Handles the bytes of `input` until a line is complete or no byte is left: the bytes of the line,
/// the state afterwards, and what is left of `input`.
pub open spec fn next(state: ParserState, input: Seq<u8>, options: LineParsingOptions) -> (
    Option<Seq<u8>>,
    ParserState,
    Seq<u8>,
)
    decreases input.len(),
{
    if input.len() == 0 {
        (None, state, input)
    } else {
        let first = step(state, input[0], options);
        if first.line is Some {
            (first.line, first.state, if first.consumed { input.skip(1) } else { input })
        } else {
            next(first.state, input.skip(1), options)
        }
    }
}

/// The lines that `byte` completes in `state`, and the state once the byte is used up.
pub open spec fn absorb(state: ParserState, byte: u8, options: LineParsingOptions) -> (
    Seq<Seq<u8>>,
    ParserState,
) {
    let first = step(state, byte, options);
    if first.consumed {
        (option_to_seq(first.line), first.state)
    } else {
        let second = step(first.state, byte, options);
        (option_to_seq(first.line) + option_to_seq(second.line), second.state)
    }
}

/// The lines that `input` completes, and the state once it is used up.
pub open spec fn feed(state: ParserState, input: Seq<u8>, options: LineParsingOptions) -> (
    Seq<Seq<u8>>,
    ParserState,
)
    decreases input.len(),
{
    if input.len() == 0 {
        (Seq::empty(), state)
    } else {
        let (lines, after) = absorb(state, input[0], options);
        let (more, end) = feed(after, input.skip(1), options);
        (lines + more, end)
    }
}

/// The line that is still in progress when the stream ends.
pub open spec fn trailing_line(state: ParserState) -> Option<Seq<u8>> {
    if state.mode == LineParserMode::DiscardUntilNewline || state.partial.len() == 0 {
        None
    } else {
        Some(state.partial)
    }
}

/// The empty sequence for `None`, and the sequence of one item for `Some`.
pub open spec fn option_to_seq<T>(item: Option<T>) -> Seq<T> {
    match item {
        Some(value) => seq![value],
        None => Seq::empty(),
    }
}

/// The state and the bytes that are left once `n` lines were asked for.
pub open spec fn advance(
    state: ParserState,
    input: Seq<u8>,
    options: LineParsingOptions,
    n: nat,
) -> (ParserState, Seq<u8>)
    decreases n,
{
    if n == 0 {
        (state, input)
    } else {
        let (before, left) = advance(state, input, options, (n - 1) as nat);
        let (_, after, rest) = next(before, left, options);
        (after, rest)
    }
}

/// Whether the line in progress can be buffered while `len` more bytes are parsed: either the line
/// limit takes care of that, or the bytes fit as they are.
pub open spec fn has_room(state: ParserState, len: nat, options: LineParsingOptions) -> bool {
    ||| options.is_limited() && options.max_line_length@ <= MAX_BUFFERED_BYTES
    ||| state.partial.len() + len <= MAX_BUFFERED_BYTES
}

/// Reading `n` bytes that neither end the line nor reach the limit appends them to the line.
proof fn lemma_next_run(partial: Seq<u8>, input: Seq<u8>, n: int, options: LineParsingOptions)
    requires
        0 <= n <= input.len(),
        forall|i: int| 0 <= i < n ==> input[i] != NEWLINE,
        options.allows(partial.len() + n as nat),
        options.is_full(partial.len() + n as nat) ==> !options.continues_on_new_line(),
    ensures
        next(ParserState::reading(partial), input, options) == next(
            ParserState::reading(partial + input.take(n)),
            input.skip(n),
            options,
        ),
    decreases n,
{
    if n == 0 {
        assert(partial + input.take(0) == partial);
        assert(input.skip(0) == input);
    } else {
        let rest = input.skip(1);
        assert(forall|i: int| 0 <= i < n - 1 ==> rest[i] == input[i + 1]);
        lemma_next_run(partial.push(input[0]), rest, n - 1, options);
        assert(partial.push(input[0]) + rest.take(n - 1) == partial + input.take(n));
        assert(rest.skip(n - 1) == input.skip(n));
    }
}

/// Discarding `n` bytes that hold no newline changes nothing.
proof fn lemma_next_discard(input: Seq<u8>, n: int, options: LineParsingOptions)
    requires
        0 <= n <= input.len(),
        forall|i: int| 0 <= i < n ==> input[i] != NEWLINE,
    ensures
        next(ParserState::discarding(), input, options) == next(
            ParserState::discarding(),
            input.skip(n),
            options,
        ),
    decreases n,
{
    if n == 0 {
        assert(input.skip(0) == input);
    } else {
        let rest = input.skip(1);
        assert(forall|i: int| 0 <= i < n - 1 ==> rest[i] == input[i + 1]);
        lemma_next_discard(rest, n - 1, options);
        assert(rest.skip(n - 1) == input.skip(n));
    }
}

/// Reading `n` bytes that do not end the line either leaves the line in progress, or completes it
/// at the limit.
proof fn lemma_next_scan(partial: Seq<u8>, input: Seq<u8>, n: int, options: LineParsingOptions)
    requires
        0 < n <= input.len(),
        forall|i: int| 0 <= i < n ==> input[i] != NEWLINE,
        options.allows(partial.len() + n as nat),
    ensures
        next(ParserState::reading(partial), input, options) == if options.is_full(
            partial.len() + n as nat,
        ) && options.continues_on_new_line() {
            (
                Some(partial + input.take(n)),
                ParserState {
                    mode: LineParserMode::PendingLimitDelimiter,
                    partial: Seq::empty(),
                },
                input.skip(n),
            )
        } else {
            next(ParserState::reading(partial + input.take(n)), input.skip(n), options)
        },
{
    if options.is_full(partial.len() + n as nat) && options.continues_on_new_line() {
        lemma_next_run(partial, input, n - 1, options);
        assert(input.skip(n - 1).skip(1) == input.skip(n));
        assert((partial + input.take(n - 1)).push(input[n - 1]) == partial + input.take(n));
    } else {
        lemma_next_run(partial, input, n, options);
    }
}

/// Stateful parser for turning arbitrary byte chunks into lines.
///
/// Drive it by calling [`Self::next_line`] in a loop with a slice cursor that you advance
/// across calls; on EOF call [`Self::finish`] once to flush any unterminated trailing line.
/// On a stream gap (chunks dropped between deliveries) call [`Self::on_gap`] to discard the
/// in-progress partial line and resynchronize at the next newline.
pub struct LineParser {
    /// Bytes accumulated for the current in-progress line. Cleared when the line is emitted.
    line_buffer: BytesMut,
    /// Holds the most-recently emitted line so its bytes outlive the call that produced them.
    emitted: BytesMut,
    mode: LineParserMode,
}

impl View for LineParser {
    type V = ParserState;

    closed spec fn view(&self) -> ParserState {
        ParserState { mode: self.mode, partial: buffers::buffered(self.line_buffer) }
    }
}

/// Whether `after` is what is left of the buffer `before`: a new buffer if the capacity of `before`
/// is found above the threshold, and the buffer itself otherwise.
spec fn is_compacted(before: BytesMut, threshold: nat, after: BytesMut) -> bool {
    exists|capacity: usize|
        {
            &&& #[trigger] call_ensures(BytesMut::capacity, (&before,), capacity)
            &&& if capacity > threshold {
                call_ensures(BytesMut::new, (), after)
            } else {
                after == before
            }
        }
}

impl LineParser {
    /// Whether `after` is this parser with its over-sized allocations dropped. A buffer that holds
    /// bytes of the line in progress is never dropped.
    spec fn compacts_to(self, threshold: Option<NumBytes>, after: LineParser) -> bool {
        match threshold {
            None => after == self,
            Some(threshold) => {
                &&& after.mode == self.mode
                &&& if self@.partial.len() == 0 {
                    is_compacted(self.line_buffer, threshold@, after.line_buffer)
                } else {
                    after.line_buffer == self.line_buffer
                }
                &&& is_compacted(self.emitted, threshold@, after.emitted)
            },
        }
    }

    /// Whether `after` is what asking for a line leaves of the buffers: over-sized allocations are
    /// dropped first. Then a line that went through the buffer takes the place of the one emitted
    /// before, and otherwise only the line in progress may have grown.
    pub closed spec fn reuses_buffers(
        self,
        threshold: Option<NumBytes>,
        line: Option<Seq<u8>>,
        after: LineParser,
    ) -> bool {
        exists|compacted: LineParser|
            {
                &&& #[trigger] self.compacts_to(threshold, compacted)
                &&& {
                    ||| after.emitted == compacted.emitted && (after.line_buffer
                        == compacted.line_buffer || after@.partial.len() > 0)
                    ||| line is Some && buffers::buffered(after.emitted) == line->Some_0
                }
            }
    }

    /// Creates a new parser in `ReadingLine` mode with empty buffers.
    #[must_use]
    pub fn new() -> (r: Self)
        ensures
            r@ == ParserState::initial(),
    {
        Self {
            line_buffer: BytesMut::new(),
            emitted: BytesMut::new(),
            mode: LineParserMode::ReadingLine,
        }
    }

    /// Notifies the parser that the upstream delivery dropped chunks. Discards any partial
    /// line in progress and resynchronizes at the next newline instead of joining bytes
    /// across the gap.
    pub fn on_gap(&mut self)
        ensures
            final(self)@ == ParserState::discarding(),
    {
        self.line_buffer.clear();
        self.mode = LineParserMode::DiscardUntilNewline;
    }

    /// Advances through `chunk` and yields the next parsed line, if any.
    ///
    /// `chunk` is mutated in place to advance past the consumed prefix. Call repeatedly,
    /// reusing the same slice cursor, until this returns `None`; at that point the chunk is
    /// exhausted and any partial line is buffered for the next chunk.
    ///
    /// The returned [`Cow`] borrows from the chunk slice when the line fits entirely in this
    /// call and no partial line was already buffered, and from the parser's internal
    /// emitted-line slot otherwise. Text that is not valid UTF-8 is decoded into an owned string.
    pub fn next_line<'a, 'b>(
        &'a mut self,
        chunk: &mut &'b [u8],
        options: LineParsingOptions,
    ) -> (r: Option<Cow<'a, str>>) where 'b: 'a
        requires
            old(self)@.wf(),
            old(self)@.within(options),
            has_room(old(self)@, old(chunk)@.len(), options),
        ensures
            final(self)@.wf(),
            final(self)@.within(options),
            ({
                let (line, state, rest) = next(old(self)@, old(chunk)@, options);
                &&& final(self)@ == state
                &&& final(chunk)@ == rest
                &&& match line {
                    Some(bytes) => {
                        &&& r is Some
                        &&& r->Some_0@ == text::text_of(bytes)
                        &&& valid_utf8(bytes) ==> r->Some_0 is Borrowed
                    },
                    None => r is None,
                }
                &&& old(self).reuses_buffers(
                    options.buffer_compaction_threshold,
                    line,
                    *final(self),
                )
            }),
    {
        self.compact_if_needed(options.buffer_compaction_threshold);
        let ghost compacted = *self;
        let max_line_length: usize = options.max_line_length.bytes();
        while !chunk.is_empty()
            invariant
                self@.wf(),
                self@.within(options),
                has_room(self@, chunk@.len(), options),
                max_line_length == options.max_line_length@,
                next(self@, chunk@, options) == next(old(self)@, old(chunk)@, options),
                old(self).compacts_to(options.buffer_compaction_threshold, compacted),
                self.emitted == compacted.emitted,
                self.line_buffer == compacted.line_buffer || self@.partial.len() > 0,
            decreases chunk@.len(), (if self.mode is PendingLimitDelimiter { 1int } else { 0int }),
        {
            let available: usize = chunk.len();
            let ghost before = self@;
            let ghost input = chunk@;
            match self.mode {
                LineParserMode::DiscardUntilNewline => {
                    assert(before == ParserState::discarding());
                    if let Some(pos) = memchr(NEWLINE, chunk) {
                        proof {
                            lemma_next_discard(input, pos as int, options);
                            assert(input.skip(pos as int).skip(1) == input.skip(pos + 1));
                        }
                        self.mode = LineParserMode::ReadingLine;
                        *chunk = slice_subrange(*chunk, pos + 1, available);
                    } else {
                        proof {
                            lemma_next_discard(input, input.len() as int, options);
                        }
                        *chunk = slice_subrange(*chunk, available, available);
                        return None;
                    }
                    continue;
                },
                LineParserMode::PendingLimitDelimiter => {
                    self.mode = LineParserMode::ReadingLine;
                    if chunk[0] == NEWLINE {
                        *chunk = slice_subrange(*chunk, 1, available);
                        continue;
                    }
                },
                LineParserMode::ReadingLine => {},
            }
            let ghost partial = before.partial;
            assert(before.mode is PendingLimitDelimiter ==> input[0] != NEWLINE);
            assert(step(before, input[0], options) == read_step(partial, input[0], options));
            assert(next(before, input, options) == next(
                ParserState::reading(partial),
                input,
                options,
            ));
            if max_line_length != 0 && self.line_buffer.len() == max_line_length {
                self.mode = match options.overflow_behavior {
                    LineOverflowBehavior::DropAdditionalData => LineParserMode::DiscardUntilNewline,
                    LineOverflowBehavior::EmitAdditionalAsNewLines => {
                        LineParserMode::PendingLimitDelimiter
                    },
                };
                return Some(self.emit_buffered_line());
            }
            let remaining_line_length: usize = if max_line_length == 0 {
                available
            } else {
                max_line_length - self.line_buffer.len()
            };
            let scan_len: usize = if remaining_line_length < available {
                remaining_line_length
            } else {
                available
            };
            let scan = slice_subrange(*chunk, 0, scan_len);
            if let Some(pos) = memchr(NEWLINE, scan) {
                proof {
                    assert(forall|i: int| 0 <= i < pos ==> input[i] == scan@[i]);
                    lemma_next_run(partial, input, pos as int, options);
                    assert(input.skip(pos as int).skip(1) == input.skip(pos + 1));
                    assert(scan@.take(pos as int) == input.take(pos as int));
                }
                let head = slice_subrange(scan, 0, pos);
                *chunk = slice_subrange(*chunk, pos + 1, available);
                if self.line_buffer.is_empty() {
                    // Fast path: the whole line fits in this chunk and no prefix was buffered;
                    // borrow directly from the chunk slice without copying.
                    return Some(decode_line_lossy(head));
                }
                self.line_buffer.extend_from_slice(head);
                return Some(self.emit_buffered_line());
            }
            proof {
                assert(forall|i: int| 0 <= i < scan_len ==> input[i] == scan@[i]);
                lemma_next_scan(partial, input, scan_len as int, options);
            }
            self.line_buffer.extend_from_slice(scan);
            *chunk = slice_subrange(*chunk, scan_len, available);
            if max_line_length != 0 && self.line_buffer.len() == max_line_length && matches!(
                options.overflow_behavior,
                LineOverflowBehavior::EmitAdditionalAsNewLines
            ) {
                self.mode = LineParserMode::PendingLimitDelimiter;
                return Some(self.emit_buffered_line());
            }
        }
        None
    }

    /// The number of bytes of the line in progress.
    #[must_use]
    pub fn buffered_len(&self) -> (r: usize)
        ensures
            r == self@.partial.len(),
    {
        self.line_buffer.len()
    }

    /// The storage that the parser holds on to: for the line in progress, and for the line that was
    /// emitted last. The sizes depend on the allocator.
    #[must_use]
    pub fn capacities(&self) -> (r: (usize, usize))
        ensures
            r.0 >= self@.partial.len(),
    {
        (self.line_buffer.capacity(), self.emitted.capacity())
    }

    /// Whether `len` more bytes can be parsed without the line in progress outgrowing its buffer.
    #[must_use]
    pub fn has_room(&self, len: usize, options: LineParsingOptions) -> (r: bool)
        ensures
            r == has_room(self@, len as nat, options),
    {
        let max_line_length: usize = options.max_line_length.bytes();
        let buffered: usize = self.line_buffer.len();
        (max_line_length != 0 && max_line_length <= MAX_BUFFERED_BYTES) || (buffered
            <= MAX_BUFFERED_BYTES && len <= MAX_BUFFERED_BYTES - buffered)
    }

    /// Flushes any unterminated trailing line at EOF.
    ///
    /// Returns `None` when there is nothing to flush: the buffer is empty, or the parser is
    /// in `DiscardUntilNewline` mode (a gap or overflow truncation is still draining and the
    /// buffered remainder is conservatively dropped).
    pub fn finish(&mut self) -> (r: Option<Cow<'_, str>>)
        ensures
            match trailing_line(old(self)@) {
                Some(bytes) => {
                    &&& r is Some
                    &&& r->Some_0@ == text::text_of(bytes)
                    &&& valid_utf8(bytes) ==> r->Some_0 is Borrowed
                    &&& final(self)@ == (ParserState {
                        mode: old(self)@.mode,
                        partial: Seq::empty(),
                    })
                },
                None => r is None && final(self)@ == old(self)@,
            },
    {
        if self.mode == LineParserMode::DiscardUntilNewline || self.line_buffer.is_empty() {
            None
        } else {
            Some(self.emit_buffered_line())
        }
    }

    /// Parses a whole chunk and returns every line it completes.
    ///
    /// Use this where lines have to outlive the parser's borrow, for example across an await.
    pub fn owned_lines(&mut self, chunk: &[u8], options: LineParsingOptions) -> (r: Vec<String>)
        requires
            old(self)@.wf(),
            old(self)@.within(options),
            has_room(old(self)@, chunk@.len(), options),
        ensures
            final(self)@.wf(),
            final(self)@.within(options),
            ({
                let (lines, end) = feed(old(self)@, chunk@, options);
                text::texts(r@) == text::decoded(lines) && final(self)@ == end
            }),
    {
        let mut bytes: &[u8] = chunk;
        let mut owned: Vec<String> = Vec::new();
        let ghost (lines, end) = feed(self@, chunk@, options);
        assert(text::texts(owned@) =~= text::decoded(lines.take(0)));
        assert(lines.skip(0) =~= lines);
        loop
            invariant
                self@.wf(),
                self@.within(options),
                has_room(self@, bytes@.len(), options),
                owned@.len() <= lines.len(),
                text::texts(owned@) == text::decoded(lines.take(owned@.len() as int)),
                feed(self@, bytes@, options) == (lines.skip(owned@.len() as int), end),
                (lines, end) == feed(old(self)@, chunk@, options),
            decreases lines.len() - owned@.len(),
        {
            let ghost rest = lines.skip(owned@.len() as int);
            proof {
                laws::next_unrolls_feed(self@, bytes@, options);
                laws::next_keeps_room(self@, bytes@, options);
                assert(next(self@, bytes@, options).0 is Some ==> rest.len() > 0);
            }
            match self.next_line(&mut bytes, options) {
                Some(line) => {
                    proof {
                        assert(rest[0] == lines[owned@.len() as int]);
                        assert(rest.skip(1) =~= lines.skip(owned@.len() as int + 1));
                        assert(seq![rest[0]] + rest.skip(1) =~= rest);
                    }
                    let ghost before = owned@;
                    owned.push(into_owned(line));
                    proof {
                        assert(feed(self@, bytes@, options).0 =~= rest.skip(1));
                        let n = before.len() as int;
                        assert(text::texts(owned@) =~= text::texts(before).push(
                            text::text_of(lines[n]),
                        ));
                        assert(text::decoded(lines.take(n + 1)) =~= text::decoded(
                            lines.take(n),
                        ).push(text::text_of(lines[n])));
                    }
                },
                None => {
                    assert(lines.take(owned@.len() as int) =~= lines);
                    return owned;
                },
            }
        }
    }

    /// Flushes any unterminated trailing line at EOF as a string of its own.
    pub fn finish_owned(&mut self) -> (r: Option<String>)
        ensures
            match trailing_line(old(self)@) {
                Some(bytes) => r is Some && r->Some_0@ == text::text_of(bytes) && final(self)@
                    == (ParserState { mode: old(self)@.mode, partial: Seq::empty() }),
                None => r is None && final(self)@ == old(self)@,
            },
    {
        match self.finish() {
            Some(line) => Some(into_owned(line)),
            None => None,
        }
    }

    /// Drops over-sized buffer allocations so a single large line does not pin memory for the
    /// parser's whole lifetime.
    ///
    /// The in-progress buffer is only replaced when empty: a non-empty one holds partial-line bytes
    /// accumulated from earlier chunks, which must not be dropped mid-line.
    fn compact_if_needed(&mut self, threshold: Option<NumBytes>)
        ensures
            final(self)@ == old(self)@,
            old(self).compacts_to(threshold, *final(self)),
    {
        if let Some(threshold) = threshold {
            let threshold: usize = threshold.bytes();
            if self.line_buffer.is_empty() && self.line_buffer.capacity() > threshold {
                self.line_buffer = BytesMut::new();
            }
            if self.emitted.capacity() > threshold {
                self.emitted = BytesMut::new();
            }
        }
    }

    /// Moves the in-progress line bytes into the emitted slot and decodes them.
    ///
    /// The in-progress buffer becomes the new `emitted`, the previous `emitted`'s allocation moves
    /// into `line_buffer` and gets cleared, so the next line accumulates without allocating.
    fn emit_buffered_line(&mut self) -> (r: Cow<'_, str>)
        ensures
            r@ == text::text_of(old(self)@.partial),
            valid_utf8(old(self)@.partial) ==> r is Borrowed,
            final(self)@ == (ParserState { mode: old(self)@.mode, partial: Seq::empty() }),
            buffers::buffered(final(self).emitted) == old(self)@.partial,
    {
        std::mem::swap(&mut self.line_buffer, &mut self.emitted);
        self.line_buffer.clear();
        decode_line_lossy(&self.emitted)
    }
}

impl Default for LineParser {
    fn default() -> (r: Self)
        ensures
            r@ == ParserState::initial(),
    {
        Self::new()
    }
}

/// With a limit of reasonable size there is always room. Otherwise there is as long as the line in
/// progress and what is to come fit in a buffer together.
pub proof fn room_is_only_short_for_huge_lines(
    state: ParserState,
    len: nat,
    options: LineParsingOptions,
)
    ensures
        has_room(state, len, options) == (0 < options.max_line_length@ <= MAX_BUFFERED_BYTES
            || state.partial.len() + len <= MAX_BUFFERED_BYTES),
{
}

/// A buffer that is found larger than the threshold is given back when the next line is asked for,
/// unless it holds bytes of the line in progress. Every other buffer is kept.
proof fn oversized_buffers_are_given_back(
    before: LineParser,
    threshold: Option<NumBytes>,
    after: LineParser,
)
    requires
        before.reuses_buffers(threshold, None, after),
    ensures
        threshold is None ==> after.emitted == before.emitted,
        threshold matches Some(limit) ==> {
            &&& (forall|capacity: usize| #[trigger]
                call_ensures(BytesMut::capacity, (&before.emitted,), capacity) ==> capacity
                    > limit@) ==> call_ensures(BytesMut::new, (), after.emitted)
            &&& (forall|capacity: usize| #[trigger]
                call_ensures(BytesMut::capacity, (&before.emitted,), capacity) ==> capacity
                    <= limit@) ==> after.emitted == before.emitted
        },
        after@.partial.len() == 0 && before@.partial.len() > 0 ==> after.line_buffer
            == before.line_buffer,
        after@.partial.len() == 0 && before@.partial.len() == 0 ==> match threshold {
            None => after.line_buffer == before.line_buffer,
            Some(limit) => {
                &&& (forall|capacity: usize| #[trigger]
                    call_ensures(BytesMut::capacity, (&before.line_buffer,), capacity) ==> capacity
                        > limit@) ==> call_ensures(BytesMut::new, (), after.line_buffer)
                &&& (forall|capacity: usize| #[trigger]
                    call_ensures(BytesMut::capacity, (&before.line_buffer,), capacity) ==> capacity
                        <= limit@) ==> after.line_buffer == before.line_buffer
            },
        },
{
}

} // verus!
