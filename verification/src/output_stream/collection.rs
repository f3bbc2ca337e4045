//! In-memory collection of output, bounded or not.

use crate::output_stream::line::options::NotSet;
use crate::output_stream::line::text;
use crate::output_stream::num_bytes::NumBytes;
use std::collections::VecDeque;
use vstd::prelude::*;
use vstd::slice::slice_subrange;
use vstd::utf8::*;

verus! {

/// Controls which output is retained once a bounded in-memory collection reaches its limit.
#[derive(Debug, Clone, Copy, PartialEq, Eq, Structural)]
pub enum CollectionOverflowBehavior {
    /// Keep the first retained output and discard additional output.
    DropAdditionalData,
    /// Keep the newest retained output by evicting older retained output.
    DropOldestData,
}

impl Default for CollectionOverflowBehavior {
    fn default() -> (r: Self)
        ensures
            r == CollectionOverflowBehavior::DropAdditionalData,
    {
        CollectionOverflowBehavior::DropAdditionalData
    }
}

/// Options for collecting raw output bytes into memory.
#[derive(Debug, Clone, Copy, PartialEq, Eq, Structural)]
pub enum RawCollectionOptions {
    /// Retain at most `max_bytes` bytes in memory.
    Bounded {
        /// Maximum number of bytes retained in memory.
        max_bytes: NumBytes,
        /// Which retained bytes to keep when more output is observed.
        overflow_behavior: CollectionOverflowBehavior,
    },
    /// Retain all observed bytes in memory without a total output cap.
    ///
    /// Use only when the output source and its output volume are trusted.
    TrustedUnbounded,
}

impl RawCollectionOptions {
    /// Creates bounded raw collection options that retain at most `max_bytes`.
    #[must_use]
    pub fn new(max_bytes: NumBytes) -> (r: Self)
        ensures
            r == (RawCollectionOptions::Bounded {
                max_bytes,
                overflow_behavior: CollectionOverflowBehavior::DropAdditionalData,
            }),
    {
        RawCollectionOptions::Bounded {
            max_bytes,
            overflow_behavior: CollectionOverflowBehavior::default(),
        }
    }

    /// Returns these options with a custom overflow behavior. Unbounded options stay as they are,
    /// since they never overflow.
    #[must_use]
    pub fn with_overflow_behavior(self, overflow_behavior: CollectionOverflowBehavior) -> (r: Self)
        ensures
            r == match self {
                RawCollectionOptions::Bounded { max_bytes, .. } => RawCollectionOptions::Bounded {
                    max_bytes,
                    overflow_behavior,
                },
                RawCollectionOptions::TrustedUnbounded => self,
            },
    {
        match self {
            RawCollectionOptions::Bounded { max_bytes, .. } => RawCollectionOptions::Bounded {
                max_bytes,
                overflow_behavior,
            },
            RawCollectionOptions::TrustedUnbounded => self,
        }
    }
}

/// Options for collecting parsed output lines into memory.
#[derive(Debug, Clone, Copy, PartialEq, Eq, Structural)]
pub enum LineCollectionOptions {
    /// Retain at most `max_bytes` total line bytes and at most `max_lines` lines in memory.
    Bounded {
        /// Maximum total bytes retained across all collected lines.
        max_bytes: NumBytes,
        /// Maximum number of lines retained in memory.
        max_lines: usize,
        /// Which retained lines to keep when more output is observed.
        overflow_behavior: CollectionOverflowBehavior,
    },
    /// Retain all observed lines in memory without a total output cap.
    ///
    /// Use only when the output source and its output volume are trusted.
    TrustedUnbounded,
}

/// Builder for bounded [`LineCollectionOptions`]. All settings have to be given, in any order.
#[derive(Debug, Clone, Copy, PartialEq, Eq)]
pub struct LineCollectionOptionsBuilder<B = NotSet, L = NotSet, O = NotSet> {
    /// The byte limit, once it is given.
    pub max_bytes: B,
    /// The line limit, once it is given.
    pub max_lines: L,
    /// The overflow behavior, once it is given.
    pub overflow_behavior: O,
}

impl LineCollectionOptions {
    /// Starts building bounded options.
    #[must_use]
    pub fn builder() -> (r: LineCollectionOptionsBuilder)
        ensures
            r == (LineCollectionOptionsBuilder {
                max_bytes: NotSet,
                max_lines: NotSet,
                overflow_behavior: NotSet,
            }),
    {
        LineCollectionOptionsBuilder {
            max_bytes: NotSet,
            max_lines: NotSet,
            overflow_behavior: NotSet,
        }
    }
}

impl<L, O> LineCollectionOptionsBuilder<NotSet, L, O> {
    /// Sets the maximum total bytes retained across all collected lines.
    #[must_use]
    pub fn max_bytes(self, max_bytes: NumBytes) -> (r: LineCollectionOptionsBuilder<
        NumBytes,
        L,
        O,
    >)
        ensures
            r.max_bytes == max_bytes,
            r.max_lines == self.max_lines,
            r.overflow_behavior == self.overflow_behavior,
    {
        LineCollectionOptionsBuilder {
            max_bytes,
            max_lines: self.max_lines,
            overflow_behavior: self.overflow_behavior,
        }
    }
}

impl<B, O> LineCollectionOptionsBuilder<B, NotSet, O> {
    /// Sets the maximum number of lines retained in memory.
    #[must_use]
    pub fn max_lines(self, max_lines: usize) -> (r: LineCollectionOptionsBuilder<B, usize, O>)
        ensures
            r.max_bytes == self.max_bytes,
            r.max_lines == max_lines,
            r.overflow_behavior == self.overflow_behavior,
    {
        LineCollectionOptionsBuilder {
            max_bytes: self.max_bytes,
            max_lines,
            overflow_behavior: self.overflow_behavior,
        }
    }
}

impl<B, L> LineCollectionOptionsBuilder<B, L, NotSet> {
    /// Sets which retained lines to keep when more output is observed.
    #[must_use]
    pub fn overflow_behavior(self, overflow_behavior: CollectionOverflowBehavior) -> (r:
        LineCollectionOptionsBuilder<B, L, CollectionOverflowBehavior>)
        ensures
            r.max_bytes == self.max_bytes,
            r.max_lines == self.max_lines,
            r.overflow_behavior == overflow_behavior,
    {
        LineCollectionOptionsBuilder {
            max_bytes: self.max_bytes,
            max_lines: self.max_lines,
            overflow_behavior,
        }
    }
}

impl LineCollectionOptionsBuilder<NumBytes, usize, CollectionOverflowBehavior> {
    /// Finishes building.
    #[must_use]
    pub fn build(self) -> (r: LineCollectionOptions)
        ensures
            r == (LineCollectionOptions::Bounded {
                max_bytes: self.max_bytes,
                max_lines: self.max_lines,
                overflow_behavior: self.overflow_behavior,
            }),
    {
        LineCollectionOptions::Bounded {
            max_bytes: self.max_bytes,
            max_lines: self.max_lines,
            overflow_behavior: self.overflow_behavior,
        }
    }
}

/// The first `max` bytes at most.
pub open spec fn first_bytes(bytes: Seq<u8>, max: nat) -> Seq<u8> {
    if bytes.len() <= max {
        bytes
    } else {
        bytes.take(max as int)
    }
}

/// The last `max` bytes at most.
pub open spec fn last_bytes(bytes: Seq<u8>, max: nat) -> Seq<u8> {
    if bytes.len() <= max {
        bytes
    } else {
        bytes.skip(bytes.len() - max)
    }
}

/// The bytes retained once `chunk` follows the bytes in `retained`.
pub open spec fn retained_bytes(
    retained: Seq<u8>,
    chunk: Seq<u8>,
    options: RawCollectionOptions,
) -> Seq<u8> {
    match options {
        RawCollectionOptions::TrustedUnbounded => retained + chunk,
        RawCollectionOptions::Bounded { max_bytes, overflow_behavior } => match overflow_behavior {
            CollectionOverflowBehavior::DropAdditionalData => if retained.len() <= max_bytes@ {
                first_bytes(retained + chunk, max_bytes@)
            } else {
                retained
            },
            CollectionOverflowBehavior::DropOldestData => last_bytes(
                retained + chunk,
                max_bytes@,
            ),
        },
    }
}

/// What has been collected: the bytes retained, and whether a byte was discarded.
#[verifier::ext_equal]
pub struct RawCollection {
    /// The bytes retained, oldest first.
    pub bytes: Seq<u8>,
    /// Whether a byte was discarded.
    pub truncated: bool,
}

impl RawCollection {
    /// Nothing collected yet.
    pub open spec fn empty() -> RawCollection {
        RawCollection { bytes: Seq::empty(), truncated: false }
    }

    /// The collection once `chunk` was taken in.
    pub open spec fn with_chunk(
        self,
        chunk: Seq<u8>,
        options: RawCollectionOptions,
    ) -> RawCollection {
        let bytes = retained_bytes(self.bytes, chunk, options);
        RawCollection {
            bytes,
            truncated: self.truncated || bytes.len() < self.bytes.len() + chunk.len(),
        }
    }
}

/// Whether the sizes involved in taking a chunk of `chunk_len` bytes in can be expressed. Only
/// collections that hold all of the chunk beside what they retained depend on it.
pub open spec fn is_representable(
    retained_len: nat,
    chunk_len: nat,
    options: RawCollectionOptions,
) -> bool {
    match options {
        RawCollectionOptions::Bounded { max_bytes, overflow_behavior } => overflow_behavior
            == CollectionOverflowBehavior::DropOldestData && chunk_len <= max_bytes@ ==> retained_len
            + chunk_len <= usize::MAX,
        RawCollectionOptions::TrustedUnbounded => retained_len + chunk_len <= usize::MAX,
    }
}

/// Raw bytes collected from an output stream.
#[derive(Debug, PartialEq, Eq)]
pub struct CollectedBytes {
    /// Retained output bytes.
    pub bytes: Vec<u8>,
    /// Whether any bytes were discarded because the configured limit was exceeded.
    pub truncated: bool,
}

impl View for CollectedBytes {
    type V = RawCollection;

    open spec fn view(&self) -> RawCollection {
        RawCollection { bytes: self.bytes@, truncated: self.truncated }
    }
}

impl CollectedBytes {
    /// Creates an empty collected byte buffer.
    #[must_use]
    pub fn new() -> (r: Self)
        ensures
            r@ == RawCollection::empty(),
    {
        Self { bytes: Vec::new(), truncated: false }
    }

    /// Takes the next chunk of output in, within the limits of `options`.
    pub fn push_chunk(&mut self, chunk: &[u8], options: RawCollectionOptions)
        requires
            is_representable(old(self)@.bytes.len(), chunk@.len(), options),
        ensures
            final(self)@ == old(self)@.with_chunk(chunk@, options),
    {
        let ghost before = self.bytes@;
        match options {
            RawCollectionOptions::TrustedUnbounded => {
                self.append(chunk);
            },
            RawCollectionOptions::Bounded { max_bytes, overflow_behavior } => {
                let max_bytes: usize = max_bytes.bytes();
                match overflow_behavior {
                    CollectionOverflowBehavior::DropAdditionalData => {
                        let remaining: usize = max_bytes.saturating_sub(self.bytes.len());
                        if chunk.len() > remaining {
                            self.truncated = true;
                        }
                        let kept: usize = if remaining < chunk.len() {
                            remaining
                        } else {
                            chunk.len()
                        };
                        self.append(slice_subrange(chunk, 0, kept));
                        assert(self.bytes@ == before + chunk@.take(kept as int));
                        assert(before.len() <= max_bytes ==> self.bytes@ == first_bytes(
                            before + chunk@,
                            max_bytes as nat,
                        ));
                        assert(before.len() > max_bytes ==> self.bytes@ == before);
                    },
                    CollectionOverflowBehavior::DropOldestData => {
                        if chunk.len() > max_bytes {
                            self.bytes.clear();
                            self.append(
                                slice_subrange(chunk, chunk.len() - max_bytes, chunk.len()),
                            );
                            self.truncated = true;
                            assert(self.bytes@ == last_bytes(before + chunk@, max_bytes as nat));
                            return ;
                        }
                        let required: usize = self.bytes.len() + chunk.len();
                        if required > max_bytes {
                            self.bytes = self.bytes.split_off(required - max_bytes);
                            self.truncated = true;
                        }
                        self.append(chunk);
                        assert(self.bytes@ == last_bytes(before + chunk@, max_bytes as nat));
                    },
                }
            },
        }
    }

    /// Whether the sizes involved in taking `len` more bytes in can be expressed.
    #[must_use]
    pub fn has_room(&self, len: usize, options: RawCollectionOptions) -> (r: bool)
        ensures
            r == is_representable(self@.bytes.len(), len as nat, options),
    {
        let fits = len <= usize::MAX - self.bytes.len();
        match options {
            RawCollectionOptions::TrustedUnbounded => fits,
            RawCollectionOptions::Bounded { max_bytes, overflow_behavior } => {
                match overflow_behavior {
                    CollectionOverflowBehavior::DropAdditionalData => true,
                    CollectionOverflowBehavior::DropOldestData => len > max_bytes.bytes() || fits,
                }
            },
        }
    }

    /// Appends bytes to those retained.
    fn append(&mut self, bytes: &[u8])
        ensures
            final(self)@ == (RawCollection { bytes: old(self)@.bytes + bytes@, ..old(self)@ }),
    {
        let ghost before = self.bytes@;
        self.bytes.extend_from_slice(bytes);
        assert(self.bytes@ =~= before + bytes@);
    }
}

impl Clone for CollectedBytes {
    fn clone(&self) -> (r: Self)
        ensures
            r@ == self@,
    {
        let bytes = self.bytes.clone();
        assert(bytes@ =~= self.bytes@);
        Self { bytes, truncated: self.truncated }
    }
}

impl Default for CollectedBytes {
    fn default() -> (r: Self)
        ensures
            r@ == RawCollection::empty(),
    {
        Self::new()
    }
}

impl std::ops::Deref for CollectedBytes {
    type Target = [u8];

    fn deref(&self) -> (r: &[u8])
        ensures
            r@ == self@.bytes,
    {
        &self.bytes
    }
}

/// How many bytes a text takes in UTF-8.
pub open spec fn text_len(text: Seq<char>) -> nat {
    encode_utf8(text).len()
}

/// How many bytes texts take in UTF-8 together.
pub open spec fn total_len(texts: Seq<Seq<char>>) -> nat
    decreases texts.len(),
{
    if texts.len() == 0 {
        0
    } else {
        text_len(texts[0]) + total_len(texts.skip(1))
    }
}

/// The lines left of `lines` when the oldest are evicted until a line of `len` bytes fits.
pub open spec fn make_room(
    lines: Seq<Seq<char>>,
    len: nat,
    max_bytes: nat,
    max_lines: nat,
) -> Seq<Seq<char>>
    decreases lines.len(),
{
    if lines.len() > 0 && (lines.len() >= max_lines || exceeds(len, lines, max_bytes)) {
        make_room(lines.skip(1), len, max_bytes, max_lines)
    } else {
        lines
    }
}

/// Whether a line of `len` bytes does not fit beside `lines`. A line without any byte always fits.
pub open spec fn exceeds(len: nat, lines: Seq<Seq<char>>, max_bytes: nat) -> bool {
    len > 0 && total_len(lines) + len > max_bytes
}

/// What has been collected: the lines retained, and whether a line was discarded.
#[verifier::ext_equal]
pub struct Collection {
    /// The lines retained, oldest first.
    pub lines: Seq<Seq<char>>,
    /// Whether a line was discarded.
    pub truncated: bool,
}

impl Collection {
    /// Nothing collected yet.
    pub open spec fn empty() -> Collection {
        Collection { lines: Seq::empty(), truncated: false }
    }

    /// The collection once `line` was taken in.
    pub open spec fn with_line(
        self,
        line: Seq<char>,
        options: LineCollectionOptions,
    ) -> Collection {
        let len = text_len(line);
        match options {
            LineCollectionOptions::TrustedUnbounded => Collection {
                lines: self.lines.push(line),
                ..self
            },
            LineCollectionOptions::Bounded { max_bytes, max_lines, overflow_behavior } => {
                match overflow_behavior {
                    CollectionOverflowBehavior::DropAdditionalData => {
                        if self.lines.len() >= max_lines || exceeds(len, self.lines, max_bytes@) {
                            Collection { truncated: true, ..self }
                        } else {
                            Collection { lines: self.lines.push(line), ..self }
                        }
                    },
                    CollectionOverflowBehavior::DropOldestData => {
                        if max_lines == 0 || len > max_bytes@ {
                            Collection { truncated: true, ..self }
                        } else {
                            let kept = make_room(self.lines, len, max_bytes@, max_lines as nat);
                            Collection {
                                lines: kept.push(line),
                                truncated: self.truncated || kept.len() < self.lines.len(),
                            }
                        }
                    },
                }
            },
        }
    }
}

/// The number of bytes of a text.
fn byte_len(text: &str) -> (r: usize)
    ensures
        r == text_len(text@),
{
    text.as_bytes().len()
}

/// Parsed lines collected from an output stream.
#[derive(Debug, PartialEq, Eq)]
pub struct CollectedLines {
    lines: VecDeque<String>,
    truncated: bool,
    retained_bytes: u128,
}

impl View for CollectedLines {
    type V = Collection;

    closed spec fn view(&self) -> Collection {
        Collection { lines: text::texts(self.lines@), truncated: self.truncated }
    }
}

impl CollectedLines {
    /// The byte count kept is that of the lines retained, each of which exists in memory.
    pub closed spec fn wf(self) -> bool {
        &&& self.retained_bytes == total_len(text::texts(self.lines@))
        &&& forall|i: int|
            0 <= i < self.lines@.len() ==> text_len(#[trigger] text::texts(self.lines@)[i]) <= usize::MAX
    }

    /// Creates an empty collected line buffer.
    #[must_use]
    pub fn new() -> (r: Self)
        ensures
            r.wf(),
            r@ == Collection::empty(),
    {
        let r = Self { lines: VecDeque::new(), truncated: false, retained_bytes: 0 };
        assert(text::texts(r.lines@) =~= Seq::<Seq<char>>::empty());
        r
    }

    /// Retained output lines.
    #[must_use]
    pub fn lines(&self) -> (r: &VecDeque<String>)
        ensures
            text::texts(r@) == self@.lines,
    {
        &self.lines
    }

    /// Whether any lines were discarded because the configured limit was exceeded.
    #[must_use]
    pub fn truncated(&self) -> (r: bool)
        ensures
            r == self@.truncated,
    {
        self.truncated
    }

    /// The number of bytes of all retained lines.
    #[must_use]
    pub fn retained_bytes(&self) -> (r: u128)
        requires
            self.wf(),
        ensures
            r == total_len(self@.lines),
    {
        self.retained_bytes
    }

    /// Converts this collection into its retained output lines.
    #[must_use]
    pub fn into_lines(self) -> (r: VecDeque<String>)
        ensures
            text::texts(r@) == self@.lines,
    {
        self.lines
    }

    /// Converts this collection into its retained output lines and truncation flag.
    #[must_use]
    pub fn into_parts(self) -> (r: (VecDeque<String>, bool))
        ensures
            text::texts(r.0@) == self@.lines,
            r.1 == self@.truncated,
    {
        (self.lines, self.truncated)
    }

    /// Takes the next line of output in, within the limits of `options`.
    pub fn push_line(&mut self, line: String, options: LineCollectionOptions)
        requires
            old(self).wf(),
        ensures
            final(self).wf(),
            final(self)@ == old(self)@.with_line(line@, options),
    {
        match options {
            LineCollectionOptions::TrustedUnbounded => self.push_back(line),
            LineCollectionOptions::Bounded { max_bytes, max_lines, overflow_behavior } => {
                let line_len: usize = byte_len(line.as_str());
                let max_bytes: usize = max_bytes.bytes();
                match overflow_behavior {
                    CollectionOverflowBehavior::DropAdditionalData => {
                        if self.lines.len() >= max_lines || line_len > max_bytes || line_len
                            > self.remaining_bytes(max_bytes) {
                            self.truncated = true;
                            return ;
                        }
                        self.push_back(line);
                    },
                    CollectionOverflowBehavior::DropOldestData => {
                        if max_lines == 0 {
                            self.truncated = true;
                            return ;
                        }
                        if line_len > max_bytes {
                            self.truncated = true;
                            return ;
                        }
                        while self.lines.len() >= max_lines || line_len > self.remaining_bytes(
                            max_bytes,
                        )
                            invariant
                                self.wf(),
                                max_lines > 0,
                                line_len == text_len(line@),
                                line_len <= max_bytes,
                                make_room(
                                    self@.lines,
                                    line_len as nat,
                                    max_bytes as nat,
                                    max_lines as nat,
                                ) == make_room(
                                    old(self)@.lines,
                                    line_len as nat,
                                    max_bytes as nat,
                                    max_lines as nat,
                                ),
                                self@.lines.len() <= old(self)@.lines.len(),
                                self@.truncated == (old(self)@.truncated || self@.lines.len() < old(
                                    self,
                                )@.lines.len()),
                            decreases self@.lines.len(),
                        {
                            let _ = self.pop_front();
                            self.truncated = true;
                        }
                        self.push_back(line);
                    },
                }
            },
        }
    }

    /// How many bytes may be retained beside the present lines.
    fn remaining_bytes(&self, max_bytes: usize) -> (r: usize)
        requires
            self.wf(),
        ensures
            r == if total_len(self@.lines) < max_bytes {
                max_bytes - total_len(self@.lines)
            } else {
                0
            },
    {
        if self.retained_bytes < max_bytes as u128 {
            max_bytes - self.retained_bytes as usize
        } else {
            0
        }
    }

    /// Retains a line behind all others.
    fn push_back(&mut self, line: String)
        requires
            old(self).wf(),
        ensures
            final(self).wf(),
            final(self)@ == (Collection { lines: old(self)@.lines.push(line@), ..old(self)@ }),
    {
        let count: usize = self.lines.len();
        let len: usize = byte_len(line.as_str());
        proof {
            total_len_push(self@.lines, line@);
            total_len_bound(self@.lines);
            assert(count * usize::MAX + len <= u128::MAX) by (nonlinear_arith)
                requires
                    count <= 0xffff_ffff_ffff_ffff,
                    len <= 0xffff_ffff_ffff_ffff,
                    usize::MAX <= 0xffff_ffff_ffff_ffff,
            ;
        }
        self.retained_bytes += len as u128;
        self.lines.push_back(line);
        assert(text::texts(self.lines@) =~= old(self)@.lines.push(line@));
    }

    /// Gives the oldest line back.
    fn pop_front(&mut self) -> (r: Option<String>)
        requires
            old(self).wf(),
        ensures
            final(self).wf(),
            match r {
                Some(line) => {
                    &&& old(self)@.lines.len() > 0
                    &&& line@ == old(self)@.lines[0]
                    &&& final(self)@ == (Collection {
                        lines: old(self)@.lines.skip(1),
                        ..old(self)@
                    })
                },
                None => old(self)@.lines.len() == 0 && final(self)@ == old(self)@,
            },
    {
        match self.lines.pop_front() {
            Some(line) => {
                assert(text::texts(self.lines@) =~= old(self)@.lines.skip(1));
                self.retained_bytes -= byte_len(line.as_str()) as u128;
                Some(line)
            },
            None => None,
        }
    }
}

/// A line more adds its bytes.
pub proof fn total_len_push(lines: Seq<Seq<char>>, line: Seq<char>)
    ensures
        total_len(lines.push(line)) == total_len(lines) + text_len(line),
    decreases lines.len(),
{
    if lines.len() == 0 {
        assert(lines.push(line).skip(1) =~= Seq::<Seq<char>>::empty());
        assert(total_len(lines.push(line).skip(1)) == 0);
    } else {
        total_len_push(lines.skip(1), line);
        assert(lines.push(line).skip(1) =~= lines.skip(1).push(line));
    }
}

/// The bytes of texts are bounded by their number.
proof fn total_len_bound(lines: Seq<Seq<char>>)
    requires
        forall|i: int| 0 <= i < lines.len() ==> text_len(#[trigger] lines[i]) <= usize::MAX,
    ensures
        total_len(lines) <= lines.len() * usize::MAX,
    decreases lines.len(),
{
    if lines.len() > 0 {
        let rest = lines.skip(1);
        assert(forall|i: int| 0 <= i < rest.len() ==> rest[i] == lines[i + 1]);
        total_len_bound(rest);
        assert(lines.len() * usize::MAX == rest.len() * usize::MAX + usize::MAX)
            by (nonlinear_arith)
            requires
                lines.len() == rest.len() + 1,
        ;
    }
}

impl Clone for CollectedLines {
    fn clone(&self) -> (r: Self)
        ensures
            r@ == self@,
            self.wf() ==> r.wf(),
    {
        let lines = self.lines.clone();
        proof {
            assert forall|i: int| 0 <= i < self.lines@.len() implies lines@[i]@
                == self.lines@[i]@ by {
                assert(cloned::<String>(self.lines@[i], lines@[i]));
            }
            assert(text::texts(lines@) =~= text::texts(self.lines@));
        }
        Self { lines, truncated: self.truncated, retained_bytes: self.retained_bytes }
    }
}

impl Default for CollectedLines {
    fn default() -> (r: Self)
        ensures
            r.wf(),
            r@ == Collection::empty(),
    {
        Self::new()
    }
}

impl std::ops::Deref for CollectedLines {
    type Target = VecDeque<String>;

    fn deref(&self) -> (r: &VecDeque<String>)
        ensures
            text::texts(r@) == self@.lines,
    {
        &self.lines
    }
}

/// The sizes involved in taking a chunk in can be expressed whenever the bytes retained and the chunk
/// can be counted together, and always if what is retained only shrinks or stays.
pub proof fn sizes_are_only_short_for_huge_collections(
    retained_len: nat,
    chunk_len: nat,
    options: RawCollectionOptions,
)
    ensures
        retained_len + chunk_len <= usize::MAX ==> is_representable(
            retained_len,
            chunk_len,
            options,
        ),
        options matches RawCollectionOptions::Bounded { max_bytes, overflow_behavior } && (
        overflow_behavior == CollectionOverflowBehavior::DropAdditionalData || chunk_len
            > max_bytes@) ==> is_representable(retained_len, chunk_len, options),
{
}

} // verus!
