//! Configuration for the line parser: maximum line length and how to handle overflow.

use crate::output_stream::num_bytes::{NumBytes, NumBytesExt};
use vstd::prelude::*;

verus! {

/// What should happen when a line is too long?
#[derive(Debug, Clone, Copy, PartialEq, Eq, Structural)]
pub enum LineOverflowBehavior {
    /// Drop any additional data received after the current line was considered too long until
    /// the next newline character is observed, which then starts a new line.
    ///
    /// The discard state persists across chunk boundaries. Once the limit is reached, subsequent
    /// bytes are ignored until a real newline is observed.
    DropAdditionalData,
    /// Emit the current line when the maximum allowed length is reached.
    /// Any additional data received is immediately taken as the content of the next line.
    ///
    /// This option really just adds intermediate line breaks to not let any emitted line exceed the
    /// length limit.
    ///
    /// No data is dropped with this behavior.
    EmitAdditionalAsNewLines,
}

impl Default for LineOverflowBehavior {
    fn default() -> (r: Self)
        ensures
            r == LineOverflowBehavior::DropAdditionalData,
    {
        LineOverflowBehavior::DropAdditionalData
    }
}

/// Configuration options for parsing lines from a stream.
#[derive(Debug, Clone, Copy, PartialEq, Eq, Structural)]
pub struct LineParsingOptions {
    /// Maximum length of a single line in bytes.
    /// When reached, further data won't be appended to the current line.
    /// The line will be emitted in its current state.
    ///
    /// **Must be greater than zero** for any line-consuming visitor. The bare parser takes zero to
    /// mean that lines have no limit. If you want effectively unbounded line parsing, that is accept
    /// arbitrarily long lines from a trusted source, pass [`NumBytes::max_value`] to visitors.
    ///
    /// Defaults to 16 kilobytes.
    pub max_line_length: NumBytes,
    /// What should happen when a line is too long?
    ///
    /// When lossy buffering drops chunks before they reach the parser, line-based consumers
    /// conservatively discard any partial line and resynchronize at the next newline instead of
    /// joining bytes across the gap.
    pub overflow_behavior: LineOverflowBehavior,
    /// Capacity above which the parser gives its buffers back to the allocator between lines.
    ///
    /// With `None`, the default, a buffer keeps the capacity of the longest line seen. The
    /// threshold never changes which lines are parsed.
    pub buffer_compaction_threshold: Option<NumBytes>,
}

impl LineParsingOptions {
    /// Whether lines have a length limit at all.
    pub open spec fn is_limited(self) -> bool {
        self.max_line_length@ != 0
    }

    /// Whether a line of `len` bytes is as long as the limit allows.
    pub open spec fn is_full(self, len: nat) -> bool {
        self.is_limited() && len == self.max_line_length@
    }

    /// Whether a line of `len` bytes stays within the limit.
    pub open spec fn allows(self, len: nat) -> bool {
        self.is_limited() ==> len <= self.max_line_length@
    }

    /// Whether data beyond the limit continues on a new line.
    pub open spec fn continues_on_new_line(self) -> bool {
        self.overflow_behavior == LineOverflowBehavior::EmitAdditionalAsNewLines
    }
}

/// A setting of a builder that was not given yet.
#[derive(Debug, Clone, Copy, PartialEq, Eq, Structural)]
pub struct NotSet;

/// Builder for [`LineParsingOptions`]. The length limit and the overflow behavior have to be given,
/// in any order.
#[derive(Debug, Clone, Copy, PartialEq, Eq)]
pub struct LineParsingOptionsBuilder<L = NotSet, O = NotSet> {
    /// The length limit, once it is given.
    pub max_line_length: L,
    /// The overflow behavior, once it is given.
    pub overflow_behavior: O,
    /// The capacity above which buffers are given back, if any.
    pub buffer_compaction_threshold: Option<NumBytes>,
}

impl LineParsingOptions {
    /// Starts building options. Buffers are not given back unless a threshold is set.
    #[must_use]
    pub fn builder() -> (r: LineParsingOptionsBuilder)
        ensures
            r == (LineParsingOptionsBuilder {
                max_line_length: NotSet,
                overflow_behavior: NotSet,
                buffer_compaction_threshold: None,
            }),
    {
        LineParsingOptionsBuilder {
            max_line_length: NotSet,
            overflow_behavior: NotSet,
            buffer_compaction_threshold: None,
        }
    }
}

impl<O> LineParsingOptionsBuilder<NotSet, O> {
    /// Sets the maximum length of a single line.
    #[must_use]
    pub fn max_line_length(self, max_line_length: NumBytes) -> (r: LineParsingOptionsBuilder<
        NumBytes,
        O,
    >)
        ensures
            r.max_line_length == max_line_length,
            r.overflow_behavior == self.overflow_behavior,
            r.buffer_compaction_threshold == self.buffer_compaction_threshold,
    {
        LineParsingOptionsBuilder {
            max_line_length,
            overflow_behavior: self.overflow_behavior,
            buffer_compaction_threshold: self.buffer_compaction_threshold,
        }
    }
}

impl<L> LineParsingOptionsBuilder<L, NotSet> {
    /// Sets what happens when a line is too long.
    #[must_use]
    pub fn overflow_behavior(self, overflow_behavior: LineOverflowBehavior) -> (r:
        LineParsingOptionsBuilder<L, LineOverflowBehavior>)
        ensures
            r.max_line_length == self.max_line_length,
            r.overflow_behavior == overflow_behavior,
            r.buffer_compaction_threshold == self.buffer_compaction_threshold,
    {
        LineParsingOptionsBuilder {
            max_line_length: self.max_line_length,
            overflow_behavior,
            buffer_compaction_threshold: self.buffer_compaction_threshold,
        }
    }
}

impl<L, O> LineParsingOptionsBuilder<L, O> {
    /// Sets the capacity above which buffers are given back.
    #[must_use]
    pub fn buffer_compaction_threshold(self, threshold: Option<NumBytes>) -> (r: Self)
        ensures
            r == (LineParsingOptionsBuilder { buffer_compaction_threshold: threshold, ..self }),
    {
        LineParsingOptionsBuilder { buffer_compaction_threshold: threshold, ..self }
    }
}

impl LineParsingOptionsBuilder<NumBytes, LineOverflowBehavior> {
    /// Finishes building.
    #[must_use]
    pub fn build(self) -> (r: LineParsingOptions)
        ensures
            r == (LineParsingOptions {
                max_line_length: self.max_line_length,
                overflow_behavior: self.overflow_behavior,
                buffer_compaction_threshold: self.buffer_compaction_threshold,
            }),
    {
        LineParsingOptions {
            max_line_length: self.max_line_length,
            overflow_behavior: self.overflow_behavior,
            buffer_compaction_threshold: self.buffer_compaction_threshold,
        }
    }
}

/// What is wrong with options that allow lines of no bytes.
pub open spec fn zero_line_length_message() -> Seq<char> {
    "LineParsingOptions::max_line_length must be greater than zero. If you want effectively unbounded line parsing, pass `NumBytes::max_value()` (or another large explicit value) — zero is never a valid configuration for line-consuming visitors."@
}

/// Checks that lines have a length limit, which line-consuming visitors need.
pub fn check_max_line_length_non_zero(options: &LineParsingOptions) -> (r: Result<(), &'static str>)
    ensures
        match r {
            Ok(_) => options.is_limited(),
            Err(message) => !options.is_limited() && message@ == zero_line_length_message(),
        },
        r is Ok == (options.max_line_length@ > 0),
{
    if options.max_line_length.bytes() > 0 {
        Ok(())
    } else {
        Err(
            "LineParsingOptions::max_line_length must be greater than zero. If you want effectively unbounded line parsing, pass `NumBytes::max_value()` (or another large explicit value) — zero is never a valid configuration for line-consuming visitors.",
        )
    }
}

impl Default for LineParsingOptions {
    fn default() -> (r: Self)
        ensures
            r.max_line_length@ == 16 * 1024,
            r.overflow_behavior == LineOverflowBehavior::DropAdditionalData,
            r.buffer_compaction_threshold is None,
    {
        LineParsingOptions {
            max_line_length: 16usize.kilobytes(),
            overflow_behavior: LineOverflowBehavior::default(),
            buffer_compaction_threshold: None,
        }
    }
}

/// A limit of zero bytes means that there is none, and every other limit counts as it is.
pub proof fn only_zero_means_no_limit(options: LineParsingOptions, len: nat)
    ensures
        options.is_limited() == (options.max_line_length@ > 0),
        options.allows(len) == (options.max_line_length@ == 0 || len <= options.max_line_length@),
        options.is_full(len) == (options.max_line_length@ > 0 && len
            == options.max_line_length@),
        options.continues_on_new_line() == (options.overflow_behavior
            == LineOverflowBehavior::EmitAdditionalAsNewLines),
{
}

} // verus!
